//! Tests for the geometry primitives, the player, and the input decoder.

use rockfall::{decode_key, Command, Direction, Key, Player, Point};

#[test]
fn opposite_maps_each_direction() {
    assert_eq!(Direction::Up.opposite(), Direction::Down);
    assert_eq!(Direction::Down.opposite(), Direction::Up);
    assert_eq!(Direction::Left.opposite(), Direction::Right);
    assert_eq!(Direction::Right.opposite(), Direction::Left);
}

#[test]
fn opposite_twice_is_identity() {
    for d in [Direction::Up, Direction::Right, Direction::Down, Direction::Left] {
        assert_eq!(d.opposite().opposite(), d);
    }
}

#[test]
fn transform_left_and_right_shift_x() {
    let p = Point::new(4, 7);
    let l = p.transform(Some(Direction::Left), 1);
    assert_eq!((l.x, l.y), (3, 7));
    let r = p.transform(Some(Direction::Right), 1);
    assert_eq!((r.x, r.y), (5, 7));
}

#[test]
fn transform_up_and_down_shift_y() {
    let p = Point::new(4, 7);
    let u = p.transform(Some(Direction::Up), 3);
    assert_eq!((u.x, u.y), (4, 4));
    let d = p.transform(Some(Direction::Down), 3);
    assert_eq!((d.x, d.y), (4, 10));
}

#[test]
fn transform_without_direction_is_identity() {
    let p = Point::new(4, 7);
    assert_eq!(p.transform(None, 5), p);
}

#[test]
fn player_starts_stopped_at_given_position() {
    let p = Player::new(Point::new(5, 9));
    assert_eq!(p.get_position(), Point::new(5, 9));
    assert_eq!(p.get_direction(), None);
}

#[test]
fn player_set_direction_overwrites() {
    let mut p = Player::new(Point::new(5, 9));
    p.set_direction(Some(Direction::Left));
    assert_eq!(p.get_direction(), Some(Direction::Left));
    p.set_direction(Some(Direction::Right));
    assert_eq!(p.get_direction(), Some(Direction::Right));
    p.set_direction(None);
    assert_eq!(p.get_direction(), None);
}

#[test]
fn player_move_commits_one_step() {
    let mut p = Player::new(Point::new(5, 9));
    p.set_direction(Some(Direction::Left));
    p.move_player();
    assert_eq!(p.get_position(), Point::new(4, 9));
    p.set_direction(Some(Direction::Right));
    p.move_player();
    p.move_player();
    assert_eq!(p.get_position(), Point::new(6, 9));
}

#[test]
fn player_move_without_direction_stays() {
    let mut p = Player::new(Point::new(5, 9));
    p.move_player();
    assert_eq!(p.get_position(), Point::new(5, 9));
}

#[test]
fn decode_quit_keys() {
    assert_eq!(decode_key(Key::Char('q'), false), Some(Command::Quit));
    assert_eq!(decode_key(Key::Char('Q'), false), Some(Command::Quit));
    assert_eq!(decode_key(Key::Esc, false), Some(Command::Quit));
}

#[test]
fn decode_control_c_quits() {
    assert_eq!(decode_key(Key::Char('c'), true), Some(Command::Quit));
    assert_eq!(decode_key(Key::Char('C'), true), Some(Command::Quit));
    assert_eq!(decode_key(Key::Char('c'), false), None);
    assert_eq!(decode_key(Key::Char('C'), false), None);
}

#[test]
fn decode_arrows_move() {
    assert_eq!(decode_key(Key::LeftArrow, false), Some(Command::Go(Direction::Left)));
    assert_eq!(decode_key(Key::RightArrow, false), Some(Command::Go(Direction::Right)));
}

#[test]
fn decode_ignores_other_keys() {
    assert_eq!(decode_key(Key::Char('x'), false), None);
    assert_eq!(decode_key(Key::Char('x'), true), None);
    assert_eq!(decode_key(Key::Other, false), None);
    assert_eq!(decode_key(Key::Other, true), None);
}
