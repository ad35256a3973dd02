//! Tests for the obstacle field and the per-tick state machine.

use rockfall::{Command, Direction, Game, GameStatus, Player, Point};

fn no_commands() -> Vec<Command> {
    Vec::new()
}

#[test]
fn new_game_initial_state() {
    let g = Game::new(10, 5, 2, 3);
    assert_eq!(g.width, 10);
    assert_eq!(g.height, 5);
    assert!(g.rock.is_empty());
    assert_eq!(g.player.get_position(), Point::new(5, 4));
    assert_eq!(g.player.get_direction(), None);
    assert_eq!(g.wait_for_rock_move, 2);
    assert_eq!(g.wait_for_rock_gen, 3);
    assert_eq!(g.score, 0);
    assert_eq!(g.status, GameStatus::Running);
}

#[test]
fn advance_shifts_down_and_drops_bottom_rocks() {
    let mut g = Game::new(10, 5, 2, 3);
    g.rock = vec![Point::new(3, 2), Point::new(4, 4), Point::new(5, 0)];
    g.move_rock();
    assert_eq!(g.rock, vec![Point::new(3, 3), Point::new(5, 1)]);
}

#[test]
fn advance_preserves_relative_order() {
    let mut g = Game::new(6, 8, 2, 3);
    g.rock = vec![Point::new(5, 1), Point::new(0, 3), Point::new(2, 0)];
    g.move_rock();
    assert_eq!(g.rock, vec![Point::new(5, 2), Point::new(0, 4), Point::new(2, 1)]);
}

#[test]
fn advance_on_empty_field_stays_empty() {
    let mut g = Game::new(6, 8, 2, 3);
    g.move_rock();
    assert!(g.rock.is_empty());
}

#[test]
fn spawn_grows_field_by_one_top_row_rock() {
    let mut g = Game::new(10, 5, 2, 3);
    let spawned = g.make_rock();
    assert!(spawned);
    assert_eq!(g.rock.len(), 1);
    assert_eq!(g.rock[0].y, 0);
    assert!(g.rock[0].x < 10);
}

#[test]
fn spawn_never_duplicates_until_row_is_full() {
    let mut g = Game::new(4, 5, 2, 3);
    for round in 0..4 {
        let spawned = g.make_rock();
        assert!(spawned, "spawn {} should find a free top-row cell", round);
    }
    assert_eq!(g.rock.len(), 4);
    for i in 0..g.rock.len() {
        for j in 0..i {
            assert_ne!(g.rock[i], g.rock[j]);
        }
    }
    let spawned = g.make_rock();
    assert!(!spawned);
    assert_eq!(g.rock.len(), 4);
}

#[test]
fn spawn_skips_when_top_row_full() {
    let mut g = Game::new(3, 5, 2, 3);
    g.rock = vec![Point::new(0, 0), Point::new(1, 0), Point::new(2, 0)];
    let spawned = g.make_rock();
    assert!(!spawned);
    assert_eq!(g.rock, vec![Point::new(0, 0), Point::new(1, 0), Point::new(2, 0)]);
}

#[test]
fn spawn_on_unit_grid_lands_in_the_only_column() {
    for _ in 0..8 {
        let mut g = Game::new(1, 5, 2, 3);
        assert!(g.make_rock());
        assert_eq!(g.rock, vec![Point::new(0, 0)]);
    }
}

#[test]
fn collision_ends_game_before_any_move() {
    let mut g = Game::new(10, 5, 100, 100);
    g.rock = vec![Point::new(5, 4)];
    g.tick(&vec![Command::Go(Direction::Left)]);
    assert_eq!(g.status, GameStatus::GameOver);
    assert_eq!(g.player.get_position(), Point::new(5, 4));
    assert_eq!(g.rock, vec![Point::new(5, 4)]);
    assert_eq!(g.score, 1);
}

#[test]
fn scenario_idle_run_counts_ticks() {
    let mut g = Game::new(10, 5, 100, 100);
    for _ in 0..5 {
        g.tick(&no_commands());
    }
    assert_eq!(g.score, 5);
    assert_eq!(g.status, GameStatus::Running);
    assert_eq!(g.player.get_position(), Point::new(5, 4));
    assert!(g.rock.is_empty());
}

#[test]
fn scenario_wall_rejects_left_move_at_zero() {
    let mut g = Game::new(10, 5, 100, 100);
    g.player = Player::new(Point::new(0, 4));
    g.tick(&vec![Command::Go(Direction::Left)]);
    assert_eq!(g.player.get_position(), Point::new(0, 4));
    assert_eq!(g.player.get_direction(), Some(Direction::Left));
    assert_eq!(g.status, GameStatus::Running);
}

#[test]
fn scenario_wall_rejects_right_move_at_edge() {
    let mut g = Game::new(10, 5, 100, 100);
    g.player = Player::new(Point::new(9, 4));
    g.tick(&vec![Command::Go(Direction::Right)]);
    assert_eq!(g.player.get_position(), Point::new(9, 4));
    assert_eq!(g.player.get_direction(), Some(Direction::Right));
}

#[test]
fn scenario_collision_freezes_score() {
    let mut g = Game::new(10, 5, 100, 100);
    g.rock = vec![Point::new(5, 4)];
    g.tick(&no_commands());
    assert_eq!(g.status, GameStatus::GameOver);
    let frozen = g.score;
    g.tick(&no_commands());
    g.tick(&no_commands());
    assert_eq!(g.score, frozen);
    assert_eq!(g.status, GameStatus::GameOver);
}

#[test]
fn scenario_quit_mid_tick_skips_the_rest() {
    let mut g = Game::new(10, 5, 1, 1);
    g.rock = vec![Point::new(2, 2)];
    g.tick(&vec![
        Command::Go(Direction::Left),
        Command::Quit,
        Command::Go(Direction::Right),
    ]);
    assert_eq!(g.status, GameStatus::GameOver);
    // no movement, no advance, no spawn for the quit tick
    assert_eq!(g.player.get_position(), Point::new(5, 4));
    assert_eq!(g.rock, vec![Point::new(2, 2)]);
    // the command before the quit was still applied; the one after was not
    assert_eq!(g.player.get_direction(), Some(Direction::Left));
    assert_eq!(g.score, 1);
}

#[test]
fn direction_persists_across_ticks() {
    let mut g = Game::new(10, 5, 100, 100);
    g.tick(&vec![Command::Go(Direction::Left)]);
    assert_eq!(g.player.get_position(), Point::new(4, 4));
    g.tick(&no_commands());
    g.tick(&no_commands());
    assert_eq!(g.player.get_position(), Point::new(2, 4));
    assert_eq!(g.player.get_direction(), Some(Direction::Left));
}

#[test]
fn last_direction_command_wins_within_a_tick() {
    let mut g = Game::new(10, 5, 100, 100);
    g.tick(&vec![Command::Go(Direction::Left), Command::Go(Direction::Right)]);
    assert_eq!(g.player.get_position(), Point::new(6, 4));
    assert_eq!(g.player.get_direction(), Some(Direction::Right));
}

#[test]
fn rocks_advance_on_their_interval() {
    let mut g = Game::new(10, 6, 2, 100);
    g.rock = vec![Point::new(3, 0)];
    g.tick(&no_commands());
    assert_eq!(g.rock, vec![Point::new(3, 0)]);
    g.tick(&no_commands());
    assert_eq!(g.rock, vec![Point::new(3, 1)]);
    g.tick(&no_commands());
    assert_eq!(g.rock, vec![Point::new(3, 1)]);
    g.tick(&no_commands());
    assert_eq!(g.rock, vec![Point::new(3, 2)]);
}

#[test]
fn rocks_spawn_on_their_interval() {
    let mut g = Game::new(10, 6, 100, 3);
    g.tick(&no_commands());
    g.tick(&no_commands());
    assert!(g.rock.is_empty());
    g.tick(&no_commands());
    assert_eq!(g.rock.len(), 1);
    assert_eq!(g.rock[0].y, 0);
    assert!(g.rock[0].x < 10);
}

#[test]
fn finished_game_never_changes() {
    let mut g = Game::new(10, 5, 1, 1);
    g.tick(&vec![Command::Quit]);
    assert_eq!(g.status, GameStatus::GameOver);
    let score = g.score;
    let position = g.player.get_position();
    g.tick(&vec![Command::Go(Direction::Right)]);
    assert_eq!(g.score, score);
    assert_eq!(g.player.get_position(), position);
    assert_eq!(g.status, GameStatus::GameOver);
    assert!(g.rock.is_empty());
}
