//! The game state and the per-tick state machine: counters, score, the
//! obstacle field's advance and spawn, collision detection, and the tick
//! transition. Terminal rendering and event polling live outside the
//! library; the tick takes the commands decoded during its input window.

use vstd::prelude::*;
use crate::direction::Direction;
use crate::point::{Point, spec_transform};
use crate::player::Player;
use crate::command::Command;

verus! {

/// The controller's state: the game runs until a collision or an explicit
/// quit, and never leaves `GameOver`.
#[derive(Debug, Copy, Clone, PartialEq, Eq, Structural)]
pub enum GameStatus {
    Running,
    GameOver,
}

pub struct Game {
    pub width: u16,
    pub height: u16,
    pub rock: Vec<Point>,
    pub player: Player,
    pub rock_move_interval: u16,
    pub rock_gen_interval: u16,
    pub wait_for_rock_move: u16,
    pub wait_for_rock_gen: u16,
    pub score: u32,
    pub status: GameStatus,
}

/// The player only ever intends a horizontal move; Up and Down are reserved
/// for obstacle motion.
pub open spec fn dir_ok(d: Option<Direction>) -> bool {
    ||| d is None
    ||| d == Some(Direction::Left)
    ||| d == Some(Direction::Right)
}

/// Every rock lies on the grid.
pub open spec fn rocks_in_bounds(s: Seq<Point>, width: u16, height: u16) -> bool {
    forall|i: int| 0 <= i < s.len() ==> #[trigger] s[i].x < width && s[i].y < height
}

/// The game's invariant: grid and intervals are non-degenerate, the player
/// stands on the grid with a horizontal (or no) intended direction, the rocks
/// lie on the grid without duplicates, and while the game runs, each
/// countdown sits between one and its interval.
pub open spec fn wf(g: Game) -> bool {
    &&& 1 <= g.width
    &&& 1 <= g.height
    &&& 1 <= g.rock_move_interval
    &&& 1 <= g.rock_gen_interval
    &&& g.player.position.x < g.width
    &&& g.player.position.y < g.height
    &&& dir_ok(g.player.direction)
    &&& rocks_in_bounds(g.rock@, g.width, g.height)
    &&& g.rock@.no_duplicates()
    &&& (g.status is Running ==> {
        &&& 1 <= g.wait_for_rock_move <= g.rock_move_interval
        &&& 1 <= g.wait_for_rock_gen <= g.rock_gen_interval
    })
}

/// Whether committing a one-unit move in the player's intended direction
/// would leave the playable columns — or there is no intended direction,
/// which also keeps the player in place. The reserved vertical directions,
/// which the controller never lets a player hold, count as illegal too.
pub open spec fn spec_wall_collision(player: Player, width: u16) -> bool {
    match player.direction {
        None => true,
        Some(Direction::Right) => player.position.x >= width - 1,
        Some(Direction::Left) => player.position.x == 0,
        Some(_) => true,
    }
}

/// Relies on rand::random_range: a uniform draw from `0..n` lies below `n`;
/// the call panics only on an empty range, which `requires` excludes.
#[verifier::external_body]
fn random_below(n: u16) -> (r: u16)
    requires
        1 <= n,
    ensures
        r < n,
{
    rand::random_range(0..n)
}

/// A rock moved one row down.
pub open spec fn point_down(p: Point) -> Point {
    Point { x: p.x, y: (p.y + 1) as u16 }
}

/// The obstacle field after one downward advance: every rock moves one row
/// down, in order, and a rock whose new row would reach the bottom edge is
/// removed.
pub open spec fn advanced_rocks(s: Seq<Point>, height: u16) -> Seq<Point>
    decreases s.len(),
{
    if s.len() == 0 {
        Seq::empty()
    } else {
        let prefix = advanced_rocks(s.drop_last(), height);
        if s.last().y + 1 < height {
            prefix.push(point_down(s.last()))
        } else {
            prefix
        }
    }
}

/// An advance removes exactly the rocks whose shifted row reaches the bottom
/// edge, and shifts all the others down by exactly one row, preserving their
/// column and their relative order.
pub proof fn lemma_advance_exact(s: Seq<Point>, height: u16)
    ensures
        advanced_rocks(s, height) =~= s.filter(|p: Point| p.y + 1 < height).map_values(
            |p: Point| point_down(p),
        ),
    decreases s.len(),
{
    reveal(Seq::filter);
    let pred = |p: Point| p.y + 1 < height;
    let f = |p: Point| point_down(p);
    if s.len() == 0 {
        assert(s.filter(pred) =~= Seq::<Point>::empty());
        assert(s.filter(pred).map_values(f) =~= Seq::<Point>::empty());
    } else {
        lemma_advance_exact(s.drop_last(), height);
        if pred(s.last()) {
            assert(s.filter(pred) == s.drop_last().filter(pred).push(s.last()));
            assert(s.drop_last().filter(pred).push(s.last()).map_values(f) =~= s.drop_last().filter(
                pred,
            ).map_values(f).push(f(s.last())));
        } else {
            assert(s.filter(pred) == s.drop_last().filter(pred));
        }
    }
}

/// Every rock of an advanced field is some rock of the original field, one
/// row down.
proof fn lemma_advanced_rocks_elems(s: Seq<Point>, height: u16)
    ensures
        forall|j: int|
            0 <= j < advanced_rocks(s, height).len() ==> exists|i: int|
                0 <= i < s.len() && s[i].y + 1 < height && #[trigger] advanced_rocks(s, height)[j]
                    == point_down(s[i]),
    decreases s.len(),
{
    if s.len() == 0 {
    } else {
        lemma_advanced_rocks_elems(s.drop_last(), height);
        let adv = advanced_rocks(s, height);
        let advp = advanced_rocks(s.drop_last(), height);
        assert forall|j: int| 0 <= j < adv.len() implies exists|i: int|
            0 <= i < s.len() && s[i].y + 1 < height && #[trigger] adv[j] == point_down(s[i]) by {
            if j < advp.len() {
                let i = choose|i: int|
                    0 <= i < s.drop_last().len() && s.drop_last()[i].y + 1 < height && advp[j]
                        == point_down(s.drop_last()[i]);
                assert(s[i] == s.drop_last()[i]);
                assert(adv[j] == point_down(s[i]));
            } else {
                let i = s.len() - 1;
                assert(adv[j] == point_down(s[i]));
            }
        }
    }
}

/// Advancing a well-formed field keeps every rock on the grid and introduces
/// no duplicate: distinct rocks stay distinct when all shift down together.
pub proof fn lemma_advanced_rocks_wf(s: Seq<Point>, width: u16, height: u16)
    requires
        rocks_in_bounds(s, width, height),
        s.no_duplicates(),
    ensures
        rocks_in_bounds(advanced_rocks(s, height), width, height),
        advanced_rocks(s, height).no_duplicates(),
    decreases s.len(),
{
    if s.len() == 0 {
    } else {
        let t = s.drop_last();
        assert(rocks_in_bounds(t, width, height)) by {
            assert(forall|i: int| 0 <= i < t.len() ==> t[i] == s[i]);
        }
        assert(t.no_duplicates()) by {
            assert(forall|i: int| 0 <= i < t.len() ==> t[i] == s[i]);
        }
        lemma_advanced_rocks_wf(t, width, height);
        lemma_advanced_rocks_elems(t, height);
        let advp = advanced_rocks(t, height);
        let last = s.last();
        if last.y + 1 < height {
            assert(!advp.contains(point_down(last))) by {
                if advp.contains(point_down(last)) {
                    let j = choose|j: int| 0 <= j < advp.len() && advp[j] == point_down(last);
                    let i = choose|i: int|
                        0 <= i < t.len() && t[i].y + 1 < height && advp[j] == point_down(t[i]);
                    assert(point_down(t[i]) == point_down(last));
                    assert(t[i].x == last.x && t[i].y == last.y);
                    assert(s[i] == s[s.len() - 1]);
                    assert(false);
                }
            }
            assert(advanced_rocks(s, height) == advp.push(point_down(last)));
            assert(advp.push(point_down(last)).no_duplicates()) by {
                let whole = advp.push(point_down(last));
                assert forall|i: int, j: int|
                    0 <= i < j < whole.len() implies whole[i] != whole[j] by {
                    if j < advp.len() {
                        assert(whole[i] == advp[i] && whole[j] == advp[j]);
                    } else {
                        assert(whole[j] == point_down(last));
                        assert(whole[i] == advp[i]);
                        assert(advp.contains(advp[i]));
                    }
                }
            }
            assert(rocks_in_bounds(advanced_rocks(s, height), width, height)) by {
                let whole = advp.push(point_down(last));
                assert(point_down(last).x < width && point_down(last).y < height);
                assert(forall|i: int|
                    0 <= i < whole.len() ==> #[trigger] whole[i].x < width && whole[i].y < height);
            }
        }
    }
}

/// A command the controller accepts from the decoder: quit, or a horizontal
/// move. Up and Down are never player-selectable.
pub open spec fn cmd_ok(c: Command) -> bool {
    ||| c is Quit
    ||| c == Command::Go(Direction::Left)
    ||| c == Command::Go(Direction::Right)
}

/// The intended direction after a tick's commands are processed in order:
/// each `Go` overwrites it (the last one wins), processing stops at the first
/// `Quit`, and with no command it is unchanged.
pub open spec fn dir_after(cmds: Seq<Command>, d0: Option<Direction>) -> Option<Direction>
    decreases cmds.len(),
{
    if cmds.len() == 0 {
        d0
    } else {
        match cmds[0] {
            Command::Quit => d0,
            Command::Go(d) => dir_after(cmds.subrange(1, cmds.len() as int), Some(d)),
        }
    }
}

/// Whether a tick's commands ask to quit.
pub open spec fn has_quit(cmds: Seq<Command>) -> bool {
    exists|i: int| 0 <= i < cmds.len() && cmds[i] is Quit
}

/// A tick that ends the game on the spot: the state becomes `GameOver` and
/// the player, the rocks and the already-decremented countdowns are left as
/// they stand; no movement, advance or spawn is applied.
pub open spec fn halting_tick(g0: Game, g1: Game) -> bool {
    &&& g1.status is GameOver
    &&& g1.player.position == g0.player.position
    &&& g1.rock@ == g0.rock@
    &&& g1.wait_for_rock_move == g0.wait_for_rock_move - 1
    &&& g1.wait_for_rock_gen == g0.wait_for_rock_gen - 1
}

/// Where the player stands after the wall check: the move commits only when
/// it is legal, otherwise the player stays put.
pub open spec fn moved_position(p0: Point, d1: Option<Direction>, width: u16) -> Point {
    if !spec_wall_collision(Player { position: p0, direction: d1 }, width) {
        spec_transform(p0, d1, 1)
    } else {
        p0
    }
}

/// The obstacle field after the advance stage of a tick: it advances exactly
/// when the move countdown has run out.
pub open spec fn rocks_after_advance(g0: Game) -> Seq<Point> {
    if g0.wait_for_rock_move == 1 {
        advanced_rocks(g0.rock@, g0.height)
    } else {
        g0.rock@
    }
}

/// What a spawn attempt leaves behind: when some top-row cell is free, one
/// rock appears there (at a column the random draw picked) and nothing else
/// changes; when the whole top row is occupied, the field is unchanged.
pub open spec fn spawn_outcome(r1: Seq<Point>, width: u16, r2: Seq<Point>) -> bool {
    if exists|x: u16| x < width && !r1.contains(Point { x, y: 0 }) {
        exists|x: u16| x < width && !r1.contains(Point { x, y: 0 }) && r2 == r1.push(Point { x, y: 0 })
    } else {
        r2 == r1
    }
}

/// A move that passes the wall check never leaves the playable columns: from
/// a column on the grid, the committed move lands on a column on the grid.
pub proof fn lemma_legal_move_in_bounds(p0: Point, d: Option<Direction>, width: u16)
    requires
        p0.x < width,
        dir_ok(d),
    ensures
        moved_position(p0, d, width).x < width,
{
}

/// The obstacle-field clause of a full tick: the field advances when its
/// countdown has run out, then a spawn is attempted when the spawn countdown
/// has run out.
pub open spec fn rocks_outcome(g0: Game, r2: Seq<Point>) -> bool {
    if g0.wait_for_rock_gen == 1 {
        spawn_outcome(rocks_after_advance(g0), g0.width, r2)
    } else {
        r2 == rocks_after_advance(g0)
    }
}

impl Game {
    pub fn new(width: u16, height: u16, rock_move_interval: u16, rock_gen_interval: u16) -> (r: Self)
        requires
            1 <= width,
            1 <= height,
            1 <= rock_move_interval,
            1 <= rock_gen_interval,
        ensures
            wf(r),
            r.width == width,
            r.height == height,
            r.rock@ == Seq::<Point>::empty(),
            r.player.position == (Point { x: width / 2, y: (height - 1) as u16 }),
            r.player.direction is None,
            r.rock_move_interval == rock_move_interval,
            r.rock_gen_interval == rock_gen_interval,
            r.wait_for_rock_move == rock_move_interval,
            r.wait_for_rock_gen == rock_gen_interval,
            r.score == 0,
            r.status is Running,
    {
        let rock: Vec<Point> = Vec::new();
        let r = Self {
            width,
            height,
            rock,
            player: Player::new(Point::new(width / 2, height - 1)),
            rock_move_interval,
            rock_gen_interval,
            wait_for_rock_move: rock_move_interval,
            wait_for_rock_gen: rock_gen_interval,
            score: 0,
            status: GameStatus::Running,
        };
        proof {
            assert(r.rock@ =~= Seq::<Point>::empty());
        }
        r
    }

    /// Linear scan for an exact point in the obstacle field.
    fn contains_point(rock: &Vec<Point>, p: Point) -> (r: bool)
        ensures
            r == rock@.contains(p),
    {
        let mut i: usize = 0;
        while i < rock.len()
            invariant
                i <= rock@.len(),
                forall|k: int| 0 <= k < i ==> rock@[k] != p,
            decreases rock@.len() - i,
        {
            if rock[i] == p {
                return true;
            }
            i += 1;
        }
        false
    }

    /// The game is lost when a rock occupies the player's exact cell.
    pub fn has_collided_with_rock(&self) -> (r: bool)
        ensures
            r == self.rock@.contains(self.player.position),
    {
        Self::contains_point(&self.rock, self.player.get_position())
    }

    /// Whether the intended move is illegal: moving Right at the rightmost
    /// playable column, moving Left at column zero, or having no intended
    /// direction at all, which counts as "stay put".
    pub fn has_collided_with_wall(&self) -> (r: bool)
        requires
            1 <= self.width,
            dir_ok(self.player.direction),
        ensures
            r == spec_wall_collision(self.player, self.width),
    {
        match self.player.get_direction() {
            None => true,
            Some(Direction::Right) => self.player.get_position().x >= self.width - 1,
            Some(Direction::Left) => self.player.get_position().x == 0,
            Some(_) => true,
        }
    }

    /// One downward advance of the obstacle field: every rock shifts one row
    /// down, and rocks that would leave the grid are dropped, in order.
    pub fn move_rock(&mut self)
        requires
            1 <= old(self).height,
        ensures
            final(self).rock@ == advanced_rocks(old(self).rock@, old(self).height),
            final(self).width == old(self).width,
            final(self).height == old(self).height,
            final(self).player == old(self).player,
            final(self).rock_move_interval == old(self).rock_move_interval,
            final(self).rock_gen_interval == old(self).rock_gen_interval,
            final(self).wait_for_rock_move == old(self).wait_for_rock_move,
            final(self).wait_for_rock_gen == old(self).wait_for_rock_gen,
            final(self).score == old(self).score,
            final(self).status == old(self).status,
    {
        let mut new_rock: Vec<Point> = Vec::new();
        let mut i: usize = 0;
        while i < self.rock.len()
            invariant
                *self == *old(self),
                1 <= self.height,
                i <= self.rock@.len(),
                new_rock@ == advanced_rocks(self.rock@.take(i as int), self.height),
            decreases self.rock@.len() - i,
        {
            let p = self.rock[i];
            if p.y < self.height - 1 {
                new_rock.push(Point { x: p.x, y: p.y + 1 });
            }
            proof {
                let taken = self.rock@.take(i + 1);
                assert(taken.drop_last() =~= self.rock@.take(i as int));
                assert(taken.last() == self.rock@[i as int]);
            }
            i += 1;
        }
        proof {
            assert(self.rock@.take(self.rock@.len() as int) =~= self.rock@);
        }
        self.rock = new_rock;
    }

    /// Tries to spawn one rock in the top row: first at a uniformly random
    /// column, then — if that cell is occupied — at the first free top-row
    /// cell. When the whole top row is occupied, the spawn is skipped, so the
    /// search is bounded and the field never gains a duplicate.
    pub fn make_rock(&mut self) -> (spawned: bool)
        requires
            1 <= old(self).width,
        ensures
            spawned <==> exists|x: u16|
                x < old(self).width && !old(self).rock@.contains(Point { x, y: 0 }),
            spawned ==> {
                &&& final(self).rock@.len() == old(self).rock@.len() + 1
                &&& final(self).rock@ == old(self).rock@.push(final(self).rock@.last())
                &&& final(self).rock@.last().y == 0
                &&& final(self).rock@.last().x < old(self).width
                &&& !old(self).rock@.contains(final(self).rock@.last())
            },
            !spawned ==> final(self).rock@ == old(self).rock@,
            final(self).width == old(self).width,
            final(self).height == old(self).height,
            final(self).player == old(self).player,
            final(self).rock_move_interval == old(self).rock_move_interval,
            final(self).rock_gen_interval == old(self).rock_gen_interval,
            final(self).wait_for_rock_move == old(self).wait_for_rock_move,
            final(self).wait_for_rock_gen == old(self).wait_for_rock_gen,
            final(self).score == old(self).score,
            final(self).status == old(self).status,
    {
        let cand_x = random_below(self.width);
        let cand = Point { x: cand_x, y: 0 };
        if !Self::contains_point(&self.rock, cand) {
            self.rock.push(cand);
            return true;
        }
        let mut x: u16 = 0;
        while x < self.width
            invariant
                *self == *old(self),
                x <= self.width,
                forall|j: u16| j < x ==> #[trigger] self.rock@.contains(Point { x: j, y: 0 }),
            decreases self.width - x,
        {
            let p = Point { x, y: 0 };
            if !Self::contains_point(&self.rock, p) {
                self.rock.push(p);
                return true;
            }
            x += 1;
        }
        false
    }

    /// One tick of the game loop. The countdowns tick down and the score
    /// counts the tick; the commands decoded during the tick's input window
    /// are applied in order; a quit ends the game at once, a rock on the
    /// player's (pre-move) cell ends it before any movement; otherwise a
    /// legal move commits, and the obstacle field advances and spawns when
    /// its countdowns run out, each resetting to its interval. A finished
    /// game never changes again.
    #[verifier::rlimit(100)]
    pub fn tick(&mut self, commands: &Vec<Command>)
        requires
            wf(*old(self)),
            old(self).score < u32::MAX,
            forall|i: int| 0 <= i < commands@.len() ==> cmd_ok(#[trigger] commands@[i]),
        ensures
            wf(*final(self)),
            final(self).width == old(self).width,
            final(self).height == old(self).height,
            final(self).rock_move_interval == old(self).rock_move_interval,
            final(self).rock_gen_interval == old(self).rock_gen_interval,
            old(self).status is GameOver ==> *final(self) == *old(self),
            old(self).status is Running ==> final(self).score == old(self).score + 1,
            old(self).status is Running ==> final(self).player.direction == dir_after(
                commands@,
                old(self).player.direction,
            ),
            old(self).status is Running && has_quit(commands@) ==> halting_tick(
                *old(self),
                *final(self),
            ),
            old(self).status is Running && !has_quit(commands@) && old(self).rock@.contains(
                old(self).player.position,
            ) ==> halting_tick(*old(self), *final(self)),
            old(self).status is Running && !has_quit(commands@) && !old(self).rock@.contains(
                old(self).player.position,
            ) ==> {
                &&& final(self).status is Running
                &&& final(self).player.position == moved_position(
                    old(self).player.position,
                    dir_after(commands@, old(self).player.direction),
                    old(self).width,
                )
                &&& final(self).wait_for_rock_move == (if old(self).wait_for_rock_move == 1 {
                    old(self).rock_move_interval as int
                } else {
                    old(self).wait_for_rock_move - 1
                })
                &&& final(self).wait_for_rock_gen == (if old(self).wait_for_rock_gen == 1 {
                    old(self).rock_gen_interval as int
                } else {
                    old(self).wait_for_rock_gen - 1
                })
                &&& rocks_outcome(*old(self), final(self).rock@)
            },
    {
        if self.status == GameStatus::GameOver {
            return;
        }
        self.wait_for_rock_gen = self.wait_for_rock_gen - 1;
        self.wait_for_rock_move = self.wait_for_rock_move - 1;
        self.score = self.score + 1;

        let ghost d0 = self.player.direction;
        let ghost gpre = *self;
        proof {
            assert(commands@.skip(0) =~= commands@);
        }
        let mut i: usize = 0;
        let mut quit: bool = false;
        while i < commands.len() && !quit
            invariant
                i <= commands@.len(),
                forall|k: int| 0 <= k < commands@.len() ==> cmd_ok(#[trigger] commands@[k]),
                self.width == gpre.width,
                self.height == gpre.height,
                self.rock@ == gpre.rock@,
                self.player.position == gpre.player.position,
                self.rock_move_interval == gpre.rock_move_interval,
                self.rock_gen_interval == gpre.rock_gen_interval,
                self.wait_for_rock_move == gpre.wait_for_rock_move,
                self.wait_for_rock_gen == gpre.wait_for_rock_gen,
                self.score == gpre.score,
                self.status == gpre.status,
                dir_ok(self.player.direction),
                !quit ==> !has_quit(commands@.take(i as int)),
                !quit ==> dir_after(commands@, d0) == dir_after(
                    commands@.skip(i as int),
                    self.player.direction,
                ),
                quit ==> has_quit(commands@) && self.player.direction == dir_after(commands@, d0),
            decreases commands@.len() - i,
        {
            let cmd = commands[i];
            proof {
                assert(commands@.skip(i as int)[0] == commands@[i as int]);
            }
            match cmd {
                Command::Quit => {
                    quit = true;
                    i += 1;
                }
                Command::Go(d) => {
                    self.player.set_direction(Some(d));
                    proof {
                        assert(commands@.skip(i as int).subrange(
                            1,
                            commands@.skip(i as int).len() as int,
                        ) =~= commands@.skip(i as int + 1));
                        assert(!has_quit(commands@.take(i as int + 1))) by {
                            if has_quit(commands@.take(i as int + 1)) {
                                let k = choose|k: int|
                                    0 <= k < commands@.take(i as int + 1).len()
                                        && (#[trigger] commands@.take(i as int + 1)[k]) is Quit;
                                if k < i as int {
                                    assert(commands@.take(i as int)[k] is Quit);
                                }
                            }
                        }
                    }
                    i += 1;
                }
            }
        }
        if quit {
            self.status = GameStatus::GameOver;
            return;
        }
        proof {
            assert(commands@.take(commands@.len() as int) =~= commands@);
            assert(commands@.skip(commands@.len() as int) =~= Seq::<Command>::empty());
        }

        if self.has_collided_with_rock() {
            self.status = GameStatus::GameOver;
            return;
        }

        if !self.has_collided_with_wall() {
            self.player.move_player();
        }

        if self.wait_for_rock_move == 0 {
            self.wait_for_rock_move = self.rock_move_interval;
            proof {
                lemma_advanced_rocks_wf(self.rock@, self.width, self.height);
            }
            self.move_rock();
        }

        if self.wait_for_rock_gen == 0 {
            self.wait_for_rock_gen = self.rock_gen_interval;
            let ghost r1 = self.rock@;
            let _spawned = self.make_rock();
            proof {
                if _spawned {
                    let p = self.rock@.last();
                    assert(p == (Point { x: p.x, y: 0 }));
                    assert(self.rock@.no_duplicates()) by {
                        assert forall|a: int, b: int|
                            0 <= a < b < self.rock@.len() implies self.rock@[a] != self.rock@[b] by {
                            if b < r1.len() {
                                assert(self.rock@[a] == r1[a] && self.rock@[b] == r1[b]);
                            } else {
                                assert(self.rock@[b] == p);
                                assert(self.rock@[a] == r1[a]);
                                assert(r1.contains(r1[a]));
                            }
                        }
                    }
                    assert(rocks_in_bounds(self.rock@, self.width, self.height)) by {
                        assert(forall|k: int| 0 <= k < r1.len() ==> self.rock@[k] == r1[k]);
                        assert(self.rock@[self.rock@.len() - 1] == p);
                    }
                }
            }
        }
    }
}

} // verus!
