//! A terminal arcade game core: a player marker moves left and right along
//! the bottom of a bounded grid while falling rocks descend from the top.
//! The game ends on collision or on an explicit quit; survival time accrues
//! as score. This crate holds the verified game logic: geometry, the player,
//! the obstacle field, input decoding, and the per-tick state machine.
//! Terminal rendering and raw-mode handling live outside the library.

pub mod command;
pub mod direction;
pub mod game;
pub mod player;
pub mod point;

pub use command::{Command, Key, decode_key};
pub use direction::Direction;
pub use game::{Game, GameStatus};
pub use player::Player;
pub use point::Point;
