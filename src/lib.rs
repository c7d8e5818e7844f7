//! A turn-based chase game on a bounded grid: one player, a swarm of robots
//! that step toward the player every turn, and scrap heaps left where robots
//! collide.

pub mod control;
pub mod field;
pub mod game;
pub mod geometry;
pub mod lemmas;
pub mod placement;
mod random;
pub mod score;

pub use control::{
    input,
    input_with,
    Status,
    KEY_DOWN,
    KEY_LDOWN,
    KEY_LEFT,
    KEY_LUP,
    KEY_QUIT,
    KEY_RAND,
    KEY_RDOWN,
    KEY_RIGHT,
    KEY_RUP,
    KEY_STAY,
    KEY_STOP,
    KEY_UP,
};
pub use field::{Field, Object};
pub use game::{Game, Verdict};
pub use geometry::Point;
pub use score::get_highscore;
