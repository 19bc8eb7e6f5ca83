//! Fixed-point combat and progression core of a top-down survival game.
//!
//! Every length is an integer count of thousandths of a world unit, every
//! time span an integer count of milliseconds, so a speed in world units per
//! second moves one thousandth per millisecond for each unit of speed.

pub mod aabb;
pub mod collectible;
pub mod enemy;
pub mod game_state;
pub mod ground;
pub mod player;
pub mod random;
pub mod run;
pub mod score;
pub mod spawner;
pub mod timers;
pub mod weapon_stats;
pub mod weapon_upgrade;
pub mod weapons;
