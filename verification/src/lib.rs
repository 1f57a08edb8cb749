//! The logic a game server needs when it runs inside an app instead of as a
//! process of its own: a log that can be read from memory, the steps of
//! starting a server without ever taking the process down, the reports that
//! the app shows, and the choice of biomes for a world.

pub mod biome;
pub mod bridge;
pub mod json;
pub mod log_ring;
pub mod players;
pub mod seed;
pub mod stats;
pub mod text;
