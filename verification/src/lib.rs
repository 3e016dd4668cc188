//! A small game tick engine: a player dodges obstacles that fall down a
//! fixed-size grid. The engine covers the per-tick state machine (input,
//! movement with clamping, obstacle spawn/advance/cull, collision, score);
//! rendering and keyboard capture are left to the surrounding program.

pub mod field;
pub mod game;
pub mod laws;
pub mod rng;
