//! Verified core of a top-down arcade shooter: fixed-capacity FIFO pools of
//! reusable entity handles, one-shot cooldown timers, per-tick movement, and
//! the combat and spawn rules that tie them together.
//!
//! The hosting engine (window, rendering, raw input) stays outside; it hands
//! the core plain values (key states, elapsed milliseconds) and reads back
//! positions, visibility and appearances keyed by integer handles.

pub mod combat;
pub mod game;
pub mod pool;
pub mod timer;
pub mod world;
