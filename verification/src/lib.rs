//! Core logic of a reflex arcade game: colored buttons appear under a
//! shrinking time budget, misses cost lives, hits raise the score and the
//! difficulty. This crate verifies the asynchronous orchestration core —
//! the signal-to-promise registry, the resource-change watcher, the race
//! settlement rule, and the game-flow state machine — over plain values.
//! Rendering, scheduling and input delivery live outside the library.

pub mod flow;
pub mod race;
pub mod random;
pub mod signals;
pub mod state;
pub mod watch;
