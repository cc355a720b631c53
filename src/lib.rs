//! The observation engine of a small stargazing game: a catalog of objects
//! and telescopes, the partition of objects into what can and cannot be seen
//! with the power at hand, and the observations made so far.
pub mod data;
pub mod engine;
pub mod error;
pub mod game;
pub mod report;
pub mod seq_sets;
pub mod state;
pub mod types;
