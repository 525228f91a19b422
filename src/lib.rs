//! A Life-like cellular automaton on a bounded grid, with configurable birth and survival
//! counts, optional per-cell ages, and a double-buffered generation step whose result does
//! not depend on the order in which cells are evaluated.

pub mod display;
pub mod engine;
pub mod error;
pub mod kernel;
pub mod laws;
pub mod rules;
