//! The renderer and what it owns.

pub mod backend;
