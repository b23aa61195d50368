//! Tracks, the effects on them, and the identifiers by which both are known.

pub mod effect;
pub mod effect_slot;
pub mod track;
