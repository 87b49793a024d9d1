//! A small model of Western pitch notation: note names, accidentals,
//! octave-tagged notes, the seven diatonic modes, and scale construction.

pub mod accidentals;
pub mod diatonic_scales;
pub mod errors;
pub mod notenames;
pub mod notes;
pub mod notesequences;
