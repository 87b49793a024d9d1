use vstd::prelude::*;

verus! {

/// Why a textual note failed to parse.
#[derive(Debug, PartialEq, Eq, Structural, Copy, Clone)]
pub enum NoteParseError {
    /// The leading character is not a letter in A..G (either case), or is absent.
    InvalidNoteName,
    /// The run of characters after the letter is not one of the five
    /// accidental tokens.
    InvalidAccidental,
    /// The remainder after the accidental is not a signed integer that fits
    /// an octave number.
    InvalidOctave,
}

/// Why a note sequence could not be assigned a diatonic mode.
#[derive(Debug, PartialEq, Eq, Structural, Copy, Clone)]
pub enum ModeError {
    /// The sequence does not hold exactly seven notes.
    WrongLength,
    /// The six gaps between consecutive notes match no diatonic mode.
    UnrecognizedPattern,
}

} // verus!
