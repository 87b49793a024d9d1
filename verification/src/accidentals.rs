use vstd::prelude::*;
use crate::errors::NoteParseError;

verus! {

/// The five alteration levels a note can carry, from two semitones down to
/// two semitones up.
#[derive(Debug, PartialEq, Eq, Structural, Copy, Clone)]
pub enum Accidental {
    Doubleflat,
    Flat,
    Natural,
    Sharp,
    Doublesharp,
}

/// Semitone offset of an accidental: Doubleflat is -2, ..., Doublesharp is 2.
pub open spec fn acc_offset(a: Accidental) -> int {
    match a {
        Accidental::Doubleflat => -2,
        Accidental::Flat => -1,
        Accidental::Natural => 0,
        Accidental::Sharp => 1,
        Accidental::Doublesharp => 2,
    }
}

/// The textual token of an accidental: "bb", "b", "", "#" or "##".
pub open spec fn acc_token(a: Accidental) -> Seq<char> {
    match a {
        Accidental::Doubleflat => seq!['b', 'b'],
        Accidental::Flat => seq!['b'],
        Accidental::Natural => Seq::<char>::empty(),
        Accidental::Sharp => seq!['#'],
        Accidental::Doublesharp => seq!['#', '#'],
    }
}

/// Which accidental a token denotes, if any. This is the inverse of
/// `acc_token`: any other text denotes none.
pub open spec fn acc_of_token(s: Seq<char>) -> Option<Accidental> {
    if s.len() == 0 {
        Some(Accidental::Natural)
    } else if s.len() == 1 && s[0] == 'b' {
        Some(Accidental::Flat)
    } else if s.len() == 1 && s[0] == '#' {
        Some(Accidental::Sharp)
    } else if s.len() == 2 && s[0] == 'b' && s[1] == 'b' {
        Some(Accidental::Doubleflat)
    } else if s.len() == 2 && s[0] == '#' && s[1] == '#' {
        Some(Accidental::Doublesharp)
    } else {
        None
    }
}

/// The two spec-level maps between accidentals and tokens invert each other.
pub proof fn lemma_acc_token_roundtrip(a: Accidental)
    ensures
        acc_of_token(acc_token(a)) == Some(a),
{
}

impl Accidental {
    /// Parses an accidental token; any text that is not one of the five
    /// tokens is an invalid accidental.
    pub fn from_str(s: &str) -> (r: Result<Self, NoteParseError>)
        ensures
            acc_of_token(s@) matches Some(a) ==> r == Ok::<Self, NoteParseError>(a),
            acc_of_token(s@) is None ==> r == Err::<Self, NoteParseError>(
                NoteParseError::InvalidAccidental,
            ),
    {
        let n = s.unicode_len();
        if n == 0 {
            Ok(Accidental::Natural)
        } else if n == 1 {
            let c = s.get_char(0);
            if c == 'b' {
                Ok(Accidental::Flat)
            } else if c == '#' {
                Ok(Accidental::Sharp)
            } else {
                Err(NoteParseError::InvalidAccidental)
            }
        } else if n == 2 {
            let c0 = s.get_char(0);
            let c1 = s.get_char(1);
            if c0 == 'b' && c1 == 'b' {
                Ok(Accidental::Doubleflat)
            } else if c0 == '#' && c1 == '#' {
                Ok(Accidental::Doublesharp)
            } else {
                Err(NoteParseError::InvalidAccidental)
            }
        } else {
            Err(NoteParseError::InvalidAccidental)
        }
    }

    /// The token of this accidental.
    pub fn to_str(&self) -> (r: &'static str)
        ensures
            r@ == acc_token(*self),
    {
        proof {
            reveal_strlit("bb");
            reveal_strlit("b");
            reveal_strlit("");
            reveal_strlit("#");
            reveal_strlit("##");
        }
        let r = match self {
            Accidental::Doubleflat => "bb",
            Accidental::Flat => "b",
            Accidental::Natural => "",
            Accidental::Sharp => "#",
            Accidental::Doublesharp => "##",
        };
        proof {
            assert(r@ =~= acc_token(*self));
        }
        r
    }

    /// Semitone offset of this accidental.
    pub fn offset(&self) -> (r: i32)
        ensures
            r as int == acc_offset(*self),
    {
        match self {
            Accidental::Doubleflat => -2,
            Accidental::Flat => -1,
            Accidental::Natural => 0,
            Accidental::Sharp => 1,
            Accidental::Doublesharp => 2,
        }
    }
}

} // verus!
