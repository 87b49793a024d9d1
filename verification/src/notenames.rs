use vstd::prelude::*;
use vstd::arithmetic::div_mod::lemma_add_mod_noop;
use crate::errors::NoteParseError;

verus! {

/// The seven letter names of Western notation, cyclically ordered C..B.
#[derive(Debug, PartialEq, Eq, Structural, Copy, Clone)]
pub enum NoteName {
    C,
    D,
    E,
    F,
    G,
    A,
    B,
}

/// Position of a letter in the cycle C..B, from 0 to 6.
pub open spec fn letter_index(n: NoteName) -> int {
    match n {
        NoteName::C => 0,
        NoteName::D => 1,
        NoteName::E => 2,
        NoteName::F => 3,
        NoteName::G => 4,
        NoteName::A => 5,
        NoteName::B => 6,
    }
}

/// Letter at a position in the cycle; positions outside 0..6 give C.
pub open spec fn name_of_index(i: int) -> NoteName {
    if i == 1 {
        NoteName::D
    } else if i == 2 {
        NoteName::E
    } else if i == 3 {
        NoteName::F
    } else if i == 4 {
        NoteName::G
    } else if i == 5 {
        NoteName::A
    } else if i == 6 {
        NoteName::B
    } else {
        NoteName::C
    }
}

/// Fixed semitone anchor of a letter within one octave:
/// C 0, D 2, E 4, F 5, G 7, A 9, B 11.
pub open spec fn letter_semitones(n: NoteName) -> int {
    match n {
        NoteName::C => 0,
        NoteName::D => 2,
        NoteName::E => 4,
        NoteName::F => 5,
        NoteName::G => 7,
        NoteName::A => 9,
        NoteName::B => 11,
    }
}

/// The letter reached from `n` by `k` signed cyclic letter steps.
pub open spec fn shift_name(n: NoteName, k: int) -> NoteName {
    name_of_index((letter_index(n) + k) % 7)
}

/// Shifting composes additively: one more step from a shifted letter lands
/// where a single combined shift lands.
pub proof fn lemma_shift_name_add(n: NoteName, k: int, j: int)
    ensures
        shift_name(shift_name(n, k), j) == shift_name(n, k + j),
{
    let i = (letter_index(n) + k) % 7;
    assert(letter_index(name_of_index(i)) == i);
    assert((i + j % 7) % 7 == (letter_index(n) + k + j) % 7) by {
        lemma_add_mod_noop(letter_index(n) + k, j, 7);
        assert((letter_index(n) + k) % 7 % 7 == (letter_index(n) + k) % 7);
    }
    assert((i + j) % 7 == (i + j % 7) % 7) by {
        lemma_add_mod_noop(i, j, 7);
        assert(i % 7 == i);
        lemma_add_mod_noop(i, j % 7, 7);
        assert(j % 7 % 7 == j % 7);
    }
}

/// One cyclic step up and one step down are mutual inverses.
pub proof fn lemma_next_prev_inverse(n: NoteName)
    ensures
        shift_name(shift_name(n, 1), -1) == n,
        shift_name(shift_name(n, -1), 1) == n,
{
    lemma_shift_name_add(n, 1, -1);
    lemma_shift_name_add(n, -1, 1);
}

/// Whether a character names a letter, in either case.
pub open spec fn is_letter_char(c: char) -> bool {
    name_letter_of_char(c) is Some
}

/// The letter a single character denotes, accepting both cases.
pub open spec fn name_letter_of_char(c: char) -> Option<NoteName> {
    if c == 'C' || c == 'c' {
        Some(NoteName::C)
    } else if c == 'D' || c == 'd' {
        Some(NoteName::D)
    } else if c == 'E' || c == 'e' {
        Some(NoteName::E)
    } else if c == 'F' || c == 'f' {
        Some(NoteName::F)
    } else if c == 'G' || c == 'g' {
        Some(NoteName::G)
    } else if c == 'A' || c == 'a' {
        Some(NoteName::A)
    } else if c == 'B' || c == 'b' {
        Some(NoteName::B)
    } else {
        None
    }
}

/// Upper-case character of a letter name.
pub open spec fn letter_char(n: NoteName) -> char {
    match n {
        NoteName::C => 'C',
        NoteName::D => 'D',
        NoteName::E => 'E',
        NoteName::F => 'F',
        NoteName::G => 'G',
        NoteName::A => 'A',
        NoteName::B => 'B',
    }
}

/// What a one-character letter token parses to: the letter it denotes where
/// there is one, an invalid-note-name error for any other text.
pub open spec fn parse_letter(s: Seq<char>) -> Result<NoteName, NoteParseError> {
    if s.len() == 1 && is_letter_char(s[0]) {
        Ok(name_letter_of_char(s[0])->Some_0)
    } else {
        Err(NoteParseError::InvalidNoteName)
    }
}

impl NoteName {
    /// Parses a one-character letter token, case-insensitively; anything
    /// else is an invalid note name.
    pub fn from_str(s: &str) -> (r: Result<Self, NoteParseError>)
        ensures
            r == parse_letter(s@),
    {
        if s.unicode_len() != 1 {
            return Err(NoteParseError::InvalidNoteName);
        }
        match s.get_char(0) {
            'C' | 'c' => Ok(NoteName::C),
            'D' | 'd' => Ok(NoteName::D),
            'E' | 'e' => Ok(NoteName::E),
            'F' | 'f' => Ok(NoteName::F),
            'G' | 'g' => Ok(NoteName::G),
            'A' | 'a' => Ok(NoteName::A),
            'B' | 'b' => Ok(NoteName::B),
            _ => Err(NoteParseError::InvalidNoteName),
        }
    }

    /// The one-character upper-case token of this letter.
    pub fn to_str(self) -> (r: &'static str)
        ensures
            r@ =~= seq![letter_char(self)],
    {
        proof {
            reveal_strlit("C");
            reveal_strlit("D");
            reveal_strlit("E");
            reveal_strlit("F");
            reveal_strlit("G");
            reveal_strlit("A");
            reveal_strlit("B");
        }
        match self {
            NoteName::C => "C",
            NoteName::D => "D",
            NoteName::E => "E",
            NoteName::F => "F",
            NoteName::G => "G",
            NoteName::A => "A",
            NoteName::B => "B",
        }
    }

    /// The cyclic successor: C, D, E, F, G, A, B and back to C.
    pub fn next(self) -> (r: Self)
        ensures
            r == shift_name(self, 1),
    {
        match self {
            NoteName::C => NoteName::D,
            NoteName::D => NoteName::E,
            NoteName::E => NoteName::F,
            NoteName::F => NoteName::G,
            NoteName::G => NoteName::A,
            NoteName::A => NoteName::B,
            NoteName::B => NoteName::C,
        }
    }

    /// The cyclic predecessor; the inverse of `next`.
    pub fn prev(self) -> (r: Self)
        ensures
            r == shift_name(self, -1),
    {
        match self {
            NoteName::C => NoteName::B,
            NoteName::D => NoteName::C,
            NoteName::E => NoteName::D,
            NoteName::F => NoteName::E,
            NoteName::G => NoteName::F,
            NoteName::A => NoteName::G,
            NoteName::B => NoteName::A,
        }
    }

    /// `steps` applications of `next`.
    pub fn up(self, steps: u32) -> (r: Self)
        ensures
            r == shift_name(self, steps as int),
    {
        let mut up_note = self;
        let mut i: u32 = 0;
        while i < steps
            invariant
                i <= steps,
                up_note == shift_name(self, i as int),
            decreases steps - i,
        {
            up_note = up_note.next();
            proof {
                lemma_shift_name_add(self, i as int, 1);
            }
            i = i + 1;
        }
        proof {
            assert(shift_name(self, 0) == self);
        }
        up_note
    }

    /// `steps` applications of `prev`.
    pub fn down(self, steps: u32) -> (r: Self)
        ensures
            r == shift_name(self, -(steps as int)),
    {
        let mut down_note = self;
        let mut i: u32 = 0;
        while i < steps
            invariant
                i <= steps,
                down_note == shift_name(self, -(i as int)),
            decreases steps - i,
        {
            down_note = down_note.prev();
            proof {
                lemma_shift_name_add(self, -(i as int), -1);
            }
            i = i + 1;
        }
        down_note
    }

    /// Signed cyclic shift: negative steps go down, positive steps go up.
    pub fn shift(self, steps: i32) -> (r: Self)
        ensures
            r == shift_name(self, steps as int),
    {
        if steps < 0 {
            let mag: u32 = (-(steps as i64)) as u32;
            self.down(mag)
        } else if steps == 0 {
            self
        } else {
            self.up(steps as u32)
        }
    }

    /// Position of this letter in the cycle, from 0 (C) to 6 (B).
    fn to_idx(self) -> (r: i32)
        ensures
            r as int == letter_index(self),
    {
        match self {
            NoteName::C => 0,
            NoteName::D => 1,
            NoteName::E => 2,
            NoteName::F => 3,
            NoteName::G => 4,
            NoteName::A => 5,
            NoteName::B => 6,
        }
    }

    /// Signed letter-step distance from this letter to `other`: plain index
    /// subtraction, not reduced modulo the cycle.
    pub fn dist(self, other: &NoteName) -> (r: i32)
        ensures
            r as int == letter_index(*other) - letter_index(self),
    {
        let selfidx = self.to_idx();
        let otheridx = other.to_idx();
        otheridx - selfidx
    }

    /// Fixed semitone anchor of this letter within one octave.
    fn to_hsteps_idx(self) -> (r: i32)
        ensures
            r as int == letter_semitones(self),
    {
        match self {
            NoteName::C => 0,
            NoteName::D => 2,
            NoteName::E => 4,
            NoteName::F => 5,
            NoteName::G => 7,
            NoteName::A => 9,
            NoteName::B => 11,
        }
    }

    /// Signed chromatic half-step distance from this letter to `other`,
    /// as the difference of the two semitone anchors.
    pub fn dist_hsteps(self, other: &NoteName) -> (r: i32)
        ensures
            r as int == letter_semitones(*other) - letter_semitones(self),
    {
        let selfidx = self.to_hsteps_idx();
        let otheridx = other.to_hsteps_idx();
        otheridx - selfidx
    }
}

} // verus!
