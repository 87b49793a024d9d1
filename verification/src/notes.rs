use vstd::prelude::*;
use vstd::string::StrSliceExecFns;
use crate::accidentals::{Accidental, acc_offset, acc_of_token, acc_token};
use crate::errors::NoteParseError;
use crate::notenames::{
    NoteName, is_letter_char, letter_char, letter_semitones, name_letter_of_char, shift_name,
};

verus! {

/// Whether a character is a decimal digit.
pub open spec fn is_digit_char(c: char) -> bool {
    48 <= c as int && c as int <= 57
}

/// Numeric value of a decimal digit character.
pub open spec fn digit_of_char(c: char) -> int {
    c as int - 48
}

/// Whether a character can open the octave part of a note: a digit or a
/// minus sign. The accidental scan stops at the first such character.
pub open spec fn is_octave_start(c: char) -> bool {
    is_digit_char(c) || c == '-'
}

/// First position at or after `i` where the octave part can start; the
/// length of `s` when no such position exists.
pub open spec fn accidental_end(s: Seq<char>, i: int) -> int
    decreases s.len() - i,
{
    if i < 0 || i >= s.len() {
        s.len() as int
    } else if is_octave_start(s[i]) {
        i
    } else {
        accidental_end(s, i + 1)
    }
}

/// Whether every character of `s` is a decimal digit.
pub open spec fn all_digits(s: Seq<char>) -> bool {
    forall|k: int| 0 <= k < s.len() ==> is_digit_char(s[k])
}

/// Value of a digit string read as a decimal numeral.
pub open spec fn digits_val(s: Seq<char>) -> int
    decreases s.len(),
{
    if s.len() == 0 {
        0
    } else {
        10 * digits_val(s.drop_last()) + digit_of_char(s.last())
    }
}

/// The octave number a text denotes, if any: an optional minus sign, then
/// at least one digit, with the value within the octave range -128..=127.
pub open spec fn parse_octave(s: Seq<char>) -> Option<int> {
    if s.len() >= 1 && s[0] == '-' {
        let d = s.subrange(1, s.len() as int);
        if d.len() >= 1 && all_digits(d) && digits_val(d) <= 128 {
            Some(-digits_val(d))
        } else {
            None
        }
    } else if s.len() >= 1 && all_digits(s) && digits_val(s) <= 127 {
        Some(digits_val(s))
    } else {
        None
    }
}

/// What a note text parses to. The first character must name a letter; the
/// run up to the first digit or minus sign must be an accidental token; the
/// remainder must be an octave number. The checks run left to right and the
/// first failure decides the error.
pub open spec fn parse_note(s: Seq<char>) -> Result<Note, NoteParseError> {
    if s.len() == 0 || !is_letter_char(s[0]) {
        Err(NoteParseError::InvalidNoteName)
    } else {
        let j = accidental_end(s, 1);
        match acc_of_token(s.subrange(1, j)) {
            Option::None => Err(NoteParseError::InvalidAccidental),
            Option::Some(acc) => match parse_octave(s.subrange(j, s.len() as int)) {
                Option::None => Err(NoteParseError::InvalidOctave),
                Option::Some(o) => Ok(
                    Note {
                        name: name_letter_of_char(s[0])->Some_0,
                        accidental: acc,
                        octave: o as i8,
                    },
                ),
            },
        }
    }
}

/// A pitch: a letter name, an alteration, and a signed octave number.
#[derive(Debug, PartialEq, Eq, Structural, Copy, Clone)]
pub struct Note {
    pub name: NoteName,
    pub accidental: Accidental,
    pub octave: i8,
}

/// Absolute chromatic position of a note, in semitones: twelve per octave,
/// plus the letter's anchor, plus the accidental's offset.
pub open spec fn note_pitch(n: Note) -> int {
    12 * n.octave + letter_semitones(n.name) + acc_offset(n.accidental)
}

/// Signed chromatic half-step distance from `a` to `b`: the single
/// authoritative pitch metric of the library.
pub open spec fn note_dist(a: Note, b: Note) -> int {
    note_pitch(b) - note_pitch(a)
}

/// The natural note one letter above `n`: accidental reset, octave raised
/// exactly on the B-to-C crossing.
pub open spec fn next_natural_spec(n: Note) -> Note {
    Note {
        name: shift_name(n.name, 1),
        accidental: Accidental::Natural,
        octave: if n.name == NoteName::B {
            (n.octave + 1) as i8
        } else {
            n.octave
        },
    }
}

/// The natural note one letter below `n`: accidental reset, octave lowered
/// exactly on the C-to-B crossing.
pub open spec fn prev_natural_spec(n: Note) -> Note {
    Note {
        name: shift_name(n.name, -1),
        accidental: Accidental::Natural,
        octave: if n.name == NoteName::C {
            (n.octave - 1) as i8
        } else {
            n.octave
        },
    }
}

/// A decimal numeral is never empty, holds digits only, and reads back to
/// the value it was written from.
pub proof fn lemma_dec_digits_props(v: int)
    requires
        v >= 0,
    ensures
        dec_digits(v).len() >= 1,
        all_digits(dec_digits(v)),
        digits_val(dec_digits(v)) == v,
    decreases v,
{
    if v <= 9 {
        assert(digits_val(seq![char_of_digit(v)].drop_last()) == 0);
    } else {
        lemma_dec_digits_props(v / 10);
        let w = dec_digits(v / 10).push(char_of_digit(v % 10));
        assert(w.drop_last() =~= dec_digits(v / 10));
        assert(w.last() == char_of_digit(v % 10));
        assert(forall|k: int| 0 <= k < w.len() - 1 ==> w[k] == dec_digits(v / 10)[k]);
        vstd::arithmetic::div_mod::lemma_fundamental_div_mod(v, 10);
    }
}

/// The octave part written for any octave in range reads back to exactly
/// that octave.
pub proof fn lemma_octave_chars_roundtrip(o: int)
    requires
        -128 <= o <= 127,
    ensures
        parse_octave(octave_chars(o)) == Some(o),
{
    if o < 0 {
        lemma_dec_digits_props(-o);
        let s = seq!['-'] + dec_digits(-o);
        assert(s[0] == '-');
        assert(s.subrange(1, s.len() as int) =~= dec_digits(-o));
    } else {
        lemma_dec_digits_props(o);
        let s = dec_digits(o);
        assert(is_digit_char(s[0]));
        assert(s[0] != '-');
    }
}

/// Writing a note as text and parsing the text gives the note back: the
/// round-trip law of the note grammar.
pub proof fn lemma_format_parse_roundtrip(n: Note)
    ensures
        parse_note(format_note(n)) == Ok::<Note, NoteParseError>(n),
{
    let s = format_note(n);
    let a = acc_token(n.accidental);
    let oc = octave_chars(n.octave as int);
    let k = a.len() as int;
    let mag: int = if n.octave < 0 {
        -(n.octave as int)
    } else {
        n.octave as int
    };
    lemma_dec_digits_props(mag);
    assert(oc.len() >= 1);
    assert(is_octave_start(oc[0])) by {
        if n.octave < 0 {
            assert(oc[0] == '-');
        } else {
            assert(oc[0] == dec_digits(mag)[0]);
            assert(is_digit_char(oc[0]));
        }
    }
    assert(s.len() == 1 + k + oc.len());
    assert(s[0] == letter_char(n.name));
    assert(name_letter_of_char(letter_char(n.name)) == Some(n.name));
    assert(forall|i: int| 0 <= i < k ==> s[1 + i] == a[i]);
    assert(s[1 + k] == oc[0]);
    assert(!is_octave_start('b') && !is_octave_start('#'));
    assert(accidental_end(s, 1) == 1 + k) by {
        match n.accidental {
            Accidental::Natural => {
                assert(accidental_end(s, 1) == 1);
            },
            Accidental::Flat | Accidental::Sharp => {
                assert(accidental_end(s, 1) == accidental_end(s, 2));
                assert(accidental_end(s, 2) == 2);
            },
            Accidental::Doubleflat | Accidental::Doublesharp => {
                assert(accidental_end(s, 1) == accidental_end(s, 2));
                assert(accidental_end(s, 2) == accidental_end(s, 3));
                assert(accidental_end(s, 3) == 3);
            },
        }
    }
    assert(s.subrange(1, 1 + k) =~= a);
    crate::accidentals::lemma_acc_token_roundtrip(n.accidental);
    assert(s.subrange(1 + k, s.len() as int) =~= oc);
    lemma_octave_chars_roundtrip(n.octave as int);
}

/// Half-step distance flips its sign when its endpoints swap.
pub proof fn lemma_dist_hsteps_antisymmetric(a: Note, b: Note)
    ensures
        note_dist(a, b) == -note_dist(b, a),
{
}

/// Raising only the octave by one raises the pitch by exactly twelve
/// half-steps.
pub proof fn lemma_dist_hsteps_octave(n: Note)
    requires
        n.octave < 127,
    ensures
        note_dist(n, Note { octave: (n.octave + 1) as i8, ..n }) == 12,
{
}

/// Decimal digit character of a value from 0 to 9; other values give '9'.
pub open spec fn char_of_digit(d: int) -> char {
    if d == 0 {
        '0'
    } else if d == 1 {
        '1'
    } else if d == 2 {
        '2'
    } else if d == 3 {
        '3'
    } else if d == 4 {
        '4'
    } else if d == 5 {
        '5'
    } else if d == 6 {
        '6'
    } else if d == 7 {
        '7'
    } else if d == 8 {
        '8'
    } else {
        '9'
    }
}

/// Decimal numeral of a non-negative value, most significant digit first,
/// with no leading zeros except for the value zero itself.
pub open spec fn dec_digits(v: int) -> Seq<char>
    decreases v,
{
    if v <= 9 {
        seq![char_of_digit(v)]
    } else {
        dec_digits(v / 10).push(char_of_digit(v % 10))
    }
}

/// The octave part of a note text: a minus sign before the numeral of the
/// magnitude for negative octaves, the bare numeral otherwise.
pub open spec fn octave_chars(o: int) -> Seq<char> {
    if o < 0 {
        seq!['-'] + dec_digits(-o)
    } else {
        dec_digits(o)
    }
}

/// The text of a note: letter, accidental token, octave number.
pub open spec fn format_note(n: Note) -> Seq<char> {
    seq![letter_char(n.name)] + acc_token(n.accidental) + octave_chars(n.octave as int)
}

/// Parses the octave part of a note text: an optional minus sign, then
/// digits. Returns the octave exactly when the whole text is such a
/// numeral and its value fits the octave range.
fn parse_octave_str(t: &str) -> (r: Option<i8>)
    ensures
        r is None <==> parse_octave(t@) is None,
        r matches Some(v) ==> parse_octave(t@) == Some(v as int),
{
    let m = t.unicode_len();
    if m == 0 {
        return None;
    }
    let neg = t.get_char(0) == '-';
    let start: usize = if neg {
        1
    } else {
        0
    };
    if start == m {
        // a bare minus sign has no digits to read
        return None;
    }
    let ghost digits = t@.subrange(start as int, m as int);
    let mut i: usize = start;
    let mut val: u32 = 0;
    let mut big = false;
    while i < m
        invariant
            start <= i <= m,
            m == t@.len(),
            start as int == (if neg { 1int } else { 0int }),
            neg ==> t@[0] == '-',
            !neg ==> t@[0] != '-',
            digits == t@.subrange(start as int, m as int),
            all_digits(t@.subrange(start as int, i as int)),
            !big ==> val == digits_val(t@.subrange(start as int, i as int)) && val <= 128,
            big ==> digits_val(t@.subrange(start as int, i as int)) > 128,
        decreases m - i,
    {
        let c = t.get_char(i);
        let cu = c as u32;
        if !(48 <= cu && cu <= 57) {
            proof {
                assert(digits[i - start] == t@[i as int]);
                assert(!all_digits(digits));
                if neg {
                    assert(t@.subrange(1, t@.len() as int) =~= digits);
                } else {
                    assert(t@ =~= t@.subrange(0, t@.len() as int));
                    assert(t@ =~= digits);
                }
            }
            return None;
        }
        let d: u32 = cu - 48;
        if !big {
            let cand = val * 10 + d;
            if cand > 128 {
                big = true;
            } else {
                val = cand;
            }
        }
        proof {
            let pre = t@.subrange(start as int, i as int);
            let post = t@.subrange(start as int, i + 1);
            assert(post =~= pre.push(t@[i as int]));
            assert(post.drop_last() =~= pre);
            assert(digits_val(post) == 10 * digits_val(pre) + digit_of_char(t@[i as int]));
        }
        i = i + 1;
    }
    proof {
        assert(digits =~= t@.subrange(start as int, i as int));
        if neg {
            assert(t@.subrange(1, t@.len() as int) =~= digits);
        } else {
            assert(t@ =~= t@.subrange(0, t@.len() as int));
            assert(t@ =~= digits);
        }
    }
    if neg {
        if big {
            None
        } else {
            Some((-(val as i32)) as i8)
        }
    } else {
        if big || val > 127 {
            None
        } else {
            Some(val as i8)
        }
    }
}

/// The one-character token of a decimal digit.
fn digit_str(d: u32) -> (r: &'static str)
    requires
        d <= 9,
    ensures
        r@ =~= seq![char_of_digit(d as int)],
{
    proof {
        reveal_strlit("0");
        reveal_strlit("1");
        reveal_strlit("2");
        reveal_strlit("3");
        reveal_strlit("4");
        reveal_strlit("5");
        reveal_strlit("6");
        reveal_strlit("7");
        reveal_strlit("8");
        reveal_strlit("9");
    }
    if d == 0 {
        "0"
    } else if d == 1 {
        "1"
    } else if d == 2 {
        "2"
    } else if d == 3 {
        "3"
    } else if d == 4 {
        "4"
    } else if d == 5 {
        "5"
    } else if d == 6 {
        "6"
    } else if d == 7 {
        "7"
    } else if d == 8 {
        "8"
    } else {
        "9"
    }
}

impl Note {
    /// The reference note: C natural in octave 3.
    pub fn default() -> (r: Self)
        ensures
            r == (Note { name: NoteName::C, accidental: Accidental::Natural, octave: 3 }),
    {
        Self { name: NoteName::C, accidental: Accidental::Natural, octave: 3 }
    }

    /// Parses a note text: a letter, an accidental token, then a signed
    /// octave number, with nothing around them. The scan of the accidental
    /// run stops at the first digit or minus sign, and the first failing
    /// part decides the error.
    pub fn from_str(s: &str) -> (r: Result<Self, NoteParseError>)
        ensures
            r == parse_note(s@),
    {
        let n = s.unicode_len();
        if n == 0 {
            return Err(NoteParseError::InvalidNoteName);
        }
        let name_str = s.substring_char(0, 1);
        proof {
            assert(name_str@[0] == s@[0]);
        }
        let name = match NoteName::from_str(name_str) {
            Ok(nm) => nm,
            Err(e) => {
                return Err(e);
            },
        };
        let mut j: usize = 1;
        loop
            invariant
                1 <= j <= n,
                n == s@.len(),
                accidental_end(s@, 1) == accidental_end(s@, j as int),
            ensures
                1 <= j <= n,
                n == s@.len(),
                accidental_end(s@, 1) == j as int,
            decreases n - j,
        {
            if j >= n {
                break;
            }
            let c = s.get_char(j);
            let cu = c as u32;
            if c == '-' || (48 <= cu && cu <= 57) {
                break;
            }
            j = j + 1;
        }
        let acc_str = s.substring_char(1, j);
        let accidental = match Accidental::from_str(acc_str) {
            Ok(a) => a,
            Err(e) => {
                return Err(e);
            },
        };
        let oct_str = s.substring_char(j, n);
        match parse_octave_str(oct_str) {
            Some(o) => Ok(Note { name, accidental, octave: o }),
            None => Err(NoteParseError::InvalidOctave),
        }
    }

    /// Signed chromatic half-step distance from this note to `other`.
    pub fn dist_hsteps(&self, other: &Note) -> (r: i32)
        ensures
            r as int == note_dist(*self, *other),
    {
        12 * (other.octave as i32 - self.octave as i32) + self.name.dist_hsteps(&other.name)
            + other.accidental.offset() - self.accidental.offset()
    }

    /// The text of this note: letter, accidental token, octave number.
    pub fn to_str(&self) -> (r: String)
        ensures
            r@ == format_note(*self),
    {
        let mut note_str = String::new();
        note_str.append(self.name.to_str());
        note_str.append(self.accidental.to_str());
        let o: i32 = self.octave as i32;
        let mag: u32;
        if o < 0 {
            proof {
                reveal_strlit("-");
            }
            note_str.append("-");
            mag = (0 - o) as u32;
        } else {
            mag = o as u32;
        }
        if mag >= 100 {
            note_str.append(digit_str(mag / 100));
        }
        if mag >= 10 {
            note_str.append(digit_str((mag / 10) % 10));
        }
        note_str.append(digit_str(mag % 10));
        proof {
            if mag <= 9 {
                assert(dec_digits(mag as int) =~= seq![char_of_digit(mag as int)]);
            } else if mag <= 99 {
                assert(dec_digits(mag as int / 10) =~= seq![char_of_digit(mag as int / 10)]);
                assert(mag as int / 10 == (mag as int / 10) % 10);
                assert(dec_digits(mag as int) =~= seq![
                    char_of_digit((mag as int / 10) % 10),
                    char_of_digit(mag as int % 10),
                ]);
            } else {
                assert(mag <= 128);
                assert(mag as int / 100 == 1);
                assert(mag as int / 10 / 10 == mag as int / 100);
                assert(dec_digits(mag as int / 100) =~= seq![char_of_digit(mag as int / 100)]);
                assert(dec_digits(mag as int / 10) =~= seq![
                    char_of_digit(mag as int / 100),
                    char_of_digit((mag as int / 10) % 10),
                ]);
                assert(dec_digits(mag as int) =~= seq![
                    char_of_digit(mag as int / 100),
                    char_of_digit((mag as int / 10) % 10),
                    char_of_digit(mag as int % 10),
                ]);
            }
            assert(note_str@ =~= format_note(*self));
        }
        note_str
    }

    /// A copy of this note with the accidental reset to natural.
    pub fn rm_accidental(&self) -> (r: Self)
        ensures
            r == (Note { accidental: Accidental::Natural, ..*self }),
    {
        self.set_accidental(Accidental::Natural)
    }

    /// A copy of this note with the accidental replaced; name and octave are
    /// untouched.
    pub fn set_accidental(&self, accidental: Accidental) -> (r: Self)
        ensures
            r == (Note { accidental, ..*self }),
    {
        let mut accidented_note = *self;
        accidented_note.accidental = accidental;
        accidented_note
    }

    /// The adjacent natural note above, crossing into the next octave at B.
    pub fn next_natural(&self) -> (r: Self)
        requires
            self.name == NoteName::B ==> self.octave < 127,
        ensures
            r == next_natural_spec(*self),
    {
        let mut next_note = *self;
        match next_note.name {
            NoteName::B => next_note.octave = next_note.octave + 1,
            _ => (),
        }
        next_note.name = next_note.name.next();
        next_note = next_note.rm_accidental();
        next_note
    }

    /// The adjacent natural note below, crossing into the previous octave
    /// at C.
    pub fn prev_natural(&self) -> (r: Self)
        requires
            self.name == NoteName::C ==> self.octave > -128,
        ensures
            r == prev_natural_spec(*self),
    {
        let mut prev_note = *self;
        match prev_note.name {
            NoteName::C => prev_note.octave = prev_note.octave - 1,
            _ => (),
        }
        prev_note.name = prev_note.name.prev();
        prev_note = prev_note.rm_accidental();
        prev_note
    }
}

} // verus!
