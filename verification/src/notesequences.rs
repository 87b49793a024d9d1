use vstd::prelude::*;
use crate::errors::NoteParseError;
use crate::notes::{Note, parse_note};

verus! {

/// An ordered sequence of notes.
#[derive(Debug, Clone)]
pub struct NoteSequence {
    pub notes: Vec<Note>,
}

/// What a list of note texts parses to: the notes in order when every text
/// parses, otherwise the error of the leftmost text that fails.
pub open spec fn parse_notes(ss: Seq<Seq<char>>) -> Result<Seq<Note>, NoteParseError>
    decreases ss.len(),
{
    if ss.len() == 0 {
        Ok(Seq::empty())
    } else {
        match parse_note(ss[0]) {
            Result::Err(e) => Err(e),
            Result::Ok(n) => match parse_notes(ss.drop_first()) {
                Result::Err(e) => Err(e),
                Result::Ok(rest) => Ok(seq![n] + rest),
            },
        }
    }
}

/// When every text of a list parses, the list parses to exactly those
/// notes, in order.
proof fn lemma_parse_notes_ok(ss: Seq<Seq<char>>, ns: Seq<Note>)
    requires
        ns.len() == ss.len(),
        forall|k: int| 0 <= k < ss.len() ==> parse_note(ss[k]) == Ok::<Note, NoteParseError>(ns[k]),
    ensures
        parse_notes(ss) == Ok::<Seq<Note>, NoteParseError>(ns),
    decreases ss.len(),
{
    if ss.len() == 0 {
        assert(ns =~= Seq::<Note>::empty());
    } else {
        lemma_parse_notes_ok(ss.drop_first(), ns.drop_first());
        assert(ns =~= seq![ns[0]] + ns.drop_first());
    }
}

/// When a text of a list fails to parse and every text before it parses,
/// the list parses to that text's error.
proof fn lemma_parse_notes_err(ss: Seq<Seq<char>>, i: int, e: NoteParseError)
    requires
        0 <= i < ss.len(),
        forall|k: int| 0 <= k < i ==> parse_note(ss[k]) is Ok,
        parse_note(ss[i]) == Err::<Note, NoteParseError>(e),
    ensures
        parse_notes(ss) == Err::<Seq<Note>, NoteParseError>(e),
    decreases ss.len(),
{
    if i > 0 {
        lemma_parse_notes_err(ss.drop_first(), i - 1, e);
    }
}

impl PartialEq for NoteSequence {
    /// Two sequences are equal when they hold the same notes in the same
    /// order.
    fn eq(&self, other: &Self) -> (r: bool)
        ensures
            r == (self.notes@ == other.notes@),
    {
        if self.notes.len() != other.notes.len() {
            proof {
                assert(self.notes@.len() != other.notes@.len());
            }
            return false;
        }
        let mut i: usize = 0;
        while i < self.notes.len()
            invariant
                i <= self.notes@.len(),
                self.notes@.len() == other.notes@.len(),
                forall|k: int| 0 <= k < i ==> self.notes@[k] == other.notes@[k],
            decreases self.notes@.len() - i,
        {
            if self.notes[i] != other.notes[i] {
                return false;
            }
            i = i + 1;
        }
        proof {
            assert(self.notes@ =~= other.notes@);
        }
        true
    }
}

impl vstd::std_specs::cmp::PartialEqSpecImpl for NoteSequence {
    open spec fn obeys_eq_spec() -> bool {
        true
    }

    open spec fn eq_spec(&self, other: &Self) -> bool {
        self.notes@ == other.notes@
    }
}

impl NoteSequence {
    /// A sequence with no notes.
    pub fn empty() -> (r: Self)
        ensures
            r.notes@ == Seq::<Note>::empty(),
    {
        Self { notes: Vec::<Note>::new() }
    }

    /// Parses each text of a list in order; the first text that fails
    /// decides the error.
    pub fn from_strs(svec: Vec<&str>) -> (r: Result<Self, NoteParseError>)
        ensures
            r matches Ok(ns) ==> parse_notes(svec.deep_view()) == Ok::<Seq<Note>, NoteParseError>(
                ns.notes@,
            ),
            r matches Err(e) ==> parse_notes(svec.deep_view()) == Err::<Seq<Note>, NoteParseError>(
                e,
            ),
    {
        let ghost views = svec.deep_view();
        let mut sequence: Self = NoteSequence::empty();
        let mut i: usize = 0;
        while i < svec.len()
            invariant
                i <= svec@.len(),
                views == svec.deep_view(),
                views.len() == svec@.len(),
                sequence.notes@.len() == i,
                forall|k: int| 0 <= k < i ==> parse_note(views[k]) == Ok::<Note, NoteParseError>(
                    sequence.notes@[k],
                ),
            decreases svec@.len() - i,
        {
            proof {
                assert(views[i as int] == svec@[i as int]@);
            }
            match Note::from_str(svec[i]) {
                Ok(note) => sequence.notes.push(note),
                Err(err) => {
                    proof {
                        lemma_parse_notes_err(views, i as int, err);
                    }
                    return Err(err);
                },
            }
            i = i + 1;
        }
        proof {
            lemma_parse_notes_ok(views, sequence.notes@);
        }
        Ok(sequence)
    }
}

} // verus!
