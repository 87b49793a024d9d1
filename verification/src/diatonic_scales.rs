use vstd::prelude::*;
use crate::accidentals::{Accidental, acc_offset};
use crate::errors::ModeError;
use crate::notenames::NoteName;
use crate::notes::{Note, next_natural_spec, note_dist, note_pitch};
use crate::notesequences::NoteSequence;

verus! {

/// The seven diatonic modes, each a rotation of the same step pattern.
#[derive(Debug, PartialEq, Eq, Structural, Copy, Clone)]
pub enum Mode {
    Ionian,
    Dorian,
    Phrygian,
    Lydian,
    Mixolydian,
    Aeolian,
    Locrian,
}

/// Left-rotation offset of a mode within the canonical step pattern.
pub open spec fn mode_offset(m: Mode) -> int {
    match m {
        Mode::Ionian => 0,
        Mode::Dorian => 1,
        Mode::Phrygian => 2,
        Mode::Lydian => 3,
        Mode::Mixolydian => 4,
        Mode::Aeolian => 5,
        Mode::Locrian => 6,
    }
}

/// The canonical whole/half step pattern of the major scale family.
pub open spec fn base_pattern() -> Seq<int> {
    seq![2, 2, 1, 2, 2, 2, 1]
}

/// The six inter-note gaps of a mode: the canonical pattern rotated left by
/// the mode's offset, truncated to the six gaps of a seven-note scale.
pub open spec fn mode_dists(m: Mode) -> Seq<int> {
    Seq::new(6, |i: int| base_pattern()[(mode_offset(m) + i) % 7])
}

/// The gaps between consecutive notes of a sequence.
pub open spec fn note_gaps(ns: Seq<Note>) -> Seq<int> {
    Seq::new(if ns.len() == 0 {
        0
    } else {
        (ns.len() - 1) as nat
    }, |i: int| note_dist(ns[i], ns[i + 1]))
}

/// Which mode a note sequence realizes: exactly seven notes whose six gaps
/// match one mode's pattern, tried in the fixed order Ionian..Locrian.
pub open spec fn identify_spec(ns: Seq<Note>) -> Result<Mode, ModeError> {
    if ns.len() != 7 {
        Err(ModeError::WrongLength)
    } else if note_gaps(ns) == mode_dists(Mode::Ionian) {
        Ok(Mode::Ionian)
    } else if note_gaps(ns) == mode_dists(Mode::Dorian) {
        Ok(Mode::Dorian)
    } else if note_gaps(ns) == mode_dists(Mode::Phrygian) {
        Ok(Mode::Phrygian)
    } else if note_gaps(ns) == mode_dists(Mode::Lydian) {
        Ok(Mode::Lydian)
    } else if note_gaps(ns) == mode_dists(Mode::Mixolydian) {
        Ok(Mode::Mixolydian)
    } else if note_gaps(ns) == mode_dists(Mode::Aeolian) {
        Ok(Mode::Aeolian)
    } else if note_gaps(ns) == mode_dists(Mode::Locrian) {
        Ok(Mode::Locrian)
    } else {
        Err(ModeError::UnrecognizedPattern)
    }
}

/// No two distinct modes share the same six gaps.
pub proof fn lemma_mode_dists_injective(m1: Mode, m2: Mode)
    requires
        mode_dists(m1) == mode_dists(m2),
    ensures
        m1 == m2,
{
    assert(mode_dists(Mode::Ionian) =~= seq![2, 2, 1, 2, 2, 2]);
    assert(mode_dists(Mode::Dorian) =~= seq![2, 1, 2, 2, 2, 1]);
    assert(mode_dists(Mode::Phrygian) =~= seq![1, 2, 2, 2, 1, 2]);
    assert(mode_dists(Mode::Lydian) =~= seq![2, 2, 2, 1, 2, 2]);
    assert(mode_dists(Mode::Mixolydian) =~= seq![2, 2, 1, 2, 2, 1]);
    assert(mode_dists(Mode::Aeolian) =~= seq![2, 1, 2, 2, 1, 2]);
    assert(mode_dists(Mode::Locrian) =~= seq![1, 2, 2, 1, 2, 2]);
}

impl Mode {
    /// The six inter-note gaps of this mode.
    pub fn get_dists(self) -> (r: Vec<i32>)
        ensures
            r@.len() == 6,
            forall|i: int| 0 <= i < 6 ==> r@[i] as int == mode_dists(self)[i],
    {
        let base: [i32; 7] = [2, 2, 1, 2, 2, 2, 1];
        let off: usize = match self {
            Mode::Ionian => 0,
            Mode::Dorian => 1,
            Mode::Phrygian => 2,
            Mode::Lydian => 3,
            Mode::Mixolydian => 4,
            Mode::Aeolian => 5,
            Mode::Locrian => 6,
        };
        let mut dists: Vec<i32> = Vec::new();
        let mut i: usize = 0;
        while i < 6
            invariant
                i <= 6,
                off == mode_offset(self),
                base@ =~= base_pattern().map_values(|v: int| v as i32),
                dists@.len() == i,
                forall|k: int| 0 <= k < i ==> dists@[k] as int == mode_dists(self)[k],
            decreases 6 - i,
        {
            dists.push(base[(off + i) % 7]);
            i = i + 1;
        }
        dists
    }

    /// Assigns a mode to a sequence of exactly seven notes whose gaps match
    /// one mode's pattern; reports a wrong length or an unrecognized
    /// pattern otherwise.
    pub fn identify(noteseq: &NoteSequence) -> (r: Result<Self, ModeError>)
        ensures
            r == identify_spec(noteseq.notes@),
    {
        let ghost ns = noteseq.notes@;
        if noteseq.notes.len() != 7 {
            return Err(ModeError::WrongLength);
        }
        let mut steps: Vec<i32> = Vec::new();
        let mut i: usize = 0;
        while i < 6
            invariant
                i <= 6,
                ns == noteseq.notes@,
                ns.len() == 7,
                steps@.len() == i,
                forall|k: int| 0 <= k < i ==> steps@[k] as int == note_gaps(ns)[k],
            decreases 6 - i,
        {
            steps.push(noteseq.notes[i].dist_hsteps(&noteseq.notes[i + 1]));
            i = i + 1;
        }
        proof {
            assert(note_gaps(ns) =~= Seq::new(6, |k: int| steps@[k] as int));
        }
        if gaps_match(&steps, Mode::Ionian) {
            Ok(Mode::Ionian)
        } else if gaps_match(&steps, Mode::Dorian) {
            Ok(Mode::Dorian)
        } else if gaps_match(&steps, Mode::Phrygian) {
            Ok(Mode::Phrygian)
        } else if gaps_match(&steps, Mode::Lydian) {
            Ok(Mode::Lydian)
        } else if gaps_match(&steps, Mode::Mixolydian) {
            Ok(Mode::Mixolydian)
        } else if gaps_match(&steps, Mode::Aeolian) {
            Ok(Mode::Aeolian)
        } else if gaps_match(&steps, Mode::Locrian) {
            Ok(Mode::Locrian)
        } else {
            Err(ModeError::UnrecognizedPattern)
        }
    }
}

/// The accidental with a given semitone offset; offsets outside -2..=2
/// give Doublesharp.
pub open spec fn acc_of_offset(k: int) -> Accidental {
    if k == -2 {
        Accidental::Doubleflat
    } else if k == -1 {
        Accidental::Flat
    } else if k == 0 {
        Accidental::Natural
    } else if k == 1 {
        Accidental::Sharp
    } else {
        Accidental::Doublesharp
    }
}

/// The i-th note of the natural walk that seeds a scale: the tonic itself
/// first, then repeated natural steps upward.
pub open spec fn natural_at(tonic: Note, i: nat) -> Note
    decreases i,
{
    if i == 0 {
        tonic
    } else {
        next_natural_spec(natural_at(tonic, (i - 1) as nat))
    }
}

/// Sum of the first `i` gaps of a mode's pattern.
pub open spec fn presum(m: Mode, i: int) -> int
    decreases i,
{
    if i <= 0 {
        0
    } else {
        presum(m, i - 1) + mode_dists(m)[i - 1]
    }
}

/// Accidental offset that degree `i` of the scale on `tonic` in mode `m`
/// must carry, so that the walked naturals realize the mode's gaps.
pub open spec fn degree_offset(tonic: Note, m: Mode, i: int) -> int {
    note_pitch(tonic) + presum(m, i) - note_pitch(natural_at(tonic, i as nat))
}

/// The note at degree `i` of the scale on `tonic` in mode `m`: the walked
/// natural with its accidental adjusted; degree 0 is the tonic itself,
/// accidental untouched.
pub open spec fn scale_note(tonic: Note, m: Mode, i: int) -> Note {
    if i == 0 {
        tonic
    } else {
        Note { accidental: acc_of_offset(degree_offset(tonic, m, i)), ..natural_at(tonic, i as nat) }
    }
}

/// The seven notes of the scale on `tonic` in mode `m`, in degree order.
pub open spec fn scale_notes(tonic: Note, m: Mode) -> Seq<Note> {
    Seq::new(7, |i: int| scale_note(tonic, m, i))
}

/// Whether the scale on this tonic and mode is representable: every degree
/// needs an accidental within double-flat..double-sharp, and the walk does
/// not leave the octave range.
pub open spec fn scale_fits(tonic: Note, m: Mode) -> bool {
    &&& forall|i: int|
        0 <= i < 6 ==> (#[trigger] natural_at(tonic, i as nat).name == NoteName::B ==> natural_at(
            tonic,
            i as nat,
        ).octave < 127)
    &&& forall|i: int| 1 <= i < 7 ==> -2 <= #[trigger] degree_offset(tonic, m, i) <= 2
}

/// A representable scale degree has exactly the pitch the mode's pattern
/// asks for: the tonic's pitch plus the pattern's prefix sum.
pub proof fn lemma_scale_note_pitch(tonic: Note, m: Mode, i: int)
    requires
        0 <= i < 7,
        i >= 1 ==> -2 <= degree_offset(tonic, m, i) <= 2,
    ensures
        note_pitch(scale_note(tonic, m, i)) == note_pitch(tonic) + presum(m, i),
{
}

/// A scale, held with the tonic and mode it was built from.
#[derive(Debug)]
pub struct DiatonicScale {
    pub tonic: Note,
    pub mode: Mode,
    pub notesequence: NoteSequence,
}

impl PartialEq for DiatonicScale {
    /// Two scales are equal when tonic, mode and notes all agree.
    fn eq(&self, other: &Self) -> (r: bool)
        ensures
            r == (self.tonic == other.tonic && self.mode == other.mode
                && self.notesequence.notes@ == other.notesequence.notes@),
    {
        self.tonic == other.tonic && self.mode == other.mode && self.notesequence.eq(
            &other.notesequence,
        )
    }
}

impl vstd::std_specs::cmp::PartialEqSpecImpl for DiatonicScale {
    open spec fn obeys_eq_spec() -> bool {
        true
    }

    open spec fn eq_spec(&self, other: &Self) -> bool {
        self.tonic == other.tonic && self.mode == other.mode && self.notesequence.notes@
            == other.notesequence.notes@
    }
}

/// Every gap of every mode's pattern is a half or a whole step.
proof fn lemma_mode_dists_bounds(m: Mode)
    ensures
        forall|k: int| 0 <= k < 6 ==> 1 <= #[trigger] mode_dists(m)[k] <= 2,
{
    assert(mode_dists(Mode::Ionian) =~= seq![2, 2, 1, 2, 2, 2]);
    assert(mode_dists(Mode::Dorian) =~= seq![2, 1, 2, 2, 2, 1]);
    assert(mode_dists(Mode::Phrygian) =~= seq![1, 2, 2, 2, 1, 2]);
    assert(mode_dists(Mode::Lydian) =~= seq![2, 2, 2, 1, 2, 2]);
    assert(mode_dists(Mode::Mixolydian) =~= seq![2, 2, 1, 2, 2, 1]);
    assert(mode_dists(Mode::Aeolian) =~= seq![2, 1, 2, 2, 1, 2]);
    assert(mode_dists(Mode::Locrian) =~= seq![1, 2, 2, 1, 2, 2]);
}

impl DiatonicScale {
    /// Decides at run time whether the scale on `tonic` in `mode` is
    /// representable, so that callers outside verified code can test
    /// `from_tonic`'s precondition before calling it.
    pub fn tonic_fits(tonic: Note, mode: Mode) -> (b: bool)
        ensures
            b == scale_fits(tonic, mode),
    {
        let dists = mode.get_dists();
        proof {
            lemma_mode_dists_bounds(mode);
        }
        let mut cur = tonic;
        let mut acc: i32 = 0;
        let mut i: usize = 0;
        while i < 6
            invariant
                i <= 6,
                cur == natural_at(tonic, i as nat),
                acc as int == presum(mode, i as int),
                0 <= acc as int <= 2 * (i as int),
                dists@.len() == 6,
                forall|k: int| 0 <= k < 6 ==> dists@[k] as int == mode_dists(mode)[k],
                forall|k: int| 0 <= k < 6 ==> 1 <= #[trigger] mode_dists(mode)[k] <= 2,
                forall|k: int|
                    0 <= k < i ==> (#[trigger] natural_at(tonic, k as nat).name == NoteName::B
                        ==> natural_at(tonic, k as nat).octave < 127),
                forall|k: int| 1 <= k <= i ==> -2 <= #[trigger] degree_offset(tonic, mode, k) <= 2,
            decreases 6 - i,
        {
            if cur.name == NoteName::B && cur.octave == 127 {
                return false;
            }
            cur = cur.next_natural();
            proof {
                assert(presum(mode, i + 1) == presum(mode, i as int) + mode_dists(mode)[i as int]);
            }
            acc = acc + dists[i];
            i = i + 1;
            let off = acc - tonic.dist_hsteps(&cur);
            proof {
                assert(off as int == degree_offset(tonic, mode, i as int));
            }
            if off < -2 || off > 2 {
                return false;
            }
        }
        true
    }

    /// Builds the scale on `tonic` in `mode`: walks seven naturals up from
    /// the tonic, then adjusts each degree's accidental so the realized
    /// gaps are exactly the mode's pattern. The tonic keeps the accidental
    /// it was supplied with.
    pub fn from_tonic(tonic: Note, mode: Mode) -> (r: DiatonicScale)
        requires
            scale_fits(tonic, mode),
        ensures
            r.tonic == tonic,
            r.mode == mode,
            r.notesequence.notes@ == scale_notes(tonic, mode),
    {
        let mut scale = DiatonicScale { tonic, mode, notesequence: NoteSequence::empty() };
        scale.notesequence.notes.push(tonic);
        let mut cur = tonic;
        let mut inote: usize = 1;
        while inote < 7
            invariant
                1 <= inote <= 7,
                scale.tonic == tonic,
                scale.mode == mode,
                scale_fits(tonic, mode),
                cur == natural_at(tonic, (inote - 1) as nat),
                scale.notesequence.notes@.len() == inote,
                forall|k: int|
                    0 <= k < inote ==> scale.notesequence.notes@[k] == natural_at(tonic, k as nat),
            decreases 7 - inote,
        {
            cur = cur.next_natural();
            scale.notesequence.notes.push(cur);
            inote = inote + 1;
        }
        let dists = mode.get_dists();
        let mut i: usize = 0;
        while i < 6
            invariant
                i <= 6,
                scale.tonic == tonic,
                scale.mode == mode,
                scale_fits(tonic, mode),
                dists@.len() == 6,
                forall|k: int| 0 <= k < 6 ==> dists@[k] as int == mode_dists(mode)[k],
                scale.notesequence.notes@.len() == 7,
                forall|k: int| 0 <= k <= i ==> scale.notesequence.notes@[k] == scale_note(
                    tonic,
                    mode,
                    k,
                ),
                forall|k: int| i < k < 7 ==> scale.notesequence.notes@[k] == natural_at(
                    tonic,
                    k as nat,
                ),
            decreases 6 - i,
        {
            proof {
                lemma_scale_note_pitch(tonic, mode, i as int);
                assert(presum(mode, i + 1) == presum(mode, i as int) + mode_dists(mode)[i as int]);
            }
            let delta = scale.notesequence.notes[i].dist_hsteps(&scale.notesequence.notes[i + 1])
                - dists[i];
            proof {
                assert(delta as int == -degree_offset(tonic, mode, i + 1));
            }
            let accidental = if delta == -2 {
                Accidental::Doublesharp
            } else if delta == -1 {
                Accidental::Sharp
            } else if delta == 0 {
                Accidental::Natural
            } else if delta == 1 {
                Accidental::Flat
            } else {
                proof {
                    assert(delta == 2);
                }
                Accidental::Doubleflat
            };
            let adjusted = scale.notesequence.notes[i + 1].set_accidental(accidental);
            scale.notesequence.notes.set(i + 1, adjusted);
            i = i + 1;
        }
        proof {
            assert(scale.notesequence.notes@ =~= scale_notes(tonic, mode));
        }
        scale
    }
}

/// The gaps a built scale realizes are exactly its mode's pattern.
pub proof fn lemma_scale_gaps(tonic: Note, m: Mode)
    requires
        scale_fits(tonic, m),
    ensures
        note_gaps(scale_notes(tonic, m)) == mode_dists(m),
{
    assert forall|k: int| 0 <= k < 6 implies note_gaps(scale_notes(tonic, m))[k] == mode_dists(
        m,
    )[k] by {
        lemma_scale_note_pitch(tonic, m, k);
        lemma_scale_note_pitch(tonic, m, k + 1);
        assert(presum(m, k + 1) == presum(m, k) + mode_dists(m)[k]);
    }
    assert(note_gaps(scale_notes(tonic, m)) =~= mode_dists(m));
}

/// The mode round-trip law: a scale built from a tonic and a mode is
/// identified as exactly that mode.
pub proof fn lemma_identify_scale(tonic: Note, m: Mode)
    requires
        scale_fits(tonic, m),
    ensures
        identify_spec(scale_notes(tonic, m)) == Ok::<Mode, ModeError>(m),
{
    lemma_scale_gaps(tonic, m);
    assert forall|m2: Mode| mode_dists(m2) == mode_dists(m) implies m2 == m by {
        lemma_mode_dists_injective(m2, m);
    }
}

/// Whether six observed gaps equal a mode's pattern, element by element.
fn gaps_match(steps: &Vec<i32>, m: Mode) -> (b: bool)
    requires
        steps@.len() == 6,
    ensures
        b <==> Seq::new(6, |k: int| steps@[k] as int) == mode_dists(m),
{
    let ghost observed = Seq::new(6, |k: int| steps@[k] as int);
    let dists = m.get_dists();
    let mut i: usize = 0;
    let mut same = true;
    while i < 6
        invariant
            i <= 6,
            observed == Seq::new(6, |k: int| steps@[k] as int),
            steps@.len() == 6,
            dists@.len() == 6,
            forall|k: int| 0 <= k < 6 ==> dists@[k] as int == mode_dists(m)[k],
            same <==> (forall|k: int| 0 <= k < i ==> steps@[k] == dists@[k]),
        decreases 6 - i,
    {
        if steps[i] != dists[i] {
            same = false;
        }
        i = i + 1;
    }
    proof {
        if same {
            assert(observed =~= mode_dists(m));
        } else {
            let k = choose|k: int| 0 <= k < 6 && steps@[k] != dists@[k];
            assert(observed[k] != mode_dists(m)[k]);
        }
    }
    same
}

} // verus!
