use vstd::prelude::*;

use crate::music::interval::{Interval, IntervalView};
use vstd::string::StringExecFns;
use crate::music::note::{
    Accidental, Letter, Note, NoteView, accidental_offset, interval_moves_pitch_class,
    is_named_interval, letter_index, letter_semitone, named_intervals_keep_their_letter, spelled,
    unison_keeps_the_note,
};

verus! {

/// A chord: a root note and the quality built on it.
#[derive(Debug, Clone, Copy)]
pub struct Chord {
    pub root: Note,
    pub chord_type: ChordType,
}

/// The chord qualities the recognizer knows.
#[derive(Debug, Clone, Copy)]
pub enum ChordType {
    Major,
    Maj7,
    Dom7,
    Minor,
    Min7,
    MinMaj7,
    Dim,
    Dim7,
    HalfDim7,
}

/// The intervals above the root that make up a chord of quality `ct`.
pub open spec fn chord_intervals(ct: ChordType) -> Seq<IntervalView> {
    match ct {
        ChordType::Major => seq![
            IntervalView::unison(),
            IntervalView::major_third(),
            IntervalView::perfect_fifth(),
        ],
        ChordType::Minor => seq![
            IntervalView::unison(),
            IntervalView::minor_third(),
            IntervalView::perfect_fifth(),
        ],
        ChordType::Dim => seq![
            IntervalView::unison(),
            IntervalView::minor_third(),
            IntervalView::diminished_fifth(),
        ],
        ChordType::Maj7 => seq![
            IntervalView::unison(),
            IntervalView::major_third(),
            IntervalView::perfect_fifth(),
            IntervalView::major_seventh(),
        ],
        ChordType::Dom7 => seq![
            IntervalView::unison(),
            IntervalView::major_third(),
            IntervalView::perfect_fifth(),
            IntervalView::minor_seventh(),
        ],
        ChordType::Min7 => seq![
            IntervalView::unison(),
            IntervalView::minor_third(),
            IntervalView::perfect_fifth(),
            IntervalView::minor_seventh(),
        ],
        ChordType::MinMaj7 => seq![
            IntervalView::unison(),
            IntervalView::minor_third(),
            IntervalView::perfect_fifth(),
            IntervalView::major_seventh(),
        ],
        ChordType::HalfDim7 => seq![
            IntervalView::unison(),
            IntervalView::minor_third(),
            IntervalView::diminished_fifth(),
            IntervalView::minor_seventh(),
        ],
        ChordType::Dim7 => seq![
            IntervalView::unison(),
            IntervalView::minor_third(),
            IntervalView::diminished_fifth(),
            IntervalView::diminished_seventh(),
        ],
    }
}

/// The written suffix of a chord quality (nothing for a major triad).
pub open spec fn chord_type_suffix(ct: ChordType) -> Seq<char> {
    match ct {
        ChordType::Major => seq![],
        ChordType::Maj7 => seq!['m', 'a', 'j', '7'],
        ChordType::Dom7 => seq!['7'],
        ChordType::Minor => seq!['m'],
        ChordType::Min7 => seq!['m', '7'],
        ChordType::MinMaj7 => seq!['m', '(', 'm', 'a', 'j', '7', ')'],
        ChordType::Dim => seq!['d', 'i', 'm'],
        ChordType::Dim7 => seq!['d', 'i', 'm', '7'],
        ChordType::HalfDim7 => seq!['m', '7', 'b', '5'],
    }
}

/// The spelled notes of a chord, from the root up.
pub open spec fn chord_notes(root: NoteView, ct: ChordType) -> Seq<NoteView> {
    chord_intervals(ct).map_values(|iv: IntervalView| spelled(root, iv))
}

/// The pitch classes of a chord's notes, from the root up.
pub open spec fn chord_pitch_classes(root: NoteView, ct: ChordType) -> Seq<int> {
    chord_notes(root, ct).map_values(|n: NoteView| n.pitch_class())
}

/// A triad has three notes; the seventh chords have four.
pub open spec fn is_triad(ct: ChordType) -> bool {
    ct is Major || ct is Minor || ct is Dim
}

proof fn lemma_chord_intervals_within_octave(ct: ChordType)
    ensures
        forall|i: int|
            0 <= i < chord_intervals(ct).len() ==> (#[trigger] chord_intervals(ct)[i]).letter_steps
                <= 6,
        chord_intervals(ct).len() == (if is_triad(ct) {
            3int
        } else {
            4int
        }),
{
}

impl ChordType {
    /// The written suffix of the quality, such as `m7b5`.
    pub fn suffix(&self) -> (s: &'static str)
        ensures
            s@ == chord_type_suffix(*self),
    {
        match self {
            ChordType::Major => {
                proof { reveal_strlit(""); }
                ""
            },
            ChordType::Maj7 => {
                proof { reveal_strlit("maj7"); }
                "maj7"
            },
            ChordType::Dom7 => {
                proof { reveal_strlit("7"); }
                "7"
            },
            ChordType::Minor => {
                proof { reveal_strlit("m"); }
                "m"
            },
            ChordType::Min7 => {
                proof { reveal_strlit("m7"); }
                "m7"
            },
            ChordType::MinMaj7 => {
                proof { reveal_strlit("m(maj7)"); }
                "m(maj7)"
            },
            ChordType::Dim => {
                proof { reveal_strlit("dim"); }
                "dim"
            },
            ChordType::Dim7 => {
                proof { reveal_strlit("dim7"); }
                "dim7"
            },
            ChordType::HalfDim7 => {
                proof { reveal_strlit("m7b5"); }
                "m7b5"
            },
        }
    }

    fn intervals(&self) -> (v: Vec<Interval>)
        ensures
            v@.len() == chord_intervals(*self).len(),
            forall|i: int| 0 <= i < v@.len() ==> (#[trigger] v@[i])@ == chord_intervals(*self)[i],
    {
        match self {
            ChordType::Major => vec![Interval::unison(), Interval::major_third(), Interval::perfect_fifth()],
            ChordType::Minor => vec![Interval::unison(), Interval::minor_third(), Interval::perfect_fifth()],
            ChordType::Dim => vec![Interval::unison(), Interval::minor_third(), Interval::diminished_fifth()],
            ChordType::Maj7 => vec![
                Interval::unison(),
                Interval::major_third(),
                Interval::perfect_fifth(),
                Interval::major_seventh(),
            ],
            ChordType::Dom7 => vec![
                Interval::unison(),
                Interval::major_third(),
                Interval::perfect_fifth(),
                Interval::minor_seventh(),
            ],
            ChordType::Min7 => vec![
                Interval::unison(),
                Interval::minor_third(),
                Interval::perfect_fifth(),
                Interval::minor_seventh(),
            ],
            ChordType::MinMaj7 => vec![
                Interval::unison(),
                Interval::minor_third(),
                Interval::perfect_fifth(),
                Interval::major_seventh(),
            ],
            ChordType::HalfDim7 => vec![
                Interval::unison(),
                Interval::minor_third(),
                Interval::diminished_fifth(),
                Interval::minor_seventh(),
            ],
            ChordType::Dim7 => vec![
                Interval::unison(),
                Interval::minor_third(),
                Interval::diminished_fifth(),
                Interval::diminished_seventh(),
            ],
        }
    }
}

impl Chord {
    pub fn new(root: Note, chord_type: ChordType) -> (c: Chord)
        ensures
            c.root == root,
            c.chord_type == chord_type,
    {
        Chord { root, chord_type }
    }

    /// The written name of the chord, such as `C#m7`.
    pub fn name(&self) -> (s: String)
        ensures
            s@ == self.root@.name() + chord_type_suffix(self.chord_type),
    {
        let mut s = self.root.name();
        s.append(self.chord_type.suffix());
        s
    }

    /// The chord's notes, each spelled from the root by its interval.
    pub fn notes(&self) -> (v: Vec<Note>)
        ensures
            v@.len() == chord_notes(self.root@, self.chord_type).len(),
            forall|i: int|
                0 <= i < v@.len() ==> (#[trigger] v@[i])@ == chord_notes(
                    self.root@,
                    self.chord_type,
                )[i],
    {
        let ivs = self.chord_type.intervals();
        proof {
            lemma_chord_intervals_within_octave(self.chord_type);
        }
        let mut v: Vec<Note> = Vec::new();
        let mut i: usize = 0;
        while i < ivs.len()
            invariant
                0 <= i <= ivs@.len(),
                ivs@.len() == chord_intervals(self.chord_type).len(),
                forall|j: int| 0 <= j < ivs@.len() ==> (#[trigger] ivs@[j])@ == chord_intervals(
                    self.chord_type,
                )[j],
                forall|j: int|
                    0 <= j < chord_intervals(self.chord_type).len() ==> (#[trigger] chord_intervals(
                        self.chord_type,
                    )[j]).letter_steps <= 6,
                v@.len() == i,
                forall|j: int|
                    0 <= j < i ==> (#[trigger] v@[j])@ == chord_notes(self.root@, self.chord_type)[j],
            decreases ivs@.len() - i,
        {
            let iv = ivs[i];
            assert(iv@ == chord_intervals(self.chord_type)[i as int]);
            assert(0 <= letter_index(self.root@.letter) <= 6) by {
                reveal_with_fuel(letter_index, 1);
            }
            v.push(self.root.interval(iv));
            i = i + 1;
        }
        v
    }

    /// The pitch classes of the chord's notes, from the root up.
    pub fn pitch_classes(&self) -> (v: Vec<usize>)
        ensures
            v@.len() == chord_pitch_classes(self.root@, self.chord_type).len(),
            forall|i: int|
                0 <= i < v@.len() ==> v@[i] == #[trigger] chord_pitch_classes(
                    self.root@,
                    self.chord_type,
                )[i],
    {
        let notes = self.notes();
        let mut v: Vec<usize> = Vec::new();
        let mut i: usize = 0;
        while i < notes.len()
            invariant
                0 <= i <= notes@.len(),
                notes@.len() == chord_notes(self.root@, self.chord_type).len(),
                forall|j: int|
                    0 <= j < notes@.len() ==> (#[trigger] notes@[j])@ == chord_notes(
                        self.root@,
                        self.chord_type,
                    )[j],
                v@.len() == i,
                forall|j: int|
                    0 <= j < i ==> v@[j] == #[trigger] chord_pitch_classes(
                        self.root@,
                        self.chord_type,
                    )[j],
            decreases notes@.len() - i,
        {
            let pc = notes[i].pitch_class();
            v.push(pc as usize);
            i = i + 1;
        }
        v
    }

    /// Which of the twelve pitch classes the chord sounds: the chord's
    /// chroma template, with `true` where the template holds 1.
    pub fn chroma_mask(&self) -> (m: [bool; 12])
        ensures
            forall|p: int|
                0 <= p < 12 ==> (m@[p] <==> chord_pitch_classes(self.root@, self.chord_type).contains(
                    p,
                )),
    {
        let pcs = self.pitch_classes();
        let ghost spcs = chord_pitch_classes(self.root@, self.chord_type);
        let mut m = [false; 12];
        let mut i: usize = 0;
        while i < pcs.len()
            invariant
                0 <= i <= pcs@.len(),
                pcs@.len() == spcs.len(),
                forall|j: int| 0 <= j < pcs@.len() ==> pcs@[j] == #[trigger] spcs[j],
                forall|j: int| 0 <= j < spcs.len() ==> 0 <= #[trigger] spcs[j] < 12,
                m@.len() == 12,
                forall|p: int|
                    0 <= p < 12 ==> (m@[p] <==> exists|j: int| 0 <= j < i && #[trigger] spcs[j] == p),
            decreases pcs@.len() - i,
        {
            let pc = pcs[i];
            assert(pc == spcs[i as int]);
            let ghost before = m@;
            m[pc] = true;
            assert(m@ == before.update(pc as int, true));
            assert forall|p: int| 0 <= p < 12 implies (m@[p] <==> exists|j: int|
                0 <= j < i + 1 && #[trigger] spcs[j] == p) by {
                if p == pc as int {
                    assert(spcs[i as int] == p);
                } else if m@[p] {
                    assert(before[p]);
                }
            }
            i = i + 1;
        }
        proof {
            assert forall|p: int| 0 <= p < 12 implies (m@[p] <==> spcs.contains(p)) by {
                if m@[p] {
                    let j = choose|j: int| 0 <= j < pcs@.len() && #[trigger] spcs[j] == p;
                    assert(spcs[j] == p);
                }
            }
        }
        m
    }
}

/// The twelve chord roots, one spelling per pitch class, from C up to B.
pub open spec fn catalogue_root(i: int) -> (Letter, Accidental) {
    if i == 0 {
        (Letter::C, Accidental::Natural)
    } else if i == 1 {
        (Letter::C, Accidental::Sharp)
    } else if i == 2 {
        (Letter::D, Accidental::Natural)
    } else if i == 3 {
        (Letter::D, Accidental::Sharp)
    } else if i == 4 {
        (Letter::E, Accidental::Natural)
    } else if i == 5 {
        (Letter::F, Accidental::Natural)
    } else if i == 6 {
        (Letter::F, Accidental::Sharp)
    } else if i == 7 {
        (Letter::G, Accidental::Natural)
    } else if i == 8 {
        (Letter::G, Accidental::Sharp)
    } else if i == 9 {
        (Letter::A, Accidental::Natural)
    } else if i == 10 {
        (Letter::A, Accidental::Sharp)
    } else {
        (Letter::B, Accidental::Natural)
    }
}

/// The chord qualities in declaration order.
pub open spec fn catalogue_type(i: int) -> ChordType {
    if i == 0 {
        ChordType::Major
    } else if i == 1 {
        ChordType::Maj7
    } else if i == 2 {
        ChordType::Dom7
    } else if i == 3 {
        ChordType::Minor
    } else if i == 4 {
        ChordType::Min7
    } else if i == 5 {
        ChordType::MinMaj7
    } else if i == 6 {
        ChordType::Dim
    } else if i == 7 {
        ChordType::Dim7
    } else {
        ChordType::HalfDim7
    }
}

/// The number of chord qualities.
pub open spec fn chord_type_count() -> int {
    9
}

/// Entry `i` of the chord catalogue: root `i / 9` in octave 4 with quality
/// `i % 9`.
pub open spec fn catalogue_root_note(i: int) -> NoteView {
    NoteView {
        letter: catalogue_root(i / chord_type_count()).0,
        accidental: catalogue_root(i / chord_type_count()).1,
        octave: 4,
    }
}

fn catalogue_root_at(i: usize) -> (r: (Letter, Accidental))
    requires
        i < 12,
    ensures
        r == catalogue_root(i as int),
{
    match i {
        0 => (Letter::C, Accidental::Natural),
        1 => (Letter::C, Accidental::Sharp),
        2 => (Letter::D, Accidental::Natural),
        3 => (Letter::D, Accidental::Sharp),
        4 => (Letter::E, Accidental::Natural),
        5 => (Letter::F, Accidental::Natural),
        6 => (Letter::F, Accidental::Sharp),
        7 => (Letter::G, Accidental::Natural),
        8 => (Letter::G, Accidental::Sharp),
        9 => (Letter::A, Accidental::Natural),
        10 => (Letter::A, Accidental::Sharp),
        _ => (Letter::B, Accidental::Natural),
    }
}

fn catalogue_type_at(i: usize) -> (t: ChordType)
    requires
        i < 9,
    ensures
        t == catalogue_type(i as int),
{
    match i {
        0 => ChordType::Major,
        1 => ChordType::Maj7,
        2 => ChordType::Dom7,
        3 => ChordType::Minor,
        4 => ChordType::Min7,
        5 => ChordType::MinMaj7,
        6 => ChordType::Dim,
        7 => ChordType::Dim7,
        _ => ChordType::HalfDim7,
    }
}

/// Every chord the recognizer scores: each of the twelve roots (one
/// spelling per pitch class, in octave 4) with each quality.
pub fn all_chords() -> (v: Vec<Chord>)
    ensures
        v@.len() == 12 * chord_type_count(),
        forall|i: int|
            0 <= i < v@.len() ==> (#[trigger] v@[i]).root@ == catalogue_root_note(i)
                && v@[i].chord_type == catalogue_type(i % chord_type_count()),
{
    let mut v: Vec<Chord> = Vec::new();
    let mut r: usize = 0;
    while r < 12
        invariant
            0 <= r <= 12,
            v@.len() == 9 * r,
            forall|i: int|
                0 <= i < v@.len() ==> (#[trigger] v@[i]).root@ == catalogue_root_note(i)
                    && v@[i].chord_type == catalogue_type(i % chord_type_count()),
        decreases 12 - r,
    {
        let (letter, accidental) = catalogue_root_at(r);
        let note = Note::new(letter, accidental, 4);
        let mut t: usize = 0;
        while t < 9
            invariant
                0 <= r < 12,
                0 <= t <= 9,
                v@.len() == 9 * r + t,
                note@ == (NoteView { letter: catalogue_root(r as int).0, accidental: catalogue_root(r as int).1, octave: 4 }),
                forall|i: int|
                    0 <= i < v@.len() ==> (#[trigger] v@[i]).root@ == catalogue_root_note(i)
                        && v@[i].chord_type == catalogue_type(i % chord_type_count()),
            decreases 9 - t,
        {
            let ct = catalogue_type_at(t);
            let ghost k = v@.len() as int;
            assert(k / 9 == r as int && k % 9 == t as int) by {
                vstd::arithmetic::div_mod::lemma_fundamental_div_mod_converse(k, 9, r as int, t as int);
            }
            v.push(Chord::new(note, ct));
            t = t + 1;
        }
        r = r + 1;
    }
    v
}

/// The first note of every chord is its root, unchanged.
pub proof fn chord_starts_at_its_root(root: NoteView, ct: ChordType)
    ensures
        chord_notes(root, ct)[0] == root,
{
    unison_keeps_the_note(root);
}

/// Triads have three notes and seventh chords four, whatever the root.
pub proof fn chord_note_count(root: NoteView, ct: ChordType)
    ensures
        chord_notes(root, ct).len() == (if is_triad(ct) {
            3int
        } else {
            4int
        }),
{
    lemma_chord_intervals_within_octave(ct);
}

/// The pitch classes of a chord do not depend on the octave of its root.
pub proof fn chord_pitch_classes_ignore_octave(a: NoteView, b: NoteView, ct: ChordType)
    requires
        a.letter == b.letter,
        a.accidental == b.accidental,
    ensures
        chord_pitch_classes(a, ct) == chord_pitch_classes(b, ct),
{
    assert(a.pitch_class() == b.pitch_class()) by {
        let base = letter_semitone(a.letter) + accidental_offset(a.accidental);
        vstd::arithmetic::div_mod::lemma_mod_multiples_vanish(a.octave + 1, base, 12);
        vstd::arithmetic::div_mod::lemma_mod_multiples_vanish(b.octave + 1, base, 12);
    }
    let pa = chord_pitch_classes(a, ct);
    let pb = chord_pitch_classes(b, ct);
    assert forall|i: int| 0 <= i < pa.len() implies pa[i] == pb[i] by {
        let iv = chord_intervals(ct)[i];
        interval_moves_pitch_class(a, iv);
        interval_moves_pitch_class(b, iv);
    }
    assert(pa =~= pb);
}

/// Each catalogue root is spelled once and stands for its own pitch class:
/// root `r` has pitch class `r`.
pub proof fn catalogue_root_pitch_class(r: int)
    requires
        0 <= r < 12,
    ensures
        (NoteView { letter: catalogue_root(r).0, accidental: catalogue_root(r).1, octave: 4 }).pitch_class()
            == r,
{
}

/// No two catalogue entries share both the pitch class of their root and
/// their quality, so candidates never tie on an enharmonic duplicate.
pub proof fn catalogue_has_no_duplicates(i: int, j: int)
    requires
        0 <= i < 12 * chord_type_count(),
        0 <= j < 12 * chord_type_count(),
        i != j,
    ensures
        catalogue_root_note(i).pitch_class() != catalogue_root_note(j).pitch_class()
            || catalogue_type(i % chord_type_count()) != catalogue_type(j % chord_type_count()),
{
    let ri = i / 9;
    let rj = j / 9;
    vstd::arithmetic::div_mod::lemma_fundamental_div_mod(i, 9);
    vstd::arithmetic::div_mod::lemma_fundamental_div_mod(j, 9);
    assert(0 <= ri < 12 && 0 <= rj < 12) by {
        vstd::arithmetic::div_mod::lemma_div_pos_is_pos(i, 9);
        vstd::arithmetic::div_mod::lemma_div_pos_is_pos(j, 9);
        vstd::arithmetic::div_mod::lemma_div_is_ordered(i, 107, 9);
        vstd::arithmetic::div_mod::lemma_div_is_ordered(j, 107, 9);
    }
    catalogue_root_pitch_class(ri);
    catalogue_root_pitch_class(rj);
    if ri == rj {
        assert(i % 9 != j % 9);
    }
}

/// Each quality has its defining semitone pattern above the root: the
/// pitch classes of its notes are the root's pitch class plus
/// 0, 4, 7 (major), 0, 3, 7 (minor), 0, 3, 6 (diminished),
/// 0, 4, 7, 11 (major seventh), 0, 4, 7, 10 (dominant seventh),
/// 0, 3, 7, 10 (minor seventh), 0, 3, 7, 11 (minor-major seventh),
/// 0, 3, 6, 10 (half-diminished) or 0, 3, 6, 9 (diminished seventh),
/// modulo 12, whatever the root.
pub proof fn chord_qualities_have_their_patterns(root: NoteView, ct: ChordType)
    ensures
        ({
            let p = root.pitch_class();
            let pcs = chord_pitch_classes(root, ct);
            match ct {
                ChordType::Major => pcs == seq![p, (p + 4) % 12, (p + 7) % 12],
                ChordType::Minor => pcs == seq![p, (p + 3) % 12, (p + 7) % 12],
                ChordType::Dim => pcs == seq![p, (p + 3) % 12, (p + 6) % 12],
                ChordType::Maj7 => pcs == seq![p, (p + 4) % 12, (p + 7) % 12, (p + 11) % 12],
                ChordType::Dom7 => pcs == seq![p, (p + 4) % 12, (p + 7) % 12, (p + 10) % 12],
                ChordType::Min7 => pcs == seq![p, (p + 3) % 12, (p + 7) % 12, (p + 10) % 12],
                ChordType::MinMaj7 => pcs == seq![p, (p + 3) % 12, (p + 7) % 12, (p + 11) % 12],
                ChordType::HalfDim7 => pcs == seq![p, (p + 3) % 12, (p + 6) % 12, (p + 10) % 12],
                ChordType::Dim7 => pcs == seq![p, (p + 3) % 12, (p + 6) % 12, (p + 9) % 12],
            }
        }),
{
    let ivs = chord_intervals(ct);
    let pcs = chord_pitch_classes(root, ct);
    lemma_chord_intervals_within_octave(ct);
    assert forall|i: int| 0 <= i < ivs.len() implies pcs[i] == (root.pitch_class()
        + ivs[i].semitones) % 12 by {
        interval_moves_pitch_class(root, ivs[i]);
    }
    let p = root.pitch_class();
    assert(p % 12 == p);
    match ct {
        ChordType::Major => {
            assert(pcs =~= seq![p, (p + 4) % 12, (p + 7) % 12]);
        },
        ChordType::Minor => {
            assert(pcs =~= seq![p, (p + 3) % 12, (p + 7) % 12]);
        },
        ChordType::Dim => {
            assert(pcs =~= seq![p, (p + 3) % 12, (p + 6) % 12]);
        },
        ChordType::Maj7 => {
            assert(pcs =~= seq![p, (p + 4) % 12, (p + 7) % 12, (p + 11) % 12]);
        },
        ChordType::Dom7 => {
            assert(pcs =~= seq![p, (p + 4) % 12, (p + 7) % 12, (p + 10) % 12]);
        },
        ChordType::Min7 => {
            assert(pcs =~= seq![p, (p + 3) % 12, (p + 7) % 12, (p + 10) % 12]);
        },
        ChordType::MinMaj7 => {
            assert(pcs =~= seq![p, (p + 3) % 12, (p + 7) % 12, (p + 11) % 12]);
        },
        ChordType::HalfDim7 => {
            assert(pcs =~= seq![p, (p + 3) % 12, (p + 6) % 12, (p + 10) % 12]);
        },
        ChordType::Dim7 => {
            assert(pcs =~= seq![p, (p + 3) % 12, (p + 6) % 12, (p + 9) % 12]);
        },
    }
}

/// Chords are spelled in stacked thirds: above a root with at most a single
/// flat or sharp, note `i` of every chord is written on the letter `2 * i`
/// letters above the root's (C, E, G, B for any C chord), except the
/// diminished seventh on a flat root, whose seventh would need a triple
/// flat.
pub proof fn chords_are_spelled_in_thirds(root: NoteView, ct: ChordType, i: int)
    requires
        -1 <= accidental_offset(root.accidental) <= 1,
        ct is Dim7 ==> accidental_offset(root.accidental) >= 0,
        0 <= i < chord_notes(root, ct).len(),
    ensures
        letter_index(chord_notes(root, ct)[i].letter) == (letter_index(root.letter) + 2 * i) % 7,
{
    lemma_chord_intervals_within_octave(ct);
    let iv = chord_intervals(ct)[i];
    assert(is_named_interval(iv));
    assert(iv.letter_steps == 2 * i);
    named_intervals_keep_their_letter(root, iv);
}

/// Catalogue root `r` is written as the chroma label of pitch class `r`:
/// the naturals C, D, E, F, G, A, B and the sharps C#, D#, F#, G#, A#.
pub proof fn catalogue_roots_use_the_chroma_labels(r: int)
    requires
        0 <= r < 12,
    ensures
        (NoteView { letter: catalogue_root(r).0, accidental: catalogue_root(r).1, octave: 4 }).name()
            == seq![
            seq!['C'],
            seq!['C', '#'],
            seq!['D'],
            seq!['D', '#'],
            seq!['E'],
            seq!['F'],
            seq!['F', '#'],
            seq!['G'],
            seq!['G', '#'],
            seq!['A'],
            seq!['A', '#'],
            seq!['B'],
        ][r],
{
    let n = NoteView { letter: catalogue_root(r).0, accidental: catalogue_root(r).1, octave: 4 };
    assert(n.name() =~= seq![
        seq!['C'],
        seq!['C', '#'],
        seq!['D'],
        seq!['D', '#'],
        seq!['E'],
        seq!['F'],
        seq!['F', '#'],
        seq!['G'],
        seq!['G', '#'],
        seq!['A'],
        seq!['A', '#'],
        seq!['B'],
    ][r]);
}

} // verus!
