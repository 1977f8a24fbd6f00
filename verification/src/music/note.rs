use vstd::prelude::*;

use crate::music::interval::{Interval, IntervalView};
use vstd::string::StringExecFns;

verus! {

/// The seven letter names of the natural notes.
#[derive(Debug, Clone, Copy)]
pub enum Letter {
    A,
    B,
    C,
    D,
    E,
    F,
    G,
}

/// The alteration written after a letter name.
#[derive(Debug, Clone, Copy)]
pub enum Accidental {
    DoubleFlat,
    Flat,
    Natural,
    Sharp,
    DoubleSharp,
}

/// A spelled pitch: a letter name, an accidental and an octave number
/// (scientific pitch notation, so that C4 is middle C).
#[derive(Debug, Clone, Copy)]
pub struct Note {
    letter: Letter,
    accidental: Accidental,
    octave: i8,
}

/// The value a note stands for.
pub struct NoteView {
    pub letter: Letter,
    pub accidental: Accidental,
    pub octave: i8,
}

/// Semitones of a natural letter above C.
pub open spec fn letter_semitone(l: Letter) -> int {
    match l {
        Letter::C => 0,
        Letter::D => 2,
        Letter::E => 4,
        Letter::F => 5,
        Letter::G => 7,
        Letter::A => 9,
        Letter::B => 11,
    }
}

/// Position of a letter in the cycle A, B, C, D, E, F, G.
pub open spec fn letter_index(l: Letter) -> int {
    match l {
        Letter::A => 0,
        Letter::B => 1,
        Letter::C => 2,
        Letter::D => 3,
        Letter::E => 4,
        Letter::F => 5,
        Letter::G => 6,
    }
}

/// The letter at a position of the cycle A, B, C, D, E, F, G (taken modulo 7).
pub open spec fn letter_at(i: int) -> Letter {
    let r = i % 7;
    if r == 0 {
        Letter::A
    } else if r == 1 {
        Letter::B
    } else if r == 2 {
        Letter::C
    } else if r == 3 {
        Letter::D
    } else if r == 4 {
        Letter::E
    } else if r == 5 {
        Letter::F
    } else {
        Letter::G
    }
}

/// Semitones an accidental adds to its letter.
pub open spec fn accidental_offset(a: Accidental) -> int {
    match a {
        Accidental::DoubleFlat => -2,
        Accidental::Flat => -1,
        Accidental::Natural => 0,
        Accidental::Sharp => 1,
        Accidental::DoubleSharp => 2,
    }
}

/// The accidental that adds `o` semitones, for `o` in -2..=2.
pub open spec fn accidental_with_offset(o: int) -> Accidental {
    if o == -2 {
        Accidental::DoubleFlat
    } else if o == -1 {
        Accidental::Flat
    } else if o == 0 {
        Accidental::Natural
    } else if o == 1 {
        Accidental::Sharp
    } else {
        Accidental::DoubleSharp
    }
}

impl NoteView {
    /// MIDI-style semitone number: C-1 is 0, A4 is 69.
    pub open spec fn semitone(self) -> int {
        (self.octave + 1) * 12 + letter_semitone(self.letter) + accidental_offset(self.accidental)
    }

    /// The pitch class, 0 for C up to 11 for B.
    pub open spec fn pitch_class(self) -> int {
        self.semitone() % 12
    }
}

/// The written name of a letter.
pub open spec fn letter_name(l: Letter) -> Seq<char> {
    match l {
        Letter::A => seq!['A'],
        Letter::B => seq!['B'],
        Letter::C => seq!['C'],
        Letter::D => seq!['D'],
        Letter::E => seq!['E'],
        Letter::F => seq!['F'],
        Letter::G => seq!['G'],
    }
}

/// The written symbol of an accidental (nothing for a natural).
pub open spec fn accidental_symbol(a: Accidental) -> Seq<char> {
    match a {
        Accidental::DoubleFlat => seq!['b', 'b'],
        Accidental::Flat => seq!['b'],
        Accidental::Natural => seq![],
        Accidental::Sharp => seq!['#'],
        Accidental::DoubleSharp => seq!['#', '#'],
    }
}

impl NoteView {
    /// The written name of the note without its octave, such as `F##`.
    pub open spec fn name(self) -> Seq<char> {
        letter_name(self.letter) + accidental_symbol(self.accidental)
    }
}

impl View for Note {
    type V = NoteView;

    closed spec fn view(&self) -> NoteView {
        NoteView { letter: self.letter, accidental: self.accidental, octave: self.octave }
    }
}

// How `Note::interval` spells its result.  The target pitch is the note's
// semitone plus the interval's semitones.  The preferred letter lies the
// interval's letter steps above the note's letter; the letters at steps
// 0, 1, -1, 2, -2, 3, -3 around it are tried in turn, and the first one that
// reaches the target with at most a double flat or a double sharp is taken.
/// The target pitch of a spelled interval.
pub open spec fn spelling_target(n: NoteView, iv: IntervalView) -> int {
    n.semitone() + iv.semitones
}

/// Position of the preferred letter of a spelled interval.
pub open spec fn spelling_base(n: NoteView, iv: IntervalView) -> int {
    (letter_index(n.letter) + iv.letter_steps) % 7
}

/// The letter tried at `step` letters from the preferred one.
pub open spec fn candidate_letter(n: NoteView, iv: IntervalView, step: int) -> Letter {
    letter_at(spelling_base(n, iv) + step)
}

/// Semitones from the natural candidate letter (in octave -1) to the target.
pub open spec fn candidate_diff(n: NoteView, iv: IntervalView, step: int) -> int {
    spelling_target(n, iv) - letter_semitone(candidate_letter(n, iv, step))
}

/// The octave number the candidate letter is written in, before it is
/// stored as an `i8`.
pub open spec fn candidate_octave(n: NoteView, iv: IntervalView, step: int) -> int {
    (candidate_diff(n, iv, step) + 6) / 12 - 1
}

/// The alteration the candidate letter needs to reach the target.
pub open spec fn candidate_offset(n: NoteView, iv: IntervalView, step: int) -> int {
    candidate_diff(n, iv, step) - (candidate_octave(n, iv, step) + 1) * 12
}

/// The candidate letter reaches the target with a written accidental.
#[verifier::opaque]
pub open spec fn candidate_fits(n: NoteView, iv: IntervalView, step: int) -> bool {
    -2 <= candidate_offset(n, iv, step) <= 2
}

/// The order in which letters around the preferred one are tried.
pub open spec fn spelling_order(i: int) -> int {
    if i == 0 {
        0
    } else if i == 1 {
        1
    } else if i == 2 {
        -1
    } else if i == 3 {
        2
    } else if i == 4 {
        -2
    } else if i == 5 {
        3
    } else {
        -3
    }
}

/// The first step, in spelling order, whose letter fits.
pub open spec fn spelling_step(n: NoteView, iv: IntervalView) -> int {
    if candidate_fits(n, iv, 0) {
        0
    } else if candidate_fits(n, iv, 1) {
        1
    } else if candidate_fits(n, iv, -1) {
        -1
    } else if candidate_fits(n, iv, 2) {
        2
    } else if candidate_fits(n, iv, -2) {
        -2
    } else if candidate_fits(n, iv, 3) {
        3
    } else {
        -3
    }
}

/// The octave number of the spelled note, before it is stored as an `i8`.
pub open spec fn spelled_octave(n: NoteView, iv: IntervalView) -> int {
    candidate_octave(n, iv, spelling_step(n, iv))
}

/// The note `iv` above `n`, as `Note::interval` spells it.  The octave is
/// stored as an `i8`, so it wraps around when it leaves -128..=127.
pub open spec fn spelled(n: NoteView, iv: IntervalView) -> NoteView {
    let s = spelling_step(n, iv);
    NoteView {
        letter: candidate_letter(n, iv, s),
        accidental: accidental_with_offset(candidate_offset(n, iv, s)),
        octave: (candidate_octave(n, iv, s) as i32) as i8,
    }
}

/// The natural letter nearest below (or at) a pitch class: every pitch class
/// is the letter's pitch class or one semitone above it.
pub open spec fn nearest_letter(pc: int) -> Letter {
    if pc <= 1 {
        Letter::C
    } else if pc <= 3 {
        Letter::D
    } else if pc == 4 {
        Letter::E
    } else if pc <= 6 {
        Letter::F
    } else if pc <= 8 {
        Letter::G
    } else if pc <= 10 {
        Letter::A
    } else {
        Letter::B
    }
}

proof fn lemma_letter_at_index(l: Letter)
    ensures
        letter_at(letter_index(l)) == l,
        0 <= letter_index(l) < 7,
        0 <= letter_semitone(l) < 12,
{
}

/// Euclidean division of the candidate difference, spelled out.
proof fn lemma_candidate_offset(n: NoteView, iv: IntervalView, step: int)
    ensures
        candidate_diff(n, iv, step) == (candidate_octave(n, iv, step) + 1) * 12 + candidate_offset(
            n,
            iv,
            step,
        ),
        -6 <= candidate_offset(n, iv, step) < 6,
{
    let d = candidate_diff(n, iv, step);
    vstd::arithmetic::div_mod::lemma_fundamental_div_mod(d + 6, 12);
}

/// A letter whose natural pitch class is the target's, or one below it,
/// always fits (with a natural or a sharp).
proof fn lemma_near_letter_fits(n: NoteView, iv: IntervalView, step: int)
    requires
        0 <= spelling_target(n, iv) % 12 - letter_semitone(candidate_letter(n, iv, step)) <= 1,
    ensures
        candidate_fits(n, iv, step),
{
    let t = spelling_target(n, iv);
    let d = candidate_diff(n, iv, step);
    let r = t % 12 - letter_semitone(candidate_letter(n, iv, step));
    vstd::arithmetic::div_mod::lemma_fundamental_div_mod(t, 12);
    // d == 12 * (t / 12) + r, with r in 0..=1
    assert(d == 12 * (t / 12) + r);
    lemma_candidate_offset(n, iv, step);
    let k = candidate_octave(n, iv, step) + 1;
    // d == 12 * k + offset, with offset in -6..6, so offset == r
    assert(candidate_offset(n, iv, step) == r) by {
        let o = candidate_offset(n, iv, step);
        assert(12 * (t / 12 - k) == o - r);
        if t / 12 - k >= 1 {
            assert(12 * (t / 12 - k) >= 12);
        } else if t / 12 - k <= -1 {
            assert(12 * (t / 12 - k) <= -12);
        }
    }
    reveal(candidate_fits);
}

/// Every pitch class is at most one semitone above its nearest letter.
proof fn lemma_nearest_letter(pc: int)
    requires
        0 <= pc < 12,
    ensures
        0 <= pc - letter_semitone(nearest_letter(pc)) <= 1,
{
}

/// From any letter position, one of the steps -3..=3 reaches any other.
proof fn lemma_step_between(b: int, m: int) -> (s: int)
    requires
        0 <= b < 7,
        0 <= m < 7,
    ensures
        -3 <= s <= 3,
        (b + s) % 7 == m,
{
    if m - b > 3 {
        m - b - 7
    } else if m - b < -3 {
        m - b + 7
    } else {
        m - b
    }
}

proof fn lemma_letter_at_mod(i: int, m: int)
    requires
        i % 7 == m,
    ensures
        letter_at(i) == letter_at(m),
{
}

/// Some step in the spelling order fits, so the search never runs out.
pub proof fn lemma_spelling_step_fits(n: NoteView, iv: IntervalView)
    ensures
        candidate_fits(n, iv, spelling_step(n, iv)),
{
    let t = spelling_target(n, iv);
    let b = spelling_base(n, iv);
    let near = nearest_letter(t % 12);
    let m = letter_index(near);
    lemma_letter_at_index(near);
    let s = lemma_step_between(b, m);
    lemma_letter_at_mod(b + s, m);
    assert(candidate_letter(n, iv, s) == near);
    lemma_nearest_letter(t % 12);
    lemma_near_letter_fits(n, iv, s);
}

impl Letter {
    fn semitone(&self) -> (r: i32)
        ensures
            r == letter_semitone(*self),
    {
        match self {
            Letter::C => 0,
            Letter::D => 2,
            Letter::E => 4,
            Letter::F => 5,
            Letter::G => 7,
            Letter::A => 9,
            Letter::B => 11,
        }
    }

    fn name(&self) -> (s: &'static str)
        ensures
            s@ == letter_name(*self),
    {
        match self {
            Letter::A => {
                proof { reveal_strlit("A"); }
                "A"
            },
            Letter::B => {
                proof { reveal_strlit("B"); }
                "B"
            },
            Letter::C => {
                proof { reveal_strlit("C"); }
                "C"
            },
            Letter::D => {
                proof { reveal_strlit("D"); }
                "D"
            },
            Letter::E => {
                proof { reveal_strlit("E"); }
                "E"
            },
            Letter::F => {
                proof { reveal_strlit("F"); }
                "F"
            },
            Letter::G => {
                proof { reveal_strlit("G"); }
                "G"
            },
        }
    }

    fn index(&self) -> (r: u8)
        ensures
            r == letter_index(*self),
    {
        match self {
            Letter::A => 0,
            Letter::B => 1,
            Letter::C => 2,
            Letter::D => 3,
            Letter::E => 4,
            Letter::F => 5,
            Letter::G => 6,
        }
    }

    /// The letter `n` steps further in the cycle A..G.
    fn next(&self, n: u8) -> (r: Letter)
        requires
            letter_index(*self) + n <= u8::MAX,
        ensures
            r == letter_at(letter_index(*self) + n),
    {
        match (self.index() + n) % 7 {
            0 => Letter::A,
            1 => Letter::B,
            2 => Letter::C,
            3 => Letter::D,
            4 => Letter::E,
            5 => Letter::F,
            _ => Letter::G,
        }
    }

    /// The letter `n` steps away in the cycle A..G, in either direction.
    fn shift(&self, n: i8) -> (r: Letter)
        requires
            i8::MIN <= letter_index(*self) + n <= i8::MAX,
        ensures
            r == letter_at(letter_index(*self) + n),
    {
        let sum: i8 = self.index() as i8 + n;
        let idx: u8 = match sum.checked_rem_euclid(7) {
            Some(r) => r as u8,
            None => 0,
        };
        match idx {
            0 => Letter::A,
            1 => Letter::B,
            2 => Letter::C,
            3 => Letter::D,
            4 => Letter::E,
            5 => Letter::F,
            _ => Letter::G,
        }
    }
}

impl Accidental {
    fn offset(&self) -> (r: i32)
        ensures
            r == accidental_offset(*self),
    {
        match self {
            Accidental::DoubleFlat => -2,
            Accidental::Flat => -1,
            Accidental::Natural => 0,
            Accidental::Sharp => 1,
            Accidental::DoubleSharp => 2,
        }
    }

    fn symbol(&self) -> (s: &'static str)
        ensures
            s@ == accidental_symbol(*self),
    {
        match self {
            Accidental::DoubleFlat => {
                proof { reveal_strlit("bb"); }
                "bb"
            },
            Accidental::Flat => {
                proof { reveal_strlit("b"); }
                "b"
            },
            Accidental::Natural => {
                proof { reveal_strlit(""); }
                ""
            },
            Accidental::Sharp => {
                proof { reveal_strlit("#"); }
                "#"
            },
            Accidental::DoubleSharp => {
                proof { reveal_strlit("##"); }
                "##"
            },
        }
    }

    fn from_offset(o: i32) -> (r: Accidental)
        requires
            -2 <= o <= 2,
        ensures
            r == accidental_with_offset(o as int),
    {
        match o {
            -2 => Accidental::DoubleFlat,
            -1 => Accidental::Flat,
            0 => Accidental::Natural,
            1 => Accidental::Sharp,
            _ => Accidental::DoubleSharp,
        }
    }
}

/// Which letter is tried at position `i` of the spelling order.
fn spelling_order_at(i: usize) -> (s: i8)
    requires
        i < 7,
    ensures
        s == spelling_order(i as int),
{
    match i {
        0 => 0,
        1 => 1,
        2 => -1,
        3 => 2,
        4 => -2,
        5 => 3,
        _ => -3,
    }
}

impl Note {
    pub fn new(letter: Letter, accidental: Accidental, octave: i8) -> (n: Note)
        ensures
            n@ == (NoteView { letter, accidental, octave }),
    {
        Note { letter, accidental, octave }
    }

    /// MIDI-style semitone number of the note (A4 is 69).
    pub fn semitone(&self) -> (s: i32)
        ensures
            s == self@.semitone(),
    {
        (self.octave as i32 + 1) * 12 + self.letter.semitone() + self.accidental.offset()
    }

    /// Two spellings of the same pitch.
    pub fn is_enharmonic(&self, other: &Self) -> (b: bool)
        ensures
            b == (self@.semitone() == other@.semitone()),
    {
        self.semitone() == other.semitone()
    }

    /// The note `iv` above this one, spelled with the interval's letter
    /// where an accidental of at most two semitones allows it.
    pub fn interval(&self, iv: Interval) -> (r: Note)
        requires
            letter_index(self@.letter) + iv@.letter_steps <= u8::MAX,
        ensures
            r@ == spelled(self@, iv@),
    {
        let ghost nv = self@;
        let ghost ivv = iv@;
        let target: i32 = self.semitone() + iv.semitones() as i32;
        let base_letter = self.letter.next(iv.letter_steps());
        proof {
            lemma_spelling_step_fits(nv, ivv);
        }
        let mut i: usize = 0;
        while i < 7
            invariant
                0 <= i <= 7,
                target == spelling_target(nv, ivv),
                letter_index(base_letter) == spelling_base(nv, ivv),
                nv == self@,
                ivv == iv@,
                candidate_fits(nv, ivv, spelling_step(nv, ivv)),
                forall|j: int| 0 <= j < i ==> !candidate_fits(nv, ivv, #[trigger] spelling_order(j)),
            decreases 7 - i,
        {
            let step = spelling_order_at(i);
            proof {
                lemma_letter_at_index(base_letter);
            }
            let letter = base_letter.shift(step);
            assert(letter == candidate_letter(nv, ivv, step as int));
            let diff: i32 = target - letter.semitone();
            let k: i32 = (diff + 6).checked_div_euclid(12).unwrap();
            let offset: i32 = diff - k * 12;
            assert(offset == candidate_offset(nv, ivv, step as int));
            let fits = -2 <= offset && offset <= 2;
            assert(fits == candidate_fits(nv, ivv, step as int)) by {
                reveal(candidate_fits);
            }
            if fits {
                assert(spelling_step(nv, ivv) == step as int) by {
                    if i >= 1 { assert(!candidate_fits(nv, ivv, spelling_order(0))); }
                    if i >= 2 { assert(!candidate_fits(nv, ivv, spelling_order(1))); }
                    if i >= 3 { assert(!candidate_fits(nv, ivv, spelling_order(2))); }
                    if i >= 4 { assert(!candidate_fits(nv, ivv, spelling_order(3))); }
                    if i >= 5 { assert(!candidate_fits(nv, ivv, spelling_order(4))); }
                    if i >= 6 { assert(!candidate_fits(nv, ivv, spelling_order(5))); }
                }
                return Note::new(letter, Accidental::from_offset(offset), (k - 1) as i8);
            }
            i = i + 1;
        }
        proof {
            assert(!candidate_fits(nv, ivv, spelling_order(0)));
            assert(!candidate_fits(nv, ivv, spelling_order(1)));
            assert(!candidate_fits(nv, ivv, spelling_order(2)));
            assert(!candidate_fits(nv, ivv, spelling_order(3)));
            assert(!candidate_fits(nv, ivv, spelling_order(4)));
            assert(!candidate_fits(nv, ivv, spelling_order(5)));
            assert(!candidate_fits(nv, ivv, spelling_order(6)));
        }
        vstd::pervasive::unreached()
    }

    /// The written name of the note without its octave, such as `Bb` or
    /// `F##`.
    pub fn name(&self) -> (s: String)
        ensures
            s@ == self@.name(),
    {
        let mut s = String::new();
        s.append(self.letter.name());
        s.append(self.accidental.symbol());
        s
    }

    /// The pitch class, 0 for C up to 11 for B.
    pub fn pitch_class(&self) -> (p: u8)
        ensures
            p == self@.pitch_class(),
    {
        match self.semitone().checked_rem_euclid(12) {
            Some(r) => r as u8,
            None => 0,
        }
    }
}

/// Two's-complement wrap of an octave number near the `i8` range.
proof fn lemma_i8_wrap(x: i32)
    requires
        -384 <= x <= 383,
    ensures
        x as i8 == x || x as i8 == x - 256 || x as i8 == x + 256,
{
    assert(x as i8 == x || x as i8 == x - 256 || x as i8 == x + 256) by (bit_vector)
        requires
            -384 <= x <= 383,
    ;
}

/// The spelled octave number stays close to the `i8` range.
proof fn lemma_spelled_octave_bounds(n: NoteView, iv: IntervalView)
    ensures
        -384 <= spelled_octave(n, iv) <= 383,
        spelled(n, iv).semitone() == spelling_target(n, iv) + 12 * (spelled(n, iv).octave
            - spelled_octave(n, iv)),
{
    let s = spelling_step(n, iv);
    lemma_spelling_step_fits(n, iv);
    lemma_candidate_offset(n, iv, s);
    reveal(candidate_fits);
    let k = candidate_octave(n, iv, s);
    assert(-384 <= k <= 383) by {
        let d = candidate_diff(n, iv, s);
        assert(-1600 <= d <= 1900);
    }
}

/// Moving up by an interval adds exactly its semitones to the pitch,
/// whenever the octave of the result can be written as an `i8`.
pub proof fn interval_adds_its_semitones(n: NoteView, iv: IntervalView)
    requires
        i8::MIN <= spelled_octave(n, iv) <= i8::MAX,
    ensures
        spelled(n, iv).semitone() == n.semitone() + iv.semitones,
{
    lemma_spelled_octave_bounds(n, iv);
}

/// Moving up by an interval moves the pitch class by its semitones,
/// modulo 12, for every note and interval.
pub proof fn interval_moves_pitch_class(n: NoteView, iv: IntervalView)
    ensures
        spelled(n, iv).pitch_class() == (n.pitch_class() + iv.semitones) % 12,
{
    lemma_spelled_octave_bounds(n, iv);
    let x = spelled_octave(n, iv);
    lemma_i8_wrap(x as i32);
    let t = spelling_target(n, iv);
    let w = spelled(n, iv).octave - x;
    assert(w == 0 || w == 256 || w == -256);
    let sem = spelled(n, iv).semitone();
    assert(sem == t + 12 * w);
    vstd::arithmetic::div_mod::lemma_mod_multiples_vanish(w, t, 12);
    vstd::arithmetic::div_mod::lemma_add_mod_noop(n.semitone(), iv.semitones as int, 12);
    vstd::arithmetic::div_mod::lemma_mod_twice(n.semitone(), 12);
    vstd::arithmetic::div_mod::lemma_add_mod_noop(n.semitone() % 12, iv.semitones as int, 12);
}

/// Moving up by a unison gives back the same note.
pub proof fn unison_keeps_the_note(n: NoteView)
    ensures
        spelled(n, IntervalView::unison()) == n,
{
    let iv = IntervalView::unison();
    lemma_letter_at_index(n.letter);
    assert(spelling_base(n, iv) == letter_index(n.letter));
    assert(candidate_letter(n, iv, 0) == n.letter);
    let d = candidate_diff(n, iv, 0);
    assert(d == (n.octave + 1) * 12 + accidental_offset(n.accidental));
    vstd::arithmetic::div_mod::lemma_fundamental_div_mod_converse(
        d + 6,
        12,
        n.octave + 1,
        accidental_offset(n.accidental) + 6,
    );
    assert(candidate_octave(n, iv, 0) == n.octave);
    assert(candidate_offset(n, iv, 0) == accidental_offset(n.accidental));
    assert(candidate_fits(n, iv, 0)) by {
        reveal(candidate_fits);
    }
    assert(spelled(n, iv).accidental == n.accidental);
}

/// Enharmonic equivalence (sounding the same pitch) is an equivalence
/// relation.
pub proof fn enharmonic_is_an_equivalence(a: NoteView, b: NoteView, c: NoteView)
    ensures
        a.semitone() == a.semitone(),
        a.semitone() == b.semitone() ==> b.semitone() == a.semitone(),
        a.semitone() == b.semitone() && b.semitone() == c.semitone() ==> a.semitone()
            == c.semitone(),
{
}

proof fn lemma_index_of_letter_at(i: int)
    ensures
        letter_index(letter_at(i)) == i % 7,
{
}

/// When the letter `letter_steps` above the note can be written with an
/// accidental of at most two semitones in an `i8` octave, the interval is
/// spelled on exactly that letter: the result is that spelling, and it
/// sounds `iv.semitones` above the note.
pub proof fn interval_prefers_its_letter(
    n: NoteView,
    iv: IntervalView,
    l: Letter,
    a: Accidental,
    o: i8,
)
    requires
        letter_index(l) == (letter_index(n.letter) + iv.letter_steps) % 7,
        (NoteView { letter: l, accidental: a, octave: o }).semitone() == n.semitone()
            + iv.semitones,
    ensures
        spelled(n, iv) == (NoteView { letter: l, accidental: a, octave: o }),
        letter_index(spelled(n, iv).letter) == (letter_index(n.letter) + iv.letter_steps) % 7,
        spelled(n, iv).semitone() == n.semitone() + iv.semitones,
{
    lemma_letter_at_index(l);
    lemma_letter_at_mod(spelling_base(n, iv), letter_index(l));
    assert(candidate_letter(n, iv, 0) == l);
    let d = candidate_diff(n, iv, 0);
    let off = accidental_offset(a);
    assert(d == (o + 1) * 12 + off);
    vstd::arithmetic::div_mod::lemma_fundamental_div_mod_converse(d + 6, 12, o + 1, off + 6);
    assert(candidate_octave(n, iv, 0) == o);
    assert(candidate_offset(n, iv, 0) == off);
    assert(candidate_fits(n, iv, 0)) by {
        reveal(candidate_fits);
    }
    assert(spelling_step(n, iv) == 0);
    assert(accidental_with_offset(off) == a);
}

/// The offset the preferred letter needs, from the letters, the accidental
/// and the interval alone.
proof fn lemma_preferred_offset(n: NoteView, iv: IntervalView)
    ensures
        candidate_offset(n, iv, 0) == (letter_semitone(n.letter) + accidental_offset(n.accidental)
            + iv.semitones - letter_semitone(candidate_letter(n, iv, 0)) + 6) % 12 - 6,
{
    let c = letter_semitone(n.letter) + accidental_offset(n.accidental) + iv.semitones
        - letter_semitone(candidate_letter(n, iv, 0));
    let d = candidate_diff(n, iv, 0);
    assert(d == 12 * (n.octave + 1) + c);
    vstd::arithmetic::div_mod::lemma_fundamental_div_mod(c + 6, 12);
    vstd::arithmetic::div_mod::lemma_fundamental_div_mod_converse(
        d + 6,
        12,
        n.octave + 1 + (c + 6) / 12,
        (c + 6) % 12,
    );
}

/// The intervals that chords and the major scale are built from.
pub open spec fn is_named_interval(iv: IntervalView) -> bool {
    ||| iv == IntervalView::unison()
    ||| iv == IntervalView::major_second()
    ||| iv == IntervalView::minor_third()
    ||| iv == IntervalView::major_third()
    ||| iv == IntervalView::perfect_fourth()
    ||| iv == IntervalView::diminished_fifth()
    ||| iv == IntervalView::perfect_fifth()
    ||| iv == IntervalView::major_sixth()
    ||| iv == IntervalView::diminished_seventh()
    ||| iv == IntervalView::minor_seventh()
    ||| iv == IntervalView::major_seventh()
}

proof fn lemma_named_interval_fits(l: Letter, off: int, iv: IntervalView)
    requires
        -1 <= off <= 1,
        is_named_interval(iv),
        iv == IntervalView::diminished_seventh() ==> off >= 0,
    ensures
        -2 <= (letter_semitone(l) + off + iv.semitones - letter_semitone(
            letter_at(letter_index(l) + iv.letter_steps),
        ) + 6) % 12 - 6 <= 2,
{
    let t = letter_at(letter_index(l) + iv.letter_steps);
    let c = letter_semitone(l) + off + iv.semitones - letter_semitone(t);
    // the natural distance between the two letters is within one semitone
    // of the interval (two below for the diminished seventh)
    assert(-2 <= (c + 6) % 12 - 6 <= 2) by {
        match l {
            Letter::A => {},
            Letter::B => {},
            Letter::C => {},
            Letter::D => {},
            Letter::E => {},
            Letter::F => {},
            Letter::G => {},
        }
    }
}

/// Above a note with at most a single flat or sharp, every named interval
/// is written on the letter `letter_steps` above the note's letter (so the
/// minor third above C is an E, a flat one); the one exception is the
/// diminished seventh above a flat, which would need a triple flat.
pub proof fn named_intervals_keep_their_letter(n: NoteView, iv: IntervalView)
    requires
        -1 <= accidental_offset(n.accidental) <= 1,
        is_named_interval(iv),
        iv == IntervalView::diminished_seventh() ==> accidental_offset(n.accidental) >= 0,
    ensures
        letter_index(spelled(n, iv).letter) == (letter_index(n.letter) + iv.letter_steps) % 7,
        spelled(n, iv).pitch_class() == (n.pitch_class() + iv.semitones) % 12,
{
    lemma_preferred_offset(n, iv);
    lemma_letter_at_mod(letter_index(n.letter) + iv.letter_steps, spelling_base(n, iv));
    assert(candidate_letter(n, iv, 0) == letter_at(letter_index(n.letter) + iv.letter_steps));
    lemma_named_interval_fits(n.letter, accidental_offset(n.accidental), iv);
    assert(candidate_fits(n, iv, 0)) by {
        reveal(candidate_fits);
    }
    assert(spelling_step(n, iv) == 0);
    lemma_index_of_letter_at(spelling_base(n, iv));
    interval_moves_pitch_class(n, iv);
}

} // verus!
