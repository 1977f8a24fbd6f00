use vstd::prelude::*;

verus! {

/// A musical interval: how many letter names it spans and how many
/// semitones it covers.
#[derive(Clone, Copy)]
pub struct Interval {
    pub(crate) letter_steps: u8,
    pub(crate) semitones: u8,
}

/// The value an interval stands for.
pub struct IntervalView {
    pub letter_steps: u8,
    pub semitones: u8,
}

impl View for Interval {
    type V = IntervalView;

    closed spec fn view(&self) -> IntervalView {
        IntervalView { letter_steps: self.letter_steps, semitones: self.semitones }
    }
}

impl IntervalView {
    pub open spec fn unison() -> IntervalView {
        IntervalView { letter_steps: 0, semitones: 0 }
    }

    pub open spec fn major_second() -> IntervalView {
        IntervalView { letter_steps: 1, semitones: 2 }
    }

    pub open spec fn minor_third() -> IntervalView {
        IntervalView { letter_steps: 2, semitones: 3 }
    }

    pub open spec fn major_third() -> IntervalView {
        IntervalView { letter_steps: 2, semitones: 4 }
    }

    pub open spec fn perfect_fourth() -> IntervalView {
        IntervalView { letter_steps: 3, semitones: 5 }
    }

    pub open spec fn diminished_fifth() -> IntervalView {
        IntervalView { letter_steps: 4, semitones: 6 }
    }

    pub open spec fn perfect_fifth() -> IntervalView {
        IntervalView { letter_steps: 4, semitones: 7 }
    }

    pub open spec fn major_sixth() -> IntervalView {
        IntervalView { letter_steps: 5, semitones: 9 }
    }

    pub open spec fn diminished_seventh() -> IntervalView {
        IntervalView { letter_steps: 6, semitones: 9 }
    }

    pub open spec fn minor_seventh() -> IntervalView {
        IntervalView { letter_steps: 6, semitones: 10 }
    }

    pub open spec fn major_seventh() -> IntervalView {
        IntervalView { letter_steps: 6, semitones: 11 }
    }

    /// An interval that stays within one octave of letter names.
    pub open spec fn within_octave(self) -> bool {
        self.letter_steps < 7
    }
}

impl Interval {
    pub fn unison() -> (iv: Interval)
        ensures
            iv@ == IntervalView::unison(),
    {
        Interval { letter_steps: 0, semitones: 0 }
    }

    pub fn major_second() -> (iv: Interval)
        ensures
            iv@ == IntervalView::major_second(),
    {
        Interval { letter_steps: 1, semitones: 2 }
    }

    pub fn minor_third() -> (iv: Interval)
        ensures
            iv@ == IntervalView::minor_third(),
    {
        Interval { letter_steps: 2, semitones: 3 }
    }

    pub fn major_third() -> (iv: Interval)
        ensures
            iv@ == IntervalView::major_third(),
    {
        Interval { letter_steps: 2, semitones: 4 }
    }

    pub fn perfect_fourth() -> (iv: Interval)
        ensures
            iv@ == IntervalView::perfect_fourth(),
    {
        Interval { letter_steps: 3, semitones: 5 }
    }

    pub fn diminished_fifth() -> (iv: Interval)
        ensures
            iv@ == IntervalView::diminished_fifth(),
    {
        Interval { letter_steps: 4, semitones: 6 }
    }

    pub fn perfect_fifth() -> (iv: Interval)
        ensures
            iv@ == IntervalView::perfect_fifth(),
    {
        Interval { letter_steps: 4, semitones: 7 }
    }

    pub fn major_sixth() -> (iv: Interval)
        ensures
            iv@ == IntervalView::major_sixth(),
    {
        Interval { letter_steps: 5, semitones: 9 }
    }

    pub fn diminished_seventh() -> (iv: Interval)
        ensures
            iv@ == IntervalView::diminished_seventh(),
    {
        Interval { letter_steps: 6, semitones: 9 }
    }

    pub fn minor_seventh() -> (iv: Interval)
        ensures
            iv@ == IntervalView::minor_seventh(),
    {
        Interval { letter_steps: 6, semitones: 10 }
    }

    pub fn major_seventh() -> (iv: Interval)
        ensures
            iv@ == IntervalView::major_seventh(),
    {
        Interval { letter_steps: 6, semitones: 11 }
    }

    /// The number of letter names the interval moves up.
    pub fn letter_steps(&self) -> (n: u8)
        ensures
            n == self@.letter_steps,
    {
        self.letter_steps
    }

    /// The number of semitones the interval moves up.
    pub fn semitones(&self) -> (n: u8)
        ensures
            n == self@.semitones,
    {
        self.semitones
    }
}

} // verus!
