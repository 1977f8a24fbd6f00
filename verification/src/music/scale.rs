use vstd::prelude::*;

use crate::music::interval::{Interval, IntervalView};
use crate::music::note::{
    Note, NoteView, accidental_offset, interval_moves_pitch_class, is_named_interval, letter_index,
    named_intervals_keep_their_letter, spelled,
};

verus! {

/// The intervals of the major scale above its tonic.
pub open spec fn major_scale_intervals() -> Seq<IntervalView> {
    seq![
        IntervalView::unison(),
        IntervalView::major_second(),
        IntervalView::major_third(),
        IntervalView::perfect_fourth(),
        IntervalView::perfect_fifth(),
        IntervalView::major_sixth(),
        IntervalView::major_seventh(),
    ]
}

/// The spelled notes of the major scale on `root`.
pub open spec fn major_scale_notes(root: NoteView) -> Seq<NoteView> {
    major_scale_intervals().map_values(|iv: IntervalView| spelled(root, iv))
}

fn major_scale_interval_at(i: usize) -> (iv: Interval)
    requires
        i < 7,
    ensures
        iv@ == major_scale_intervals()[i as int],
{
    match i {
        0 => Interval::unison(),
        1 => Interval::major_second(),
        2 => Interval::major_third(),
        3 => Interval::perfect_fourth(),
        4 => Interval::perfect_fifth(),
        5 => Interval::major_sixth(),
        _ => Interval::major_seventh(),
    }
}

/// The seven notes of the major scale on `root`, spelled from the root.
pub fn major_scale(root: &Note) -> (v: Vec<Note>)
    ensures
        v@.len() == 7,
        forall|i: int| 0 <= i < 7 ==> (#[trigger] v@[i])@ == major_scale_notes(root@)[i],
{
    let mut v: Vec<Note> = Vec::new();
    let mut i: usize = 0;
    while i < 7
        invariant
            0 <= i <= 7,
            v@.len() == i,
            forall|j: int| 0 <= j < i ==> (#[trigger] v@[j])@ == major_scale_notes(root@)[j],
        decreases 7 - i,
    {
        let iv = major_scale_interval_at(i);
        assert(0 <= letter_index(root@.letter) <= 6);
        v.push(root.interval(iv));
        i = i + 1;
    }
    v
}

/// The degrees of a major scale lie 0, 2, 4, 5, 7, 9 and 11 semitones
/// above the root, as pitch classes, whatever the root's spelling and
/// octave.
pub proof fn major_scale_pitch_classes(root: NoteView, i: int)
    requires
        0 <= i < 7,
    ensures
        major_scale_notes(root)[i].pitch_class() == (root.pitch_class()
            + major_scale_intervals()[i].semitones) % 12,
        major_scale_intervals()[i].semitones == seq![0int, 2, 4, 5, 7, 9, 11][i],
{
    interval_moves_pitch_class(root, major_scale_intervals()[i]);
}

/// A major scale on a root with at most a single flat or sharp uses every
/// letter once, in order: degree `i` is written `i` letters above the root.
pub proof fn major_scale_uses_each_letter(root: NoteView, i: int)
    requires
        -1 <= accidental_offset(root.accidental) <= 1,
        0 <= i < 7,
    ensures
        letter_index(major_scale_notes(root)[i].letter) == (letter_index(root.letter) + i) % 7,
{
    let iv = major_scale_intervals()[i];
    assert(is_named_interval(iv));
    assert(iv.letter_steps == i);
    named_intervals_keep_their_letter(root, iv);
}

} // verus!
