use kvothe::music::interval::Interval;
use kvothe::music::note::{Accidental, Letter, Note};

#[test]
fn test_semitone_a4_is_69() {
    let a4 = Note::new(Letter::A, Accidental::Natural, 4);
    assert_eq!(a4.semitone(), 69)
}

#[test]
fn test_semitone_ab4_is_68() {
    let ab4 = Note::new(Letter::A, Accidental::Flat, 4);
    assert_eq!(ab4.semitone(), 68)
}

#[test]
fn test_a4_enharmonic_bb4() {
    let bb4 = Note::new(Letter::B, Accidental::DoubleFlat, 4);
    let a4 = Note::new(Letter::A, Accidental::Natural, 4);

    assert!(a4.is_enharmonic(&bb4));
}

#[test]
fn test_bs5_enharmonic_c6() {
    let bs5 = Note::new(Letter::B, Accidental::Sharp, 5);
    let c6 = Note::new(Letter::C, Accidental::Natural, 6);

    assert!(bs5.is_enharmonic(&c6));
}

#[test]
fn semitone_of_lowest_and_highest_octaves() {
    let c_low = Note::new(Letter::C, Accidental::DoubleFlat, -128);
    assert_eq!(c_low.semitone(), -127 * 12 - 2);
    let b_high = Note::new(Letter::B, Accidental::DoubleSharp, 127);
    assert_eq!(b_high.semitone(), 128 * 12 + 13);
}

#[test]
fn notes_a_semitone_apart_are_not_enharmonic() {
    let c4 = Note::new(Letter::C, Accidental::Natural, 4);
    let cs4 = Note::new(Letter::C, Accidental::Sharp, 4);
    assert!(!c4.is_enharmonic(&cs4));
    assert!(c4.is_enharmonic(&c4));
}

#[test]
fn pitch_class_wraps_below_c() {
    // C-flat 4 sounds as B3
    let cb4 = Note::new(Letter::C, Accidental::Flat, 4);
    assert_eq!(cb4.pitch_class(), 11);
    let c_low = Note::new(Letter::C, Accidental::DoubleFlat, -128);
    assert_eq!(c_low.pitch_class(), 10);
    assert_eq!(Note::new(Letter::A, Accidental::Natural, 4).pitch_class(), 9);
}

#[test]
fn interval_keeps_the_preferred_letter() {
    let c4 = Note::new(Letter::C, Accidental::Natural, 4);
    let e4 = c4.interval(Interval::major_third());
    assert_eq!(e4.name(), "E");
    assert_eq!(e4.semitone(), 64);

    let ds4 = Note::new(Letter::D, Accidental::Sharp, 4);
    let fss4 = ds4.interval(Interval::major_third());
    assert_eq!(fss4.name(), "F##");
    assert_eq!(fss4.semitone(), 67);

    let bbb = c4.interval(Interval::diminished_seventh());
    assert_eq!(bbb.name(), "Bbb");
    assert_eq!(bbb.semitone(), 69);
}

#[test]
fn interval_falls_back_to_a_neighbouring_letter() {
    // B## is C#; a major third above it cannot be written on D with at most
    // a double sharp (D### would be needed), so the next letter, E#, is used.
    let bss3 = Note::new(Letter::B, Accidental::DoubleSharp, 3);
    let third = bss3.interval(Interval::major_third());
    assert_eq!(third.name(), "E#");
    assert_eq!(third.semitone(), bss3.semitone() + 4);
}

#[test]
fn interval_crosses_the_octave() {
    let b4 = Note::new(Letter::B, Accidental::Natural, 4);
    let ds5 = b4.interval(Interval::major_third());
    assert_eq!(ds5.name(), "D#");
    assert_eq!(ds5.semitone(), 75);
}

#[test]
fn interval_wraps_the_octave_number_past_127() {
    // The octave is stored as an i8: going above octave 127 wraps to -128,
    // which keeps the pitch class.
    let b127 = Note::new(Letter::B, Accidental::Natural, 127);
    let up = b127.interval(Interval::perfect_fifth());
    assert_eq!(up.name(), "F#");
    assert_eq!(up.semitone(), (-128 + 1) * 12 + 6);
    assert_eq!(up.pitch_class(), (b127.pitch_class() + 7) % 12);
}

#[test]
fn unison_gives_back_the_note() {
    let n = Note::new(Letter::G, Accidental::DoubleFlat, -3);
    let same = n.interval(Interval::unison());
    assert_eq!(same.name(), "Gbb");
    assert_eq!(same.semitone(), n.semitone());
}

#[test]
fn note_names() {
    assert_eq!(Note::new(Letter::A, Accidental::Natural, 4).name(), "A");
    assert_eq!(Note::new(Letter::B, Accidental::Flat, 4).name(), "Bb");
    assert_eq!(Note::new(Letter::C, Accidental::Sharp, 4).name(), "C#");
    assert_eq!(Note::new(Letter::D, Accidental::DoubleFlat, 4).name(), "Dbb");
    assert_eq!(Note::new(Letter::F, Accidental::DoubleSharp, 0).name(), "F##");
}

#[test]
fn interval_semitones_and_letter_steps() {
    let iv = Interval::minor_seventh();
    assert_eq!(iv.semitones(), 10);
    assert_eq!(iv.letter_steps(), 6);
    assert_eq!(Interval::major_sixth().semitones(), 9);
    assert_eq!(Interval::perfect_fourth().letter_steps(), 3);
}
