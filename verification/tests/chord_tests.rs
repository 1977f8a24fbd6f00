use kvothe::music::chords::{Chord, ChordType, all_chords};
use kvothe::music::note::{Accidental, Letter, Note};
use kvothe::music::scale::major_scale;

fn chord(letter: Letter, acc: Accidental, octave: i8, ct: ChordType) -> Chord {
    Chord {
        root: Note::new(letter, acc, octave),
        chord_type: ct,
    }
}

fn semitones(c: &Chord) -> Vec<i32> {
    c.notes().iter().map(|n| n.semitone()).collect()
}

#[test]
fn test_c_major_notes() {
    let c = chord(Letter::C, Accidental::Natural, 4, ChordType::Major);
    assert_eq!(semitones(&c), vec![60, 64, 67]); // C4 E4 G4
}

#[test]
fn test_c_maj7_notes() {
    let c = chord(Letter::C, Accidental::Natural, 4, ChordType::Maj7);
    assert_eq!(semitones(&c), vec![60, 64, 67, 71]); // C4 E4 G4 B4
}

#[test]
fn test_a_minor_crosses_octave() {
    let c = chord(Letter::A, Accidental::Natural, 4, ChordType::Minor);
    assert_eq!(semitones(&c), vec![69, 72, 76]); // A4 C5 E5
}

#[test]
fn test_c_dim7_double_flat() {
    let c = chord(Letter::C, Accidental::Natural, 4, ChordType::Dim7);
    assert_eq!(semitones(&c), vec![60, 63, 66, 69]); // C Eb Gb Bbb
}

#[test]
fn test_d_sharp_major_double_sharp() {
    let c = chord(Letter::D, Accidental::Sharp, 4, ChordType::Major);
    assert_eq!(semitones(&c), vec![63, 67, 70]); // D#4 F##4 A#4
}

#[test]
fn test_triads_have_three_notes() {
    for ct in [ChordType::Major, ChordType::Minor, ChordType::Dim] {
        assert_eq!(
            chord(Letter::C, Accidental::Natural, 4, ct).notes().len(),
            3
        );
    }
}

#[test]
fn test_sevenths_have_four_notes() {
    for ct in [
        ChordType::Maj7,
        ChordType::Dom7,
        ChordType::Min7,
        ChordType::MinMaj7,
        ChordType::HalfDim7,
        ChordType::Dim7,
    ] {
        assert_eq!(
            chord(Letter::C, Accidental::Natural, 4, ct).notes().len(),
            4
        );
    }
}

#[test]
fn test_c_major_pitch_classes() {
    let c = chord(Letter::C, Accidental::Natural, 4, ChordType::Major);
    assert_eq!(c.pitch_classes(), vec![0, 4, 7]); // C E G
}

#[test]
fn test_pitch_classes_octave_independent() {
    let low = chord(Letter::C, Accidental::Natural, 2, ChordType::Maj7);
    let high = chord(Letter::C, Accidental::Natural, 6, ChordType::Maj7);
    assert_eq!(low.pitch_classes(), high.pitch_classes());
}

#[test]
fn test_double_flat_dim7_does_not_panic() {
    let c = chord(Letter::C, Accidental::DoubleFlat, 4, ChordType::Dim7);
    assert_eq!(c.pitch_classes(), vec![10, 1, 4, 7]);
}

#[test]
fn test_all_chords_do_not_panic() {
    for chord in all_chords() {
        chord.notes();
    }
}

#[test]
fn test_c_major_scale() {
    let scale = major_scale(&Note::new(Letter::C, Accidental::Natural, 4));
    let pitches: Vec<i32> = scale.iter().map(|n| n.semitone()).collect();
    assert_eq!(pitches, vec![60, 62, 64, 65, 67, 69, 71]);
}

#[test]
fn f_sharp_major_scale_is_spelled_with_e_sharp() {
    let scale = major_scale(&Note::new(Letter::F, Accidental::Sharp, 3));
    let names: Vec<String> = scale.iter().map(|n| n.name()).collect();
    assert_eq!(names, vec!["F#", "G#", "A#", "B", "C#", "D#", "E#"]);
    let pitches: Vec<i32> = scale.iter().map(|n| n.semitone()).collect();
    assert_eq!(pitches, vec![54, 56, 58, 59, 61, 63, 65]);
}

#[test]
fn chord_starts_at_root() {
    let c = chord(Letter::G, Accidental::Flat, 1, ChordType::HalfDim7);
    let notes = c.notes();
    assert_eq!(notes[0].name(), "Gb");
    assert_eq!(notes[0].semitone(), c.root.semitone());
}

#[test]
fn half_diminished_spelling() {
    let c = chord(Letter::B, Accidental::Natural, 3, ChordType::HalfDim7);
    let names: Vec<String> = c.notes().iter().map(|n| n.name()).collect();
    assert_eq!(names, vec!["B", "D", "F", "A"]);
    assert_eq!(c.pitch_classes(), vec![11, 2, 5, 9]);
}

#[test]
fn chroma_mask_marks_the_chord_tones() {
    let c = chord(Letter::C, Accidental::Natural, 4, ChordType::Major);
    let mut expected = [false; 12];
    expected[0] = true;
    expected[4] = true;
    expected[7] = true;
    assert_eq!(c.chroma_mask(), expected);

    let d7 = chord(Letter::C, Accidental::Natural, 4, ChordType::Dom7);
    assert_eq!(d7.chroma_mask().iter().filter(|b| **b).count(), 4);
}

#[test]
fn chord_names() {
    assert_eq!(chord(Letter::C, Accidental::Natural, 4, ChordType::Major).name(), "C");
    assert_eq!(chord(Letter::C, Accidental::Sharp, 4, ChordType::Min7).name(), "C#m7");
    assert_eq!(chord(Letter::A, Accidental::Flat, 4, ChordType::MinMaj7).name(), "Abm(maj7)");
    assert_eq!(chord(Letter::B, Accidental::Natural, 4, ChordType::HalfDim7).name(), "Bm7b5");
    assert_eq!(chord(Letter::E, Accidental::Natural, 4, ChordType::Dim7).name(), "Edim7");
    assert_eq!(chord(Letter::E, Accidental::Natural, 4, ChordType::Dim).name(), "Edim");
    assert_eq!(chord(Letter::F, Accidental::Natural, 4, ChordType::Maj7).name(), "Fmaj7");
    assert_eq!(chord(Letter::G, Accidental::Natural, 4, ChordType::Dom7).name(), "G7");
    assert_eq!(chord(Letter::D, Accidental::Natural, 4, ChordType::Minor).name(), "Dm");
}

#[test]
fn all_chords_has_one_spelling_per_pitch_class() {
    let chords = all_chords();
    assert_eq!(chords.len(), 108);
    for (i, c) in chords.iter().enumerate() {
        assert_eq!(c.root.pitch_class() as usize, i / 9);
        assert_eq!(c.root.semitone(), 60 + (i / 9) as i32);
    }
    assert_eq!(chords[0].name(), "C");
    assert_eq!(chords[8].name(), "Cm7b5");
    assert_eq!(chords[9].name(), "C#");
    assert_eq!(chords[107].name(), "Bm7b5");
    for i in 0..chords.len() {
        for j in 0..chords.len() {
            if i != j {
                assert!(chords[i].name() != chords[j].name());
            }
        }
    }
}

#[test]
fn chord_new_keeps_root_and_type() {
    let root = Note::new(Letter::E, Accidental::Flat, 3);
    let c = Chord::new(root, ChordType::Dom7);
    assert_eq!(c.root.name(), "Eb");
    assert_eq!(c.root.semitone(), 51);
    assert_eq!(c.name(), "Eb7");
}
