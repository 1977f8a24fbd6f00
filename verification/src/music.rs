pub mod chords;
pub mod interval;
pub mod note;
pub mod scale;
