//! Music theory and the integer side of real-time chord recognition:
//! spelled notes, intervals, chords and scales, the settings and checks of
//! the spectral analysis, and the buffering that feeds it.
pub mod history;
pub mod mic;
pub mod music;
pub mod recognizer;
pub mod signal_processor;
