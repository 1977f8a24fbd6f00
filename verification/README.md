# kvothe

A chord recognition tool. The library under `src/` is verified with Verus;
`app/` is the terminal program around it.

- `src/music/`: spelled notes, intervals, chords and the major scale. The
  contracts state each result over `NoteView`, `IntervalView` and the spec
  function `spelled`, and the laws (an interval adds its semitones, moves the
  pitch class, a unison keeps the note, chord pitch classes ignore the
  octave, the chord catalogue has no enharmonic duplicates) are proof
  functions beside them.
- `src/signal_processor.rs`: the settings of the spectral analysis and the
  checks on lengths, with the errors they give.
- `src/recognizer.rs`: gathering interleaved samples into whole hops and
  sliding the analysis window.
- `src/history.rs`: the bounded waveform history.
- `src/mic.rs`: what an audio input reports.
- `app/`: microphone capture (cpal), the FFT and chromagram (rustfft, floating
  point), chord scoring and the terminal UI (ratatui, crossterm).
