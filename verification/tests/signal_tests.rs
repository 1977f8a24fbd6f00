use kvothe::history::WaveformHistory;
use kvothe::mic::CaptureInfo;
use kvothe::recognizer::{FFT_SIZE, HOP_SIZE, Recognizer};
use kvothe::signal_processor::{SignalError, SignalProcessor};

#[test]
fn signal_processor_stores_params() {
    let p = SignalProcessor::new(48_000, 1024).expect("Failed to create processor");
    assert_eq!(p.sample_rate(), 48_000);
    assert_eq!(p.fft_size(), 1024);
}

#[test]
fn signal_processor_refuses_zero_sample_rate_first() {
    assert!(matches!(SignalProcessor::new(0, 200), Err(SignalError::InvalidSampleRate)));
    assert!(matches!(SignalProcessor::new(0, 0), Err(SignalError::InvalidSampleRate)));
}

#[test]
fn signal_processor_refuses_zero_fft_size() {
    assert!(matches!(
        SignalProcessor::new(1000, 0),
        Err(SignalError::InvalidNumberOfSamples)
    ));
}

#[test]
fn frame_check_wants_exactly_one_frame() {
    let p = SignalProcessor::new(1000, 200).unwrap();
    assert!(p.check_frame(200).is_ok());
    assert_eq!(p.check_frame(201), Err(SignalError::InvalidNumberOfSamples));
    assert_eq!(p.check_frame(0), Err(SignalError::InvalidNumberOfSamples));
}

#[test]
fn spectrum_bins_are_the_lower_half() {
    let p = SignalProcessor::new(1000, 200).unwrap();
    assert_eq!(p.spectrum_bins(200), Ok(100));
    assert_eq!(p.spectrum_bins(201), Ok(100));
    assert_eq!(p.spectrum_bins(1), Ok(0));
    assert_eq!(p.spectrum_bins(0), Err(SignalError::EmptySpectrum));
}

#[test]
fn empty_signal_is_refused() {
    let p = SignalProcessor::new(1000, 200).unwrap();
    assert_eq!(p.check_signal(0), Err(SignalError::EmptySignal));
    assert!(p.check_signal(5).is_ok());
}

#[test]
fn chroma_bin_folds_midi_numbers() {
    assert_eq!(SignalProcessor::chroma_bin(69), 9);
    assert_eq!(SignalProcessor::chroma_bin(60), 0);
    assert_eq!(SignalProcessor::chroma_bin(-1), 11);
    assert_eq!(SignalProcessor::chroma_bin(-13), 11);
    assert_eq!(SignalProcessor::chroma_bin(i64::MIN), 4);
}

#[test]
fn error_messages() {
    assert_eq!(SignalError::InvalidSampleRate.message(), "Sample rate must be positive");
    assert_eq!(SignalError::InvalidNumberOfSamples.message(), "FFT size must be positive");
    assert_eq!(SignalError::ProcessorLockError.message(), "Failed to acquire processor lock");
    assert_eq!(SignalError::EmptySpectrum.message(), "Spectrum is empty");
    assert_eq!(SignalError::EmptySignal.message(), "Signal is empty");
}

#[test]
fn recognizer_needs_a_sample_rate() {
    let r = Recognizer::<i32>::new(CaptureInfo { sample_rate: 0, channels: 1 }, 0);
    assert!(matches!(r, Err(SignalError::InvalidSampleRate)));
}

#[test]
fn recognizer_starts_silent() {
    let r = Recognizer::<i32>::new(CaptureInfo { sample_rate: 44_100, channels: 2 }, 0).unwrap();
    assert_eq!(r.window().len(), FFT_SIZE);
    assert!(r.window().iter().all(|s| *s == 0));
    assert_eq!(r.channels(), 2);
    assert_eq!(r.processor().sample_rate(), 44_100);
    assert_eq!(r.processor().fft_size(), FFT_SIZE);
}

#[test]
fn recognizer_hands_out_whole_hops() {
    let mut r = Recognizer::<i32>::new(CaptureInfo { sample_rate: 8_000, channels: 2 }, 0).unwrap();
    let hop = HOP_SIZE * 2;
    let first: Vec<i32> = (0..(hop as i32 - 1)).collect();
    assert!(r.push_samples(&first).is_empty());
    let second: Vec<i32> = ((hop as i32 - 1)..(3 * hop as i32 + 5)).collect();
    let hops = r.push_samples(&second);
    assert_eq!(hops.len(), 3);
    for (k, h) in hops.iter().enumerate() {
        assert_eq!(h.len(), hop);
        assert_eq!(h[0], (k * hop) as i32);
        assert_eq!(h[hop - 1], ((k + 1) * hop - 1) as i32);
    }
    let rest = r.push_samples(&[]);
    assert!(rest.is_empty());
    let more: Vec<i32> = ((3 * hop as i32 + 5)..(4 * hop as i32)).collect();
    let last = r.push_samples(&more);
    assert_eq!(last.len(), 1);
    assert_eq!(last[0], ((3 * hop as i32)..(4 * hop as i32)).collect::<Vec<i32>>());
}

#[test]
fn chunking_does_not_change_the_hops() {
    let info = CaptureInfo { sample_rate: 8_000, channels: 1 };
    let stream: Vec<i32> = (0..(5 * HOP_SIZE as i32 + 17)).collect();
    let mut whole = Recognizer::<i32>::new(info, 0).unwrap();
    let at_once = whole.push_samples(&stream);
    let mut parts = Recognizer::<i32>::new(info, 0).unwrap();
    let mut pieces = Vec::new();
    for chunk in stream.chunks(777) {
        pieces.extend(parts.push_samples(chunk));
    }
    assert_eq!(at_once, pieces);
    assert_eq!(at_once.len(), 5);
}

#[test]
fn window_slides_by_one_hop() {
    let mut r = Recognizer::<i32>::new(CaptureInfo { sample_rate: 8_000, channels: 1 }, -1).unwrap();
    let mono: Vec<i32> = (0..HOP_SIZE as i32).collect();
    r.slide_window(&mono);
    let w = r.window();
    assert_eq!(w.len(), FFT_SIZE);
    assert!(w[..FFT_SIZE - HOP_SIZE].iter().all(|s| *s == -1));
    assert_eq!(&w[FFT_SIZE - HOP_SIZE..], &mono[..]);
    let mono2: Vec<i32> = (100..100 + HOP_SIZE as i32).collect();
    r.slide_window(&mono2);
    let w = r.window();
    assert_eq!(&w[FFT_SIZE - 2 * HOP_SIZE..FFT_SIZE - HOP_SIZE], &mono[..]);
    assert_eq!(&w[FFT_SIZE - HOP_SIZE..], &mono2[..]);
}

#[test]
fn history_keeps_the_latest_samples() {
    let mut h = WaveformHistory::<i32>::new(3);
    h.extend(&[1, 2]);
    assert_eq!(h.samples().iter().copied().collect::<Vec<i32>>(), vec![1, 2]);
    h.extend(&[3, 4, 5]);
    assert_eq!(h.samples().iter().copied().collect::<Vec<i32>>(), vec![3, 4, 5]);
    h.push(6);
    assert_eq!(h.samples().iter().copied().collect::<Vec<i32>>(), vec![4, 5, 6]);
    assert_eq!(h.capacity(), 3);
}

#[test]
fn history_without_capacity_grows() {
    // With no room at all, the "full" test only drops from an empty
    // history once; after that the history grows without bound.
    let mut h = WaveformHistory::<i32>::new(0);
    h.extend(&[1, 2, 3]);
    assert_eq!(h.samples().iter().copied().collect::<Vec<i32>>(), vec![1, 2, 3]);
}
