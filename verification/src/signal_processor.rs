use vstd::prelude::*;

pub mod error;

pub use error::SignalError;

verus! {

/// The settings of a signal processor: the sample rate of the signal and
/// the number of samples each FFT frame holds.  Both are positive.
pub struct SignalProcessor {
    sample_rate: usize,
    fft_size: usize,
}

/// The value a signal processor stands for.
pub struct SignalProcessorView {
    pub sample_rate: usize,
    pub fft_size: usize,
}

impl View for SignalProcessor {
    type V = SignalProcessorView;

    closed spec fn view(&self) -> SignalProcessorView {
        SignalProcessorView { sample_rate: self.sample_rate, fft_size: self.fft_size }
    }
}

impl SignalProcessor {
    #[verifier::type_invariant]
    spec fn settings_are_positive(self) -> bool {
        self.sample_rate > 0 && self.fft_size > 0
    }

    /// A processor for signals sampled at `sample_rate` and analysed in
    /// frames of `fft_size` samples.  A zero sample rate is reported first,
    /// then a zero frame size.
    pub fn new(sample_rate: usize, fft_size: usize) -> (r: Result<SignalProcessor, SignalError>)
        ensures
            sample_rate == 0 ==> r == Err::<SignalProcessor, SignalError>(
                SignalError::InvalidSampleRate,
            ),
            sample_rate != 0 && fft_size == 0 ==> r == Err::<SignalProcessor, SignalError>(
                SignalError::InvalidNumberOfSamples,
            ),
            sample_rate != 0 && fft_size != 0 ==> (r matches Ok(p) && p@ == (SignalProcessorView {
                sample_rate,
                fft_size,
            })),
    {
        if sample_rate == 0 {
            return Err(SignalError::InvalidSampleRate);
        }
        if fft_size == 0 {
            return Err(SignalError::InvalidNumberOfSamples);
        }
        Ok(SignalProcessor { sample_rate, fft_size })
    }

    pub fn sample_rate(&self) -> (n: usize)
        ensures
            n == self@.sample_rate,
            n > 0,
    {
        proof {
            use_type_invariant(self);
        }
        self.sample_rate
    }

    pub fn fft_size(&self) -> (n: usize)
        ensures
            n == self@.fft_size,
            n > 0,
    {
        proof {
            use_type_invariant(self);
        }
        self.fft_size
    }

    /// The check an FFT input goes through: it must hold exactly one frame.
    pub fn check_frame(&self, len: usize) -> (r: Result<(), SignalError>)
        ensures
            r is Ok <==> len == self@.fft_size,
            r is Err ==> r == Err::<(), SignalError>(SignalError::InvalidNumberOfSamples),
    {
        if len != self.fft_size {
            return Err(SignalError::InvalidNumberOfSamples);
        }
        Ok(())
    }

    /// How many bins of a spectrum of `len` bins carry distinct
    /// magnitudes for a real signal: the lower half.  An empty spectrum is
    /// refused.
    pub fn spectrum_bins(&self, len: usize) -> (r: Result<usize, SignalError>)
        ensures
            len == 0 ==> r == Err::<usize, SignalError>(SignalError::EmptySpectrum),
            len != 0 ==> r == Ok::<usize, SignalError>(len / 2),
    {
        if len == 0 {
            return Err(SignalError::EmptySpectrum);
        }
        Ok(len / 2)
    }

    /// The check a signal goes through before peak picking or a
    /// chromagram: it must not be empty.
    pub fn check_signal(&self, len: usize) -> (r: Result<(), SignalError>)
        ensures
            len == 0 ==> r == Err::<(), SignalError>(SignalError::EmptySignal),
            len != 0 ==> r is Ok,
    {
        if len == 0 {
            return Err(SignalError::EmptySignal);
        }
        Ok(())
    }

    /// The chroma bin (pitch class) a rounded MIDI note number falls in.
    pub fn chroma_bin(midi: i64) -> (b: usize)
        ensures
            b == midi % 12,
            b < 12,
    {
        match midi.checked_rem_euclid(12) {
            Some(r) => r as usize,
            None => 0,
        }
    }
}

} // verus!
