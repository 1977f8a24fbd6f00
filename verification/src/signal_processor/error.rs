use vstd::prelude::*;

verus! {

/// Why a signal could not be processed.
#[derive(Debug, Clone, Copy, PartialEq, Eq, Structural)]
pub enum SignalError {
    InvalidSampleRate,
    InvalidNumberOfSamples,
    ProcessorLockError,
    EmptySpectrum,
    EmptySignal,
}

/// The text that describes each error.
pub open spec fn signal_error_message(e: SignalError) -> Seq<char> {
    match e {
        SignalError::InvalidSampleRate => "Sample rate must be positive"@,
        SignalError::InvalidNumberOfSamples => "FFT size must be positive"@,
        SignalError::ProcessorLockError => "Failed to acquire processor lock"@,
        SignalError::EmptySpectrum => "Spectrum is empty"@,
        SignalError::EmptySignal => "Signal is empty"@,
    }
}

impl SignalError {
    /// The text that describes the error.
    pub fn message(&self) -> (s: &'static str)
        ensures
            s@ == signal_error_message(*self),
    {
        match self {
            SignalError::InvalidSampleRate => "Sample rate must be positive",
            SignalError::InvalidNumberOfSamples => "FFT size must be positive",
            SignalError::ProcessorLockError => "Failed to acquire processor lock",
            SignalError::EmptySpectrum => "Spectrum is empty",
            SignalError::EmptySignal => "Signal is empty",
        }
    }
}

} // verus!
