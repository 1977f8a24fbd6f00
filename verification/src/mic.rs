use vstd::prelude::*;

verus! {

/// What an audio input delivers: samples per second and interleaved
/// channels per frame.
#[derive(Debug, Clone, Copy)]
pub struct CaptureInfo {
    pub sample_rate: usize,
    pub channels: usize,
}

} // verus!
