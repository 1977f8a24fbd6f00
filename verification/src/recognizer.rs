use vstd::prelude::*;

use crate::mic::CaptureInfo;
use crate::signal_processor::{SignalError, SignalProcessor, SignalProcessorView};

verus! {

/// Samples in the analysis window (one FFT frame).
pub const FFT_SIZE: usize = 8192;

/// Mono samples the window advances by for each analysis.
pub const HOP_SIZE: usize = 2048;

/// The buffering side of streaming chord analysis over interleaved samples
/// of type `T`.  Samples arrive in chunks of any length; they are gathered
/// until whole hops (`HOP_SIZE` frames of all channels) are available, and
/// the analysis window slides over the down-mixed hops.
pub struct Recognizer<T> {
    processor: SignalProcessor,
    channels: usize,
    acc: Vec<T>,
    window: Vec<T>,
}

/// The value a recognizer stands for: its processor settings, its channel
/// count, the samples still waiting for a whole hop, and the analysis
/// window.
pub struct RecognizerView<T> {
    pub processor: SignalProcessorView,
    pub channels: usize,
    pub pending: Seq<T>,
    pub window: Seq<T>,
}

impl<T> View for Recognizer<T> {
    type V = RecognizerView<T>;

    closed spec fn view(&self) -> RecognizerView<T> {
        RecognizerView {
            processor: self.processor@,
            channels: self.channels,
            pending: self.acc@,
            window: self.window@,
        }
    }
}

/// Interleaved samples in one hop of `channels` channels.
pub open spec fn hop_len(channels: int) -> int {
    HOP_SIZE * channels
}

/// The window after sliding one hop of mono samples into it: the oldest
/// `HOP_SIZE` samples leave, `mono` is appended.
pub open spec fn slid_window<T>(window: Seq<T>, mono: Seq<T>) -> Seq<T> {
    window.subrange(HOP_SIZE as int, window.len() as int) + mono
}

impl<T> Recognizer<T> {
    #[verifier::type_invariant]
    spec fn window_is_one_frame(self) -> bool {
        self.window@.len() == FFT_SIZE
    }
}

impl<T: Copy> Recognizer<T> {
    /// A recognizer for the given input, analysing frames of `FFT_SIZE`
    /// samples; `silence` fills the window before any sound arrives.
    /// Fails as `SignalProcessor::new` does when the sample rate is zero.
    pub fn new(info: CaptureInfo, silence: T) -> (r: Result<Recognizer<T>, SignalError>)
        ensures
            info.sample_rate == 0 ==> (r matches Err(e) && e == SignalError::InvalidSampleRate),
            info.sample_rate != 0 ==> (r matches Ok(rec) && rec@.processor == (SignalProcessorView {
                sample_rate: info.sample_rate,
                fft_size: FFT_SIZE,
            }) && rec@.channels == info.channels && rec@.pending == Seq::<T>::empty()
                && rec@.window == Seq::new(FFT_SIZE as nat, |i: int| silence)),
    {
        let processor = match SignalProcessor::new(info.sample_rate, FFT_SIZE) {
            Ok(p) => p,
            Err(e) => {
                return Err(e);
            },
        };
        let mut window: Vec<T> = Vec::new();
        let mut i: usize = 0;
        while i < FFT_SIZE
            invariant
                0 <= i <= FFT_SIZE,
                window@ == Seq::new(i as nat, |j: int| silence),
            decreases FFT_SIZE - i,
        {
            window.push(silence);
            i = i + 1;
        }
        Ok(Recognizer { processor, channels: info.channels, acc: Vec::new(), window })
    }

    pub fn processor(&self) -> (p: &SignalProcessor)
        ensures
            p@ == self@.processor,
    {
        &self.processor
    }

    pub fn channels(&self) -> (n: usize)
        ensures
            n == self@.channels,
    {
        self.channels
    }

    /// How many samples wait for a whole hop.
    pub fn pending_len(&self) -> (n: usize)
        ensures
            n == self@.pending.len(),
    {
        self.acc.len()
    }

    /// The analysis window: the last `FFT_SIZE` mono samples.
    pub fn window(&self) -> (w: &[T])
        ensures
            w@ == self@.window,
            w@.len() == FFT_SIZE,
    {
        proof {
            use_type_invariant(self);
        }
        self.window.as_slice()
    }

    /// Gathers `samples` and hands out every whole hop now available, in
    /// order; what is left waits for the next call.  Concatenated, the hops
    /// and the new pending samples are the old pending samples followed by
    /// `samples`.
    pub fn push_samples(&mut self, samples: &[T]) -> (hops: Vec<Vec<T>>)
        requires
            old(self)@.channels > 0,
            hop_len(old(self)@.channels as int) <= usize::MAX,
            old(self)@.pending.len() + samples@.len() <= usize::MAX,
        ensures
            final(self)@.processor == old(self)@.processor,
            final(self)@.channels == old(self)@.channels,
            final(self)@.window == old(self)@.window,
            forall|i: int|
                0 <= i < hops@.len() ==> (#[trigger] hops@[i])@.len() == hop_len(
                    old(self)@.channels as int,
                ),
            final(self)@.pending.len() < hop_len(old(self)@.channels as int),
            hops@.map_values(|h: Vec<T>| h@).flatten() + final(self)@.pending == old(self)@.pending
                + samples@,
    {
        proof {
            use_type_invariant(&*self);
        }
        let hop = HOP_SIZE * self.channels;
        let mut all: Vec<T> = Vec::new();
        std::mem::swap(&mut all, &mut self.acc);
        let ghost input = all@ + samples@;
        let mut i: usize = 0;
        while i < samples.len()
            invariant
                0 <= i <= samples@.len(),
                all@ == input.subrange(0, all@.len() as int),
                all@.len() + samples@.len() - i == input.len(),
                input.len() <= usize::MAX,
                input == old(self)@.pending + samples@,
            decreases samples@.len() - i,
        {
            all.push(samples[i]);
            i = i + 1;
        }
        assert(all@ == input);
        let mut hops: Vec<Vec<T>> = Vec::new();
        let mut start: usize = 0;
        while all.len() - start >= hop
            invariant
                all@ == input,
                input.len() <= usize::MAX,
                hop == hop_len(old(self)@.channels as int),
                hop > 0,
                start <= all@.len(),
                hops@.map_values(|h: Vec<T>| h@).flatten() == input.subrange(0, start as int),
                forall|j: int| 0 <= j < hops@.len() ==> (#[trigger] hops@[j])@.len() == hop,
            decreases all@.len() - start,
        {
            let mut h: Vec<T> = Vec::new();
            let mut j: usize = 0;
            while j < hop
                invariant
                    all@ == input,
                    start + hop <= all@.len(),
                    all@.len() <= usize::MAX,
                    0 <= j <= hop,
                    h@ == input.subrange(start as int, start + j),
                decreases hop - j,
            {
                h.push(all[start + j]);
                j = j + 1;
            }
            let ghost before = hops@.map_values(|x: Vec<T>| x@);
            hops.push(h);
            proof {
                assert(hops@.map_values(|x: Vec<T>| x@) =~= before.push(h@));
                before.lemma_flatten_push(h@);
                assert(input.subrange(0, start as int) + input.subrange(start as int, start + hop)
                    =~= input.subrange(0, start + hop));
            }
            start = start + hop;
        }
        let mut rest: Vec<T> = Vec::new();
        let mut j: usize = start;
        while j < all.len()
            invariant
                all@ == input,
                start <= j <= all@.len(),
                rest@ == input.subrange(start as int, j as int),
            decreases all@.len() - j,
        {
            rest.push(all[j]);
            j = j + 1;
        }
        proof {
            assert(input.subrange(0, start as int) + input.subrange(start as int, input.len() as int)
                =~= input);
        }
        self.acc = rest;
        hops
    }

    /// Slides one hop of mono samples into the analysis window.
    pub fn slide_window(&mut self, mono: &[T])
        requires
            mono@.len() == HOP_SIZE,
        ensures
            final(self)@.processor == old(self)@.processor,
            final(self)@.channels == old(self)@.channels,
            final(self)@.pending == old(self)@.pending,
            final(self)@.window == slid_window(old(self)@.window, mono@),
            final(self)@.window.len() == FFT_SIZE,
            final(self)@.window == old(self)@.window.subrange(HOP_SIZE as int, FFT_SIZE as int)
                + mono@,
    {
        proof {
            use_type_invariant(&*self);
        }
        let mut w: Vec<T> = Vec::new();
        let mut i: usize = HOP_SIZE;
        while i < FFT_SIZE
            invariant
                HOP_SIZE <= i <= FFT_SIZE,
                self.window@.len() == FFT_SIZE,
                w@ == self.window@.subrange(HOP_SIZE as int, i as int),
            decreases FFT_SIZE - i,
        {
            w.push(self.window[i]);
            i = i + 1;
        }
        let mut j: usize = 0;
        while j < HOP_SIZE
            invariant
                0 <= j <= HOP_SIZE,
                mono@.len() == HOP_SIZE,
                self.window@.len() == FFT_SIZE,
                w@ == self.window@.subrange(HOP_SIZE as int, FFT_SIZE as int) + mono@.subrange(
                    0,
                    j as int,
                ),
            decreases HOP_SIZE - j,
        {
            w.push(mono[j]);
            j = j + 1;
        }
        assert(mono@.subrange(0, HOP_SIZE as int) =~= mono@);
        self.window = w;
    }
}

/// All pieces of `hops` hold exactly `n` samples.
pub open spec fn whole_hops<T>(hops: Seq<Seq<T>>, n: int) -> bool {
    forall|i: int| 0 <= i < hops.len() ==> (#[trigger] hops[i]).len() == n
}

proof fn lemma_whole_hops_length<T>(hops: Seq<Seq<T>>, n: int)
    requires
        n > 0,
        whole_hops(hops, n),
    ensures
        hops.flatten().len() == hops.len() * n,
    decreases hops.len(),
{
    if hops.len() > 0 {
        assert(whole_hops(hops.drop_first(), n)) by {
            assert forall|i: int| 0 <= i < hops.drop_first().len() implies (
            #[trigger] hops.drop_first()[i]).len() == n by {
                assert(hops.drop_first()[i] == hops[i + 1]);
            }
        }
        lemma_whole_hops_length(hops.drop_first(), n);
        assert(hops.len() * n == (hops.len() - 1) * n + n) by (nonlinear_arith);
    }
}

/// A stream is cut into whole hops in one way only: two cuttings of the
/// same samples into hops of `n` samples, each leaving fewer than `n`
/// samples over, are the same cutting.
pub proof fn hops_are_determined<T>(
    h1: Seq<Seq<T>>,
    p1: Seq<T>,
    h2: Seq<Seq<T>>,
    p2: Seq<T>,
    n: int,
)
    requires
        n > 0,
        whole_hops(h1, n),
        whole_hops(h2, n),
        p1.len() < n,
        p2.len() < n,
        h1.flatten() + p1 == h2.flatten() + p2,
    ensures
        h1 == h2,
        p1 == p2,
    decreases h1.len(),
{
    lemma_whole_hops_length(h1, n);
    lemma_whole_hops_length(h2, n);
    assert((h1.flatten() + p1).len() == (h2.flatten() + p2).len());
    let a = h1.len() as int;
    let b = h2.len() as int;
    assert(h1.flatten().len() == a * n);
    assert(h2.flatten().len() == b * n);
    assert((h1.flatten() + p1).len() == h1.flatten().len() + p1.len());
    assert(a * n + p1.len() == b * n + p2.len());
    assert(h1.len() == h2.len()) by {
        if a < b {
            assert(a * n + n <= b * n) by (nonlinear_arith)
                requires
                    a < b,
                    n > 0,
            ;
        } else if a > b {
            assert(b * n + n <= a * n) by (nonlinear_arith)
                requires
                    b < a,
                    n > 0,
            ;
        }
    }
    if h1.len() == 0 {
        assert(p1 =~= h1.flatten() + p1);
        assert(p2 =~= h2.flatten() + p2);
    } else {
        let s = h1.flatten() + p1;
        assert(h1.flatten() == h1[0] + h1.drop_first().flatten());
        assert(h2.flatten() == h2[0] + h2.drop_first().flatten());
        assert(h1[0] =~= s.subrange(0, n));
        assert(h2[0] =~= s.subrange(0, n));
        let r1 = h1.drop_first();
        let r2 = h2.drop_first();
        assert(r1.flatten() + p1 =~= s.subrange(n, s.len() as int));
        assert(r2.flatten() + p2 =~= s.subrange(n, s.len() as int));
        assert(whole_hops(r1, n)) by {
            assert forall|i: int| 0 <= i < r1.len() implies (#[trigger] r1[i]).len() == n by {
                assert(r1[i] == h1[i + 1]);
            }
        }
        assert(whole_hops(r2, n)) by {
            assert forall|i: int| 0 <= i < r2.len() implies (#[trigger] r2[i]).len() == n by {
                assert(r2[i] == h2[i + 1]);
            }
        }
        hops_are_determined(r1, p1, r2, p2, n);
        assert(h1 =~= seq![h1[0]] + r1);
        assert(h2 =~= seq![h2[0]] + r2);
    }
}

/// Feeding samples in two chunks hands out the same hops, and leaves the
/// same samples waiting, as feeding both chunks at once.
pub proof fn chunking_does_not_matter<T>(
    pending: Seq<T>,
    first: Seq<T>,
    second: Seq<T>,
    hops_a: Seq<Seq<T>>,
    pending_a: Seq<T>,
    hops_b: Seq<Seq<T>>,
    pending_b: Seq<T>,
    hops_c: Seq<Seq<T>>,
    pending_c: Seq<T>,
    n: int,
)
    requires
        n > 0,
        whole_hops(hops_a, n),
        whole_hops(hops_b, n),
        whole_hops(hops_c, n),
        pending_a.len() < n,
        pending_b.len() < n,
        pending_c.len() < n,
        hops_a.flatten() + pending_a == pending + first,
        hops_b.flatten() + pending_b == pending_a + second,
        hops_c.flatten() + pending_c == pending + first + second,
    ensures
        hops_a + hops_b == hops_c,
        pending_b == pending_c,
{
    vstd::seq_lib::lemma_flatten_concat(hops_a, hops_b);
    assert((hops_a + hops_b).flatten() + pending_b =~= hops_a.flatten() + (hops_b.flatten()
        + pending_b));
    assert(hops_a.flatten() + (pending_a + second) =~= (hops_a.flatten() + pending_a) + second);
    assert((hops_a + hops_b).flatten() + pending_b =~= pending + first + second);
    assert(whole_hops(hops_a + hops_b, n)) by {
        assert forall|i: int| 0 <= i < (hops_a + hops_b).len() implies (#[trigger] (hops_a
            + hops_b)[i]).len() == n by {
            if i < hops_a.len() {
                assert((hops_a + hops_b)[i] == hops_a[i]);
            } else {
                assert((hops_a + hops_b)[i] == hops_b[i - hops_a.len()]);
            }
        }
    }
    hops_are_determined(hops_a + hops_b, pending_b, hops_c, pending_c, n);
}

/// Sliding keeps the length of a full window: sample `i` of the slid
/// window is sample `i + HOP_SIZE` of the old one, and its last `HOP_SIZE`
/// samples are the new hop, in order.
pub proof fn sliding_drops_the_oldest_hop<T>(window: Seq<T>, mono: Seq<T>, i: int)
    requires
        window.len() == FFT_SIZE,
        mono.len() == HOP_SIZE,
        0 <= i < FFT_SIZE,
    ensures
        slid_window(window, mono).len() == FFT_SIZE,
        i < FFT_SIZE - HOP_SIZE ==> slid_window(window, mono)[i] == window[i + HOP_SIZE],
        i >= FFT_SIZE - HOP_SIZE ==> slid_window(window, mono)[i] == mono[i - (FFT_SIZE
            - HOP_SIZE)],
{
}

/// After a window's worth of slides (`FFT_SIZE / HOP_SIZE` of them), the
/// window holds exactly the hops slid in, oldest first, whatever it held
/// before.
pub proof fn a_frame_of_slides_fills_the_window<T>(
    window: Seq<T>,
    m1: Seq<T>,
    m2: Seq<T>,
    m3: Seq<T>,
    m4: Seq<T>,
)
    requires
        window.len() == FFT_SIZE,
        m1.len() == HOP_SIZE,
        m2.len() == HOP_SIZE,
        m3.len() == HOP_SIZE,
        m4.len() == HOP_SIZE,
    ensures
        FFT_SIZE == 4 * HOP_SIZE,
        slid_window(slid_window(slid_window(slid_window(window, m1), m2), m3), m4) == m1 + m2
            + m3 + m4,
{
    let w1 = slid_window(window, m1);
    let w2 = slid_window(w1, m2);
    let w3 = slid_window(w2, m3);
    let w4 = slid_window(w3, m4);
    assert(w1.len() == FFT_SIZE);
    assert(w2.len() == FFT_SIZE);
    assert(w3.len() == FFT_SIZE);
    assert(w4 =~= m1 + m2 + m3 + m4) by {
        assert(w1.subrange(6144, 8192) =~= m1);
        assert(w2.subrange(4096, 8192) =~= m1 + m2);
        assert(w3.subrange(2048, 8192) =~= m1 + m2 + m3);
    }
}

} // verus!
