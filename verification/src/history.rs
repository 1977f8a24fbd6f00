use vstd::prelude::*;

use std::collections::VecDeque;

verus! {

/// The most recent samples of a signal, for drawing its waveform.  Before
/// each new sample the oldest one is dropped once the history holds
/// `capacity` samples.
pub struct WaveformHistory<T> {
    samples: VecDeque<T>,
    capacity: usize,
}

/// The value a waveform history stands for.
pub struct WaveformHistoryView<T> {
    pub samples: Seq<T>,
    pub capacity: usize,
}

impl<T> View for WaveformHistory<T> {
    type V = WaveformHistoryView<T>;

    closed spec fn view(&self) -> WaveformHistoryView<T> {
        WaveformHistoryView { samples: self.samples@, capacity: self.capacity }
    }
}

/// The history after one more sample: when it is full the oldest sample
/// leaves first.
pub open spec fn history_push<T>(h: Seq<T>, capacity: int, s: T) -> Seq<T> {
    if h.len() == capacity && h.len() > 0 {
        h.drop_first().push(s)
    } else {
        h.push(s)
    }
}

/// The history after the samples of `new`, pushed one at a time.
pub open spec fn history_extend<T>(h: Seq<T>, capacity: int, new: Seq<T>) -> Seq<T>
    decreases new.len(),
{
    if new.len() == 0 {
        h
    } else {
        history_push(history_extend(h, capacity, new.drop_last()), capacity, new.last())
    }
}

impl<T: Copy> WaveformHistory<T> {
    /// An empty history that keeps at most `capacity` samples.
    pub fn new(capacity: usize) -> (h: WaveformHistory<T>)
        ensures
            h@.samples == Seq::<T>::empty(),
            h@.capacity == capacity,
    {
        WaveformHistory { samples: VecDeque::with_capacity(capacity), capacity }
    }

    pub fn capacity(&self) -> (c: usize)
        ensures
            c == self@.capacity,
    {
        self.capacity
    }

    /// The samples kept, oldest first.
    pub fn samples(&self) -> (s: &VecDeque<T>)
        ensures
            s@ == self@.samples,
    {
        &self.samples
    }

    /// Records one sample, dropping the oldest first when the history is
    /// full.
    pub fn push(&mut self, s: T)
        ensures
            final(self)@.capacity == old(self)@.capacity,
            final(self)@.samples == history_push(
                old(self)@.samples,
                old(self)@.capacity as int,
                s,
            ),
            old(self)@.samples.len() != old(self)@.capacity ==> final(self)@.samples == old(
                self,
            )@.samples.push(s),
            old(self)@.samples.len() == old(self)@.capacity > 0 ==> final(self)@.samples == old(
                self,
            )@.samples.subrange(1, old(self)@.samples.len() as int).push(s),
    {
        if self.samples.len() == self.capacity {
            let _ = self.samples.pop_front();
        }
        self.samples.push_back(s);
    }

    /// Records the samples of `new` in order.
    pub fn extend(&mut self, new: &[T])
        ensures
            final(self)@.capacity == old(self)@.capacity,
            final(self)@.samples == history_extend(
                old(self)@.samples,
                old(self)@.capacity as int,
                new@,
            ),
    {
        let mut i: usize = 0;
        while i < new.len()
            invariant
                0 <= i <= new@.len(),
                self@.capacity == old(self)@.capacity,
                self@.samples == history_extend(
                    old(self)@.samples,
                    old(self)@.capacity as int,
                    new@.subrange(0, i as int),
                ),
            decreases new@.len() - i,
        {
            proof {
                assert(new@.subrange(0, i + 1).drop_last() =~= new@.subrange(0, i as int));
            }
            self.push(new[i]);
            i = i + 1;
        }
        proof {
            assert(new@.subrange(0, new@.len() as int) =~= new@);
        }
    }
}

/// One push onto a history with room left appends the sample and drops
/// nothing; onto a full history (with room for at least one sample) it drops
/// exactly the oldest one.  Either way the history then holds
/// `min(old length + 1, capacity)` samples, the latest last.
pub proof fn pushing_drops_only_when_full<T>(h: Seq<T>, capacity: int, s: T)
    requires
        capacity > 0,
        h.len() <= capacity,
    ensures
        h.len() < capacity ==> history_push(h, capacity, s) == h.push(s),
        h.len() == capacity ==> history_push(h, capacity, s) == h.subrange(1, h.len() as int).push(
            s,
        ),
        history_push(h, capacity, s).len() == if h.len() + 1 < capacity {
            h.len() + 1int
        } else {
            capacity
        },
        history_push(h, capacity, s).last() == s,
        history_extend(h, capacity, seq![s]) == history_push(h, capacity, s),
{
    assert(seq![s].drop_last() =~= Seq::<T>::empty());
    assert(history_extend(h, capacity, Seq::<T>::empty()) == h);
    assert(seq![s].last() == s);
    if h.len() == capacity {
        assert(h.drop_first() =~= h.subrange(1, h.len() as int));
    }
}

/// A history with room for at least one sample, that is not over full,
/// keeps exactly the last `capacity` samples it was given (all of them
/// while there are fewer), oldest first.
pub proof fn history_keeps_the_latest<T>(h: Seq<T>, capacity: int, new: Seq<T>)
    requires
        capacity > 0,
        h.len() <= capacity,
    ensures
        history_extend(h, capacity, new).len() <= capacity,
        history_extend(h, capacity, new) == (h + new).subrange(
            (h + new).len() - history_extend(h, capacity, new).len(),
            (h + new).len() as int,
        ),
        history_extend(h, capacity, new).len() == if (h + new).len() < capacity {
            (h + new).len() as int
        } else {
            capacity
        },
    decreases new.len(),
{
    if new.len() > 0 {
        let prev = new.drop_last();
        history_keeps_the_latest(h, capacity, prev);
        let p = history_extend(h, capacity, prev);
        let all_prev = h + prev;
        let all = h + new;
        assert(all =~= all_prev.push(new.last()));
        if p.len() == capacity {
            assert(history_extend(h, capacity, new) =~= p.drop_first().push(new.last()));
            assert(p.drop_first().push(new.last()) =~= all.subrange(
                all.len() - capacity,
                all.len() as int,
            ));
        } else {
            assert(history_extend(h, capacity, new) =~= p.push(new.last()));
            assert(p.push(new.last()) =~= all.subrange(all.len() - p.len() - 1, all.len() as int));
        }
    } else {
        assert(h + new =~= h);
        assert(h =~= h.subrange(0, h.len() as int));
    }
}

} // verus!
