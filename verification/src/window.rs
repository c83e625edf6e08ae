//! A fixed-capacity window over the most recent samples.

use vstd::prelude::*;
use crate::signal::RandomSignal;

verus! {

/// Why a window could not be made.
#[derive(Debug, Clone, Copy, PartialEq, Eq, Structural)]
pub enum WindowError {
    /// A window must hold at least one sample.
    ZeroCapacity,
}

/// What a window holds after `sample` is pushed: the sample in front, and
/// everything that was there moved one place back, the oldest dropped.
pub open spec fn after_push(window: Seq<u64>, sample: u64) -> Seq<u64> {
    seq![sample] + window.drop_last()
}

/// What a window holds after each of `samples` is pushed, first to last.
pub open spec fn after_pushes(window: Seq<u64>, samples: Seq<u64>) -> Seq<u64>
    decreases samples.len(),
{
    if samples.len() == 0 {
        window
    } else {
        after_push(after_pushes(window, samples.drop_last()), samples.last())
    }
}

/// The most recent samples, newest first. The window is full from the moment
/// it is made and stays at the same length for ever after.
///
/// The samples live in a ring: `head` is the slot of the newest one, and the
/// slot before it (cyclically) holds the oldest.
pub struct SlidingWindow {
    slots: Vec<u64>,
    head: usize,
}

impl View for SlidingWindow {
    type V = Seq<u64>;

    /// The samples, newest first.
    closed spec fn view(&self) -> Seq<u64> {
        Seq::new(
            self.slots@.len(),
            |i: int|
                if self.head + i < self.slots@.len() {
                    self.slots@[self.head + i]
                } else {
                    self.slots@[self.head + i - self.slots@.len()]
                },
        )
    }
}

impl SlidingWindow {
    /// The representation is sound: at least one slot, and `head` is one of them.
    pub closed spec fn well_formed(&self) -> bool {
        self.head < self.slots@.len()
    }

    /// A well-formed window is never empty.
    pub proof fn lemma_never_empty(&self)
        requires
            self.well_formed(),
        ensures
            self@.len() >= 1,
    {
    }

    /// A window of the next `capacity` samples of `signal`, in the order they
    /// are drawn: the first one drawn stands in front. Fails exactly when
    /// `capacity` is zero, and then draws nothing.
    pub fn new(capacity: usize, signal: &mut RandomSignal) -> (made: Result<SlidingWindow, WindowError>)
        ensures
            final(signal).lower() == old(signal).lower(),
            final(signal).upper() == old(signal).upper(),
            capacity != 0 ==> made is Ok,
            capacity == 0 ==> made == Err::<SlidingWindow, WindowError>(WindowError::ZeroCapacity),
            made is Err ==> final(signal).history() == old(signal).history(),
            made matches Ok(window) ==> {
                &&& window.well_formed()
                &&& window@.len() == capacity
                &&& final(signal).history() == old(signal).history() + window@
                &&& forall|i: int|
                    0 <= i < capacity ==> old(signal).lower() <= #[trigger] window@[i] < old(signal).upper()
            },
    {
        if capacity == 0 {
            return Err(WindowError::ZeroCapacity);
        }
        let mut slots: Vec<u64> = Vec::new();
        assert(signal.history() =~= old(signal).history() + slots@);
        while slots.len() < capacity
            invariant
                slots@.len() <= capacity,
                signal.history() == old(signal).history() + slots@,
                signal.lower() == old(signal).lower(),
                signal.upper() == old(signal).upper(),
                forall|i: int|
                    0 <= i < slots@.len() ==> old(signal).lower() <= #[trigger] slots@[i] < old(signal).upper(),
            decreases capacity - slots@.len(),
        {
            let ghost before = slots@;
            let sample: u64 = signal.next().unwrap();
            slots.push(sample);
            assert(old(signal).history() + before.push(sample) =~= (old(signal).history() + before).push(sample));
        }
        let window = SlidingWindow { slots, head: 0 };
        assert(window@ =~= window.slots@);
        Ok(window)
    }

    /// A window that holds exactly `samples`, newest first.
    /// Fails exactly when `samples` is empty.
    pub fn from_samples(samples: Vec<u64>) -> (made: Result<SlidingWindow, WindowError>)
        ensures
            samples@.len() != 0 ==> made is Ok,
            samples@.len() == 0 ==> made == Err::<SlidingWindow, WindowError>(WindowError::ZeroCapacity),
            made matches Ok(window) ==> window.well_formed() && window@ == samples@,
    {
        if samples.len() == 0 {
            return Err(WindowError::ZeroCapacity);
        }
        let window = SlidingWindow { slots: samples, head: 0 };
        assert(window@ =~= samples@);
        Ok(window)
    }

    /// How many samples the window holds: its capacity.
    pub fn len(&self) -> (n: usize)
        requires
            self.well_formed(),
        ensures
            n == self@.len(),
            n >= 1,
    {
        self.slots.len()
    }

    /// The sample at `index`, counted from the newest.
    pub fn get(&self, index: usize) -> (sample: Option<u64>)
        requires
            self.well_formed(),
        ensures
            sample == if index < self@.len() { Some(self@[index as int]) } else { None },
    {
        let n: usize = self.slots.len();
        if index >= n {
            None
        } else if index < n - self.head {
            Some(self.slots[self.head + index])
        } else {
            Some(self.slots[index - (n - self.head)])
        }
    }

    /// Records `sample` as the newest and forgets the oldest, in constant time.
    pub fn push(&mut self, sample: u64)
        requires
            old(self).well_formed(),
        ensures
            final(self).well_formed(),
            final(self)@ == after_push(old(self)@, sample),
            final(self)@.len() == old(self)@.len(),
            final(self)@[0] == sample,
    {
        let n: usize = self.slots.len();
        let new_head: usize = if self.head == 0 { n - 1 } else { self.head - 1 };
        self.slots[new_head] = sample;
        self.head = new_head;
        assert(self@ =~= after_push(old(self)@, sample));
    }

    /// A copy of the samples, newest first, for a renderer to draw.
    pub fn as_sequence(&self) -> (samples: Vec<u64>)
        requires
            self.well_formed(),
        ensures
            samples@ == self@,
    {
        let n: usize = self.slots.len();
        let mut samples: Vec<u64> = Vec::with_capacity(n);
        let mut i: usize = self.head;
        while i < n
            invariant
                self.well_formed(),
                n == self.slots@.len(),
                self.head <= i <= n,
                samples@ =~= self@.take(i - self.head),
            decreases n - i,
        {
            samples.push(self.slots[i]);
            i += 1;
        }
        let mut j: usize = 0;
        while j < self.head
            invariant
                self.well_formed(),
                n == self.slots@.len(),
                j <= self.head,
                samples@ =~= self@.take(n - self.head + j),
            decreases self.head - j,
        {
            samples.push(self.slots[j]);
            j += 1;
        }
        assert(samples@ =~= self@);
        samples
    }
}

/// Pushing never changes how many samples a window holds, however many
/// samples are pushed.
pub proof fn lemma_pushes_keep_length(window: Seq<u64>, samples: Seq<u64>)
    requires
        window.len() >= 1,
    ensures
        after_pushes(window, samples).len() == window.len(),
    decreases samples.len(),
{
    if samples.len() > 0 {
        lemma_pushes_keep_length(window, samples.drop_last());
    }
}

/// After one push the sample is in front, everything that was there has
/// moved one place back, and the one sample that is gone is the oldest.
pub proof fn lemma_push_evicts_oldest(window: Seq<u64>, sample: u64)
    requires
        window.len() >= 1,
    ensures
        after_push(window, sample).len() == window.len(),
        after_push(window, sample)[0] == sample,
        forall|i: int| 0 <= i < window.len() - 1 ==> after_push(window, sample)[i + 1] == window[i],
{
}

/// After `k` pushes into a window of at least `k` samples, the `k` newest
/// entries are the pushed samples, latest first, and behind them stand the
/// earlier entries in their old order, the `k` oldest gone.
pub proof fn lemma_pushes_fill_front(window: Seq<u64>, samples: Seq<u64>)
    requires
        samples.len() <= window.len(),
    ensures
        after_pushes(window, samples) == samples.reverse() + window.take(window.len() - samples.len()),
    decreases samples.len(),
{
    if samples.len() == 0 {
        assert(after_pushes(window, samples) =~= samples.reverse() + window.take(window.len() as int));
    } else {
        let earlier = samples.drop_last();
        lemma_pushes_fill_front(window, earlier);
        assert(after_pushes(window, samples) =~= samples.reverse() + window.take(
            window.len() - samples.len(),
        ));
    }
}

} // verus!
