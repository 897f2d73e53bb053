//! Watches: what a polling loop that reads one address, a list of
//! addresses or a range of bytes again and again decides after each read.
//! The loop itself, with its waits and its channel, is the caller's.

use vstd::prelude::*;

verus! {

/// How many emissions may wait for the consumer. A producer that has this
/// many waiting holds its next one back until there is room; none is
/// dropped.
pub const PENDING_LIMIT: usize = 10;

/// Where a watch stands. It starts idle, polls once it is started, and ends
/// cancelled or dropped; from either end nothing leads on.
#[derive(Debug, Clone, Copy, PartialEq, Eq, Structural)]
pub enum WatchState {
    Idle,
    Polling,
    /// The holder of the watch has called it off.
    Cancelled,
    /// The producer has gone: a read failed, or nobody receives any more.
    Dropped,
}

impl WatchState {
    /// The state after the watch is started.
    pub open spec fn started(self) -> WatchState {
        match self {
            WatchState::Idle => WatchState::Polling,
            other => other,
        }
    }

    /// The state after the watch is called off.
    pub open spec fn cancelled(self) -> WatchState {
        match self {
            WatchState::Idle => WatchState::Cancelled,
            WatchState::Polling => WatchState::Cancelled,
            other => other,
        }
    }

    /// The state after the producer has gone.
    pub open spec fn dropped(self) -> WatchState {
        match self {
            WatchState::Polling => WatchState::Dropped,
            other => other,
        }
    }

    /// The state after the watch is started.
    pub fn start(self) -> (next: WatchState)
        ensures
            next == self.started(),
    {
        match self {
            WatchState::Idle => WatchState::Polling,
            other => other,
        }
    }

    /// The state after the watch is called off.
    pub fn cancel(self) -> (next: WatchState)
        ensures
            next == self.cancelled(),
    {
        match self {
            WatchState::Idle => WatchState::Cancelled,
            WatchState::Polling => WatchState::Cancelled,
            other => other,
        }
    }

    /// The state after the producer has gone.
    pub fn stop(self) -> (next: WatchState)
        ensures
            next == self.dropped(),
    {
        match self {
            WatchState::Polling => WatchState::Dropped,
            other => other,
        }
    }

    /// Whether the watch polls.
    pub fn is_polling(self) -> (polling: bool)
        ensures
            polling == (self == WatchState::Polling),
    {
        match self {
            WatchState::Polling => true,
            _ => false,
        }
    }
}

/// Whether a poll emits its sample: the watch polls, and the sample differs
/// from the last one that was emitted.
pub open spec fn emits<T>(state: WatchState, last: T, sample: T) -> bool {
    state == WatchState::Polling && sample != last
}

/// What a row of polls emits, poll by poll: `Some` of the sample where the
/// poll emits it, which makes it the last one emitted.
pub open spec fn emissions<T>(state: WatchState, last: T, samples: Seq<T>) -> Seq<Option<T>>
    decreases samples.len(),
{
    if samples.len() == 0 {
        Seq::empty()
    } else if emits(state, last, samples[0]) {
        seq![Some(samples[0])] + emissions(state, samples[0], samples.skip(1))
    } else {
        seq![None] + emissions(state, last, samples.skip(1))
    }
}

/// There is one emission, or none, for each poll.
pub proof fn lemma_emissions_len<T>(state: WatchState, last: T, samples: Seq<T>)
    ensures
        emissions(state, last, samples).len() == samples.len(),
    decreases samples.len(),
{
    if samples.len() > 0 {
        if emits(state, last, samples[0]) {
            lemma_emissions_len(state, samples[0], samples.skip(1));
        } else {
            lemma_emissions_len(state, last, samples.skip(1));
        }
    }
}

/// A watch on something that does not change emits nothing after its first
/// poll: where every poll reads the same sample, only the first poll can
/// emit, and it does so if the sample differs from the baseline.
pub proof fn lemma_steady_samples<T>(state: WatchState, last: T, samples: Seq<T>, sample: T)
    requires
        forall|i: int| 0 <= i < samples.len() ==> samples[i] == sample,
    ensures
        emissions(state, last, samples).len() == samples.len(),
        forall|i: int| 1 <= i < samples.len() ==> emissions(state, last, samples)[i] is None,
        samples.len() > 0 ==> emissions(state, last, samples)[0] == (if emits(state, last, sample) {
            Some(sample)
        } else {
            None
        }),
    decreases samples.len(),
{
    lemma_emissions_len(state, last, samples);
    if samples.len() > 0 {
        let rest = samples.skip(1);
        let next = if emits(state, last, samples[0]) {
            samples[0]
        } else {
            last
        };
        lemma_steady_samples(state, next, rest, sample);
        lemma_emissions_len(state, next, rest);
        assert forall|i: int| 1 <= i < samples.len() implies emissions(state, last, samples)[i]
            is None by {
            assert(emissions(state, last, samples)[i] == emissions(state, next, rest)[i - 1]);
            if i == 1 {
                assert(rest[0] == sample);
                assert(!emits(state, next, sample));
            }
        }
    }
}

/// A watch that does not poll emits nothing, whatever is read: nothing
/// lands after a watch is cancelled.
pub proof fn lemma_silent_unless_polling<T>(state: WatchState, last: T, samples: Seq<T>)
    requires
        state != WatchState::Polling,
    ensures
        emissions(state, last, samples).len() == samples.len(),
        forall|i: int| 0 <= i < samples.len() ==> emissions(state, last, samples)[i] is None,
    decreases samples.len(),
{
    lemma_emissions_len(state, last, samples);
    if samples.len() > 0 {
        let rest = samples.skip(1);
        lemma_silent_unless_polling(state, last, rest);
        lemma_emissions_len(state, last, rest);
        assert forall|i: int| 0 <= i < samples.len() implies emissions(state, last, samples)[i]
            is None by {
            if i > 0 {
                assert(emissions(state, last, samples)[i] == emissions(state, last, rest)[i - 1]);
            }
        }
    }
}

/// Called off or dropped, a watch never polls again.
pub proof fn lemma_ends_are_final(state: WatchState)
    requires
        state == WatchState::Cancelled || state == WatchState::Dropped,
    ensures
        state.started() == state,
        state.cancelled() == state,
        state.dropped() == state,
{
}

/// The watch on one address. Its baseline is 0: a first sample of 0 is not
/// emitted.
#[derive(Debug, Clone, Copy, PartialEq, Eq, Structural)]
pub struct ValueWatch {
    pub state: WatchState,
    /// The sample that was last emitted.
    pub last: u32,
}

impl ValueWatch {
    /// An idle watch.
    pub fn new() -> (watch: ValueWatch)
        ensures
            watch == (ValueWatch { state: WatchState::Idle, last: 0 }),
    {
        ValueWatch { state: WatchState::Idle, last: 0 }
    }

    /// Starts the watch.
    pub fn start(&mut self)
        ensures
            *final(self) == (ValueWatch { state: old(self).state.started(), last: old(self).last }),
    {
        self.state = self.state.start();
    }

    /// Calls the watch off.
    pub fn cancel(&mut self)
        ensures
            *final(self) == (ValueWatch {
                state: old(self).state.cancelled(),
                last: old(self).last,
            }),
    {
        self.state = self.state.cancel();
    }

    /// Ends the watch because a read failed or nobody receives any more.
    pub fn stop(&mut self)
        ensures
            *final(self) == (ValueWatch { state: old(self).state.dropped(), last: old(self).last }),
    {
        self.state = self.state.stop();
    }

    /// Takes the sample of one poll and says whether it is to be emitted.
    pub fn poll(&mut self, sample: u32) -> (emitted: Option<u32>)
        ensures
            final(self).state == old(self).state,
            emits(old(self).state, old(self).last, sample) ==> emitted == Some(sample)
                && final(self).last == sample,
            !emits(old(self).state, old(self).last, sample) ==> emitted is None && final(self).last
                == old(self).last,
    {
        if self.state.is_polling() && sample != self.last {
            self.last = sample;
            Some(sample)
        } else {
            None
        }
    }
}

/// The watch on a list of addresses. Its baseline is the empty list: the
/// first poll of a watch on at least one address emits.
#[derive(Debug)]
pub struct ValuesWatch {
    pub state: WatchState,
    /// The samples that were last emitted.
    pub last: Vec<u32>,
}

impl ValuesWatch {
    /// An idle watch.
    pub fn new() -> (watch: ValuesWatch)
        ensures
            watch.state == WatchState::Idle,
            watch.last@ == Seq::<u32>::empty(),
    {
        ValuesWatch { state: WatchState::Idle, last: Vec::new() }
    }

    /// Starts the watch.
    pub fn start(&mut self)
        ensures
            final(self).state == old(self).state.started(),
            final(self).last == old(self).last,
    {
        self.state = self.state.start();
    }

    /// Calls the watch off.
    pub fn cancel(&mut self)
        ensures
            final(self).state == old(self).state.cancelled(),
            final(self).last == old(self).last,
    {
        self.state = self.state.cancel();
    }

    /// Ends the watch because a read failed or nobody receives any more.
    pub fn stop(&mut self)
        ensures
            final(self).state == old(self).state.dropped(),
            final(self).last == old(self).last,
    {
        self.state = self.state.stop();
    }

    /// Takes the samples of one poll and says whether they are to be
    /// emitted.
    pub fn poll(&mut self, samples: Vec<u32>) -> (emitted: Option<Vec<u32>>)
        ensures
            final(self).state == old(self).state,
            emits(old(self).state, old(self).last@, samples@) ==> (emitted matches Some(list)
                && list@ == samples@) && final(self).last@ == samples@,
            !emits(old(self).state, old(self).last@, samples@) ==> emitted is None && final(self).last@ == old(self).last@,
    {
        let same = samples == self.last;
        assert(same == (samples@ =~= self.last@));
        if self.state.is_polling() && !same {
            self.last = samples.clone();
            assert(self.last@ =~= samples@);
            Some(samples)
        } else {
            None
        }
    }
}

/// The watch on a range of bytes. Its baseline is no bytes at all: the
/// first poll of a watch on a range that is not empty emits.
#[derive(Debug)]
pub struct RangeWatch {
    pub state: WatchState,
    /// The bytes that were last emitted.
    pub last: Vec<u8>,
}

impl RangeWatch {
    /// An idle watch.
    pub fn new() -> (watch: RangeWatch)
        ensures
            watch.state == WatchState::Idle,
            watch.last@ == Seq::<u8>::empty(),
    {
        RangeWatch { state: WatchState::Idle, last: Vec::new() }
    }

    /// Starts the watch.
    pub fn start(&mut self)
        ensures
            final(self).state == old(self).state.started(),
            final(self).last == old(self).last,
    {
        self.state = self.state.start();
    }

    /// Calls the watch off.
    pub fn cancel(&mut self)
        ensures
            final(self).state == old(self).state.cancelled(),
            final(self).last == old(self).last,
    {
        self.state = self.state.cancel();
    }

    /// Ends the watch because a read failed or nobody receives any more.
    pub fn stop(&mut self)
        ensures
            final(self).state == old(self).state.dropped(),
            final(self).last == old(self).last,
    {
        self.state = self.state.stop();
    }

    /// Takes the bytes of one poll and says whether they are to be emitted:
    /// they are if any byte differs from the bytes last emitted.
    pub fn poll(&mut self, bytes: Vec<u8>) -> (emitted: Option<Vec<u8>>)
        ensures
            final(self).state == old(self).state,
            emits(old(self).state, old(self).last@, bytes@) ==> (emitted matches Some(list)
                && list@ == bytes@) && final(self).last@ == bytes@,
            !emits(old(self).state, old(self).last@, bytes@) ==> emitted is None && final(self).last@ == old(self).last@,
    {
        let same = bytes == self.last;
        assert(same == (bytes@ =~= self.last@));
        if self.state.is_polling() && !same {
            self.last = bytes.clone();
            assert(self.last@ =~= bytes@);
            Some(bytes)
        } else {
            None
        }
    }
}

} // verus!
