use vstd::prelude::*;

verus! {

/// The dispatch state of one import run: how many work items exist, how many
/// have been handed to workers and not yet finished, the concurrency bound,
/// and the cooperative cancellation flag. The host runtime performs the work;
/// every decision about starting or skipping an item is made here.
#[derive(Clone, Copy, Debug, PartialEq, Eq, Structural)]
pub struct DispatchState {
    pub limit: usize,
    pub total: usize,
    pub next: usize,
    pub in_flight: usize,
    pub done: usize,
    pub cancelled: bool,
}

impl DispatchState {
    /// The bound that every reachable state keeps: never more than `limit`
    /// items in flight, and the counters consistent with `total`.
    pub open spec fn wf(self) -> bool {
        &&& 1 <= self.limit
        &&& self.in_flight <= self.limit
        &&& self.done + self.in_flight <= self.next <= self.total
    }

    pub fn new(limit: usize, total: usize) -> (s: DispatchState)
        requires
            1 <= limit,
        ensures
            s.wf(),
            s == (DispatchState {
                limit, total, next: 0, in_flight: 0, done: 0, cancelled: false,
            }),
    {
        DispatchState { limit, total, next: 0, in_flight: 0, done: 0, cancelled: false }
    }

    /// Ask for the next item to start. An item is handed out only while a
    /// permit is free, items remain, and no cancellation was requested; the
    /// caller runs it and reports back through `task_completed`.
    pub fn try_dispatch(&mut self) -> (r: Option<usize>)
        requires
            old(self).wf(),
        ensures
            final(self).wf(),
            final(self).in_flight <= final(self).limit,
            match r {
                Some(item) => {
                    &&& !old(self).cancelled
                    &&& old(self).in_flight < old(self).limit
                    &&& item == old(self).next < old(self).total
                    &&& *final(self) == (DispatchState {
                        next: (old(self).next + 1) as usize,
                        in_flight: (old(self).in_flight + 1) as usize,
                        ..*old(self)
                    })
                },
                None => {
                    &&& *final(self) == *old(self)
                    &&& (old(self).cancelled || old(self).next == old(self).total
                        || old(self).in_flight == old(self).limit)
                },
            },
    {
        if !self.cancelled && self.next < self.total && self.in_flight < self.limit {
            let item = self.next;
            self.next = self.next + 1;
            self.in_flight = self.in_flight + 1;
            Some(item)
        } else {
            None
        }
    }

    /// A worker finished its item: the permit returns.
    pub fn task_completed(&mut self)
        requires
            old(self).wf(),
            old(self).in_flight > 0,
        ensures
            final(self).wf(),
            *final(self) == (DispatchState {
                in_flight: (old(self).in_flight - 1) as usize,
                done: (old(self).done + 1) as usize,
                ..*old(self)
            }),
    {
        self.in_flight = self.in_flight - 1;
        self.done = self.done + 1;
    }

    /// Request cooperative cancellation: no new items are handed out, items
    /// already in flight finish normally.
    pub fn cancel(&mut self)
        requires
            old(self).wf(),
        ensures
            final(self).wf(),
            *final(self) == (DispatchState { cancelled: true, ..*old(self) }),
    {
        self.cancelled = true;
    }

    /// The run is over when everything dispatched has come back and either
    /// all items were dispatched or the run was cancelled.
    pub fn is_finished(&self) -> (r: bool)
        ensures
            r == (self.in_flight == 0 && (self.next == self.total || self.cancelled)),
    {
        self.in_flight == 0 && (self.next == self.total || self.cancelled)
    }
}

/// One step of a run: a dispatch, a completion, or a cancellation request.
pub open spec fn dispatch_step(s1: DispatchState, s2: DispatchState) -> bool {
    ||| s2 == (DispatchState { next: (s1.next + 1) as usize,
        in_flight: (s1.in_flight + 1) as usize, ..s1 })
        && !s1.cancelled && s1.in_flight < s1.limit && s1.next < s1.total
    ||| s2 == (DispatchState { in_flight: (s1.in_flight - 1) as usize,
        done: (s1.done + 1) as usize, ..s1 }) && s1.in_flight > 0
    ||| s2 == (DispatchState { cancelled: true, ..s1 })
}

/// Bounded concurrency: along any run of the dispatcher, the number of items
/// simultaneously in flight never exceeds the configured limit.
pub proof fn lemma_bounded_concurrency(states: Seq<DispatchState>)
    requires
        states.len() > 0,
        states[0].wf(),
        forall|i: int| 0 <= i < states.len() - 1
            ==> dispatch_step(#[trigger] states[i], states[i + 1]),
    ensures
        forall|i: int| 0 <= i < states.len()
            ==> #[trigger] states[i].in_flight <= states[0].limit,
    decreases states.len(),
{
    if states.len() > 1 {
        let prefix = states.drop_last();
        assert forall|i: int| 0 <= i < prefix.len() - 1
            implies dispatch_step(#[trigger] prefix[i], prefix[i + 1]) by {
            assert(dispatch_step(states[i], states[i + 1]));
        };
        lemma_bounded_concurrency(prefix);
        let k = states.len() - 2;
        assert(dispatch_step(states[k], states[k + 1]));
        lemma_step_preserves_wf(states, k);
        assert forall|i: int| 0 <= i < states.len()
            implies #[trigger] states[i].in_flight <= states[0].limit by {
            if i < states.len() - 1 {
                assert(states[i] == prefix[i]);
            }
        };
    }
}

/// Every step keeps the dispatcher well formed, with an unchanged limit.
proof fn lemma_step_preserves_wf(states: Seq<DispatchState>, upto: int)
    requires
        0 <= upto < states.len() - 1,
        states[0].wf(),
        forall|i: int| 0 <= i < states.len() - 1
            ==> dispatch_step(#[trigger] states[i], states[i + 1]),
    ensures
        states[upto + 1].wf(),
        states[upto + 1].limit == states[0].limit,
    decreases upto,
{
    if upto > 0 {
        lemma_step_preserves_wf(states, upto - 1);
    }
    assert(dispatch_step(states[upto], states[upto + 1]));
}

} // verus!
