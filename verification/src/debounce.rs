//! The debouncer: coalesces a burst of raw change events into one batch.
//!
//! The first event after an idle period arms a timer of one debounce
//! window; every further event re-arms it (a sliding window).  When the
//! timer expires the accumulated batch is delivered exactly once and the
//! accumulator is cleared.  An event carrying the exact expiry instant
//! belongs to the next batch: the timer is considered to have fired at
//! the start of that instant, before the event is observed.
//!
//! The module also gives the operational model of a whole debouncing
//! session ([`debounce_batches`]) and proves the two laws about it: a
//! burst whose gaps all stay below the window flushes exactly once, and
//! a single gap reaching the window splits the session into exactly two
//! flushes, partitioned at the gap.

use vstd::prelude::*;
use crate::event::{ChangeBatch, EventModel, PathEvent, contains_path, paths_distinct};

verus! {

/// One push at spec level: the event is appended unless its path is
/// already pending (first event for a path wins).
pub open spec fn push1(pending: Seq<EventModel>, ev: EventModel) -> Seq<EventModel> {
    if contains_path(pending, ev.path) {
        pending
    } else {
        pending.push(ev)
    }
}

/// Pushing a whole sequence of events, in order.
pub open spec fn fold_push(pending: Seq<EventModel>, events: Seq<EventModel>) -> Seq<EventModel>
    decreases events.len(),
{
    if events.len() == 0 {
        pending
    } else {
        fold_push(push1(pending, events[0]), events.skip(1))
    }
}

/// Event timestamps never decrease.
pub open spec fn times_sorted(events: Seq<EventModel>) -> bool {
    forall|i: int| 0 < i < events.len() ==> #[trigger] events[i].time >= events[i - 1].time
}

/// Every inter-arrival gap stays strictly below the window.
pub open spec fn gaps_below(window: int, events: Seq<EventModel>) -> bool {
    forall|i: int| 0 < i < events.len() ==> #[trigger] events[i].time < events[i - 1].time + window
}

/// The timer is due: a deadline is armed and `now` has reached it.
pub open spec fn timer_due(deadline: Option<int>, now: int) -> bool {
    deadline matches Some(d) && now >= d
}

/// The operational model of a debouncing session, processing the events
/// in time order from an intermediate state.  Before each event the
/// timer is checked: if the event arrives at or after the armed
/// deadline, the pending batch flushes first and the event opens the
/// next batch; otherwise the event joins the batch and re-arms the
/// timer.  After the last event the final batch flushes once the timer
/// runs out.
pub open spec fn run_from(
    window: int,
    pending: Seq<EventModel>,
    deadline: Option<int>,
    events: Seq<EventModel>,
) -> Seq<Seq<EventModel>>
    decreases events.len(),
{
    if events.len() == 0 {
        if pending.len() == 0 {
            Seq::<Seq<EventModel>>::empty()
        } else {
            seq![pending]
        }
    } else {
        let ev = events[0];
        if timer_due(deadline, ev.time) {
            seq![pending] + run_from(
                window,
                push1(Seq::<EventModel>::empty(), ev),
                Some(ev.time + window),
                events.skip(1),
            )
        } else {
            run_from(window, push1(pending, ev), Some(ev.time + window), events.skip(1))
        }
    }
}

/// The batches a whole session delivers for a sorted event sequence.
pub open spec fn debounce_batches(window: int, events: Seq<EventModel>) -> Seq<Seq<EventModel>> {
    run_from(window, Seq::<EventModel>::empty(), None, events)
}

proof fn lemma_skip1_sorted(events: Seq<EventModel>)
    requires
        times_sorted(events),
        events.len() > 0,
    ensures
        times_sorted(events.skip(1)),
{
    assert forall|i: int| 0 < i < events.skip(1).len() implies
        #[trigger] events.skip(1)[i].time >= events.skip(1)[i - 1].time by {
        assert(events.skip(1)[i] == events[i + 1]);
        assert(events.skip(1)[i - 1] == events[i]);
    }
}

proof fn lemma_skip1_gaps(window: int, events: Seq<EventModel>)
    requires
        gaps_below(window, events),
        events.len() > 0,
    ensures
        gaps_below(window, events.skip(1)),
{
    assert forall|i: int| 0 < i < events.skip(1).len() implies
        #[trigger] events.skip(1)[i].time < events.skip(1)[i - 1].time + window by {
        assert(events.skip(1)[i] == events[i + 1]);
        assert(events.skip(1)[i - 1] == events[i]);
    }
}

/// While every event arrives before the armed deadline and the gaps stay
/// below the window, the run never flushes early: everything folds into
/// the one pending batch, delivered at the end.
proof fn lemma_run_absorb(window: int, pending: Seq<EventModel>, d: int, events: Seq<EventModel>)
    requires
        pending.len() > 0,
        times_sorted(events),
        gaps_below(window, events),
        events.len() > 0 ==> events[0].time < d,
    ensures
        run_from(window, pending, Some(d), events) == seq![fold_push(pending, events)],
    decreases events.len(),
{
    if events.len() == 0 {
    } else {
        let ev = events[0];
        lemma_skip1_sorted(events);
        lemma_skip1_gaps(window, events);
        if events.len() > 1 {
            assert(events.skip(1)[0] == events[1]);
        }
        assert(push1(pending, ev).len() >= pending.len());
        lemma_run_absorb(window, push1(pending, ev), ev.time + window, events.skip(1));
    }
}

/// The first k events fold into the current batch; event k arrives at or
/// after the armed deadline, flushes it, and the rest of the session
/// restarts from an empty accumulator.
proof fn lemma_run_split(
    window: int,
    pending: Seq<EventModel>,
    d: int,
    events: Seq<EventModel>,
    k: int,
)
    requires
        pending.len() > 0,
        times_sorted(events),
        0 <= k < events.len(),
        forall|i: int| 0 < i < k ==> #[trigger] events[i].time < events[i - 1].time + window,
        k > 0 ==> events[0].time < d,
        events[k].time >= (if k == 0 { d } else { events[k - 1].time + window }),
    ensures
        run_from(window, pending, Some(d), events)
            == seq![fold_push(pending, events.take(k))]
                + run_from(window, Seq::<EventModel>::empty(), None, events.skip(k)),
    decreases k,
{
    if k == 0 {
        assert(events.skip(0) =~= events);
        assert(events.take(0) =~= Seq::<EventModel>::empty());
        assert(timer_due(Some(d), events[0].time));
    } else {
        let ev = events[0];
        assert(!timer_due(Some(d), ev.time));
        lemma_skip1_sorted(events);
        assert forall|i: int| 0 < i < k - 1 implies
            #[trigger] events.skip(1)[i].time < events.skip(1)[i - 1].time + window by {
            assert(events.skip(1)[i] == events[i + 1]);
            assert(events.skip(1)[i - 1] == events[i]);
        }
        if k > 1 {
            assert(events.skip(1)[0] == events[1]);
        }
        assert(events.skip(1)[k - 1] == events[k]);
        if k > 1 {
            assert(events.skip(1)[k - 2] == events[k - 1]);
        }
        lemma_run_split(window, push1(pending, ev), ev.time + window, events.skip(1), k - 1);
        assert(events.skip(1).take(k - 1) =~= events.take(k).skip(1));
        assert(events.take(k)[0] == ev);
        assert(fold_push(push1(pending, ev), events.take(k).skip(1))
            == fold_push(pending, events.take(k)));
        assert(events.skip(1).skip(k - 1) =~= events.skip(k));
    }
}

/// Folding a burst into a pending batch adds exactly the burst's
/// paths: nothing is lost to deduplication but repetitions.
pub proof fn lemma_fold_push_paths(pending: Seq<EventModel>, events: Seq<EventModel>, p: Seq<char>)
    ensures
        contains_path(fold_push(pending, events), p) <==> (contains_path(pending, p)
            || contains_path(events, p)),
    decreases events.len(),
{
    if events.len() == 0 {
    } else {
        let e0 = events[0];
        lemma_fold_push_paths(push1(pending, e0), events.skip(1), p);
        assert(contains_path(push1(pending, e0), p) <==> (contains_path(pending, p) || e0.path
            == p)) by {
            if contains_path(pending, e0.path) {
                if e0.path == p {
                    assert(contains_path(pending, p));
                }
            } else {
                let pushed = pending.push(e0);
                if contains_path(pushed, p) {
                    let w = choose|w: int| 0 <= w < pushed.len() && pushed[w].path == p;
                    if w < pending.len() {
                        assert(pending[w].path == p);
                    } else {
                        assert(pushed[w] == e0);
                    }
                }
                if contains_path(pending, p) {
                    let w = choose|w: int| 0 <= w < pending.len() && pending[w].path == p;
                    assert(pushed[w].path == p);
                }
                if e0.path == p {
                    assert(pushed[pending.len() as int].path == p);
                }
            }
        }
        assert(contains_path(events, p) <==> (e0.path == p || contains_path(
            events.skip(1),
            p,
        ))) by {
            if contains_path(events, p) {
                let w = choose|w: int| 0 <= w < events.len() && events[w].path == p;
                if w > 0 {
                    assert(events.skip(1)[w - 1].path == p);
                }
            }
            if contains_path(events.skip(1), p) {
                let w = choose|w: int|
                    0 <= w < events.skip(1).len() && events.skip(1)[w].path == p;
                assert(events[w + 1].path == p);
            }
        }
    }
}

/// Law: a nonempty burst of events whose inter-arrival gaps all stay
/// strictly below the debounce window is flushed exactly once, as one
/// batch folding in the whole burst — it carries exactly the burst's
/// paths.
pub proof fn lemma_burst_flushes_once(window: int, events: Seq<EventModel>)
    requires
        window > 0,
        events.len() > 0,
        times_sorted(events),
        gaps_below(window, events),
    ensures
        debounce_batches(window, events).len() == 1,
        debounce_batches(window, events)[0] == fold_push(Seq::<EventModel>::empty(), events),
        forall|p: Seq<char>| #[trigger] contains_path(debounce_batches(window, events)[0], p)
            <==> contains_path(events, p),
{
    assert forall|p: Seq<char>| #[trigger] contains_path(
        fold_push(Seq::<EventModel>::empty(), events),
        p,
    ) <==> contains_path(events, p) by {
        lemma_fold_push_paths(Seq::<EventModel>::empty(), events, p);
    }
    let ev = events[0];
    assert(!timer_due(None, ev.time));
    lemma_skip1_sorted(events);
    lemma_skip1_gaps(window, events);
    if events.len() > 1 {
        assert(events.skip(1)[0] == events[1]);
    }
    let first = push1(Seq::<EventModel>::empty(), ev);
    assert(first.len() == 1);
    lemma_run_absorb(window, first, ev.time + window, events.skip(1));
}

/// Law: when exactly one inter-arrival gap (at index k) reaches the
/// debounce window, the session flushes exactly twice, partitioned at
/// the gap: first the fold of `events[..k]`, then the fold of
/// `events[k..]`.
pub proof fn lemma_gap_flushes_twice(window: int, events: Seq<EventModel>, k: int)
    requires
        window > 0,
        times_sorted(events),
        0 < k < events.len(),
        forall|i: int|
            0 < i < events.len() && i != k ==> #[trigger] events[i].time < events[i - 1].time
                + window,
        events[k].time >= events[k - 1].time + window,
    ensures
        debounce_batches(window, events) == seq![
            fold_push(Seq::<EventModel>::empty(), events.take(k)),
            fold_push(Seq::<EventModel>::empty(), events.skip(k)),
        ],
{
    let ev = events[0];
    assert(!timer_due(None, ev.time));
    lemma_skip1_sorted(events);
    assert forall|i: int| 0 < i < k - 1 implies
        #[trigger] events.skip(1)[i].time < events.skip(1)[i - 1].time + window by {
        assert(events.skip(1)[i] == events[i + 1]);
        assert(events.skip(1)[i - 1] == events[i]);
    }
    if k > 1 {
        assert(events.skip(1)[0] == events[1]);
    }
    assert(events.skip(1)[k - 1] == events[k]);
    if k > 1 {
        assert(events.skip(1)[k - 2] == events[k - 1]);
    }
    let first = push1(Seq::<EventModel>::empty(), ev);
    assert(first.len() == 1);
    lemma_run_split(window, first, ev.time + window, events.skip(1), k - 1);
    assert(events.skip(1).take(k - 1) =~= events.take(k).skip(1));
    assert(events.take(k)[0] == ev);
    assert(fold_push(first, events.take(k).skip(1)) == fold_push(Seq::<EventModel>::empty(), events.take(k)));
    assert(events.skip(1).skip(k - 1) =~= events.skip(k));
    // The tail has no further gap, so it flushes exactly once.
    let tail = events.skip(k);
    assert forall|i: int| 0 < i < tail.len() implies
        #[trigger] tail[i].time < tail[i - 1].time + window by {
        assert(tail[i] == events[i + k]);
        assert(tail[i - 1] == events[i + k - 1]);
    }
    assert forall|i: int| 0 < i < tail.len() implies
        #[trigger] tail[i].time >= tail[i - 1].time by {
        assert(tail[i] == events[i + k]);
        assert(tail[i - 1] == events[i + k - 1]);
    }
    lemma_burst_flushes_once(window, tail);
    assert(debounce_batches(window, events) =~~= seq![
        fold_push(Seq::<EventModel>::empty(), events.take(k)),
        fold_push(Seq::<EventModel>::empty(), events.skip(k)),
    ]);
}

/// The sliding-window debouncer.  Events are pushed as they are
/// observed; `poll` is called with the current time and delivers the
/// batch once the window has elapsed with no further event.
pub struct Debouncer {
    window_ms: u64,
    pending: Vec<PathEvent>,
    deadline: Option<u64>,
}

impl Debouncer {
    /// The debounce window in milliseconds.
    pub closed spec fn window(&self) -> int {
        self.window_ms as int
    }

    /// The events accumulated so far in the current batch.
    pub closed spec fn pending(&self) -> Seq<EventModel> {
        self.pending@.map_values(|e: PathEvent| e@)
    }

    /// The instant the armed timer fires, if one is armed.
    pub closed spec fn deadline(&self) -> Option<int> {
        match self.deadline {
            Some(d) => Some(d as int),
            None => None,
        }
    }

    /// A timer is armed exactly while events are pending, and pending
    /// events carry distinct paths.
    pub open spec fn wf(&self) -> bool {
        &&& self.deadline() is Some <==> self.pending().len() > 0
        &&& paths_distinct(self.pending())
    }

    /// A fresh, idle debouncer for the given window.
    pub fn new(window_ms: u64) -> (d: Debouncer)
        ensures
            d.window() == window_ms as int,
            d.pending() == Seq::<EventModel>::empty(),
            d.deadline() is None,
            d.wf(),
    {
        let d = Debouncer { window_ms, pending: Vec::new(), deadline: None };
        proof {
            assert(d.pending() =~= Seq::<EventModel>::empty());
        }
        d
    }

    /// Observes one raw event: it joins the pending batch unless its
    /// path is already there, and the timer is re-armed to one window
    /// after the event (the sliding window).
    pub fn push(&mut self, ev: PathEvent)
        requires
            old(self).wf(),
            ev@.time + old(self).window() <= u64::MAX,
        ensures
            final(self).wf(),
            final(self).window() == old(self).window(),
            final(self).pending() == push1(old(self).pending(), ev@),
            final(self).deadline() == Some(ev@.time + old(self).window()),
    {
        let mut i: usize = 0;
        let mut found = false;
        while i < self.pending.len()
            invariant
                i <= self.pending@.len(),
                found <==> exists|w: int|
                    0 <= w < i && (#[trigger] self.pending()[w]).path == ev@.path,
            decreases self.pending@.len() - i,
        {
            if !found && self.pending[i].path == ev.path {
                found = true;
                proof {
                    assert(self.pending()[i as int].path == ev@.path);
                }
            }
            i = i + 1;
        }
        proof {
            assert(found <==> contains_path(self.pending(), ev@.path));
        }
        let t = ev.time_ms;
        if !found {
            let ghost pre = self.pending();
            self.pending.push(ev);
            proof {
                assert(self.pending() =~= pre.push(ev@));
            }
        }
        self.deadline = Some(t + self.window_ms);
    }

    /// Checks the timer at the current instant.  If a deadline is armed
    /// and has been reached, the accumulated batch is delivered exactly
    /// once and the accumulator is cleared; otherwise nothing happens.
    pub fn poll(&mut self, now_ms: u64) -> (r: Option<ChangeBatch>)
        requires
            old(self).wf(),
        ensures
            final(self).wf(),
            final(self).window() == old(self).window(),
            timer_due(old(self).deadline(), now_ms as int) ==> {
                &&& r matches Some(b) && b@ == old(self).pending() && b.wf()
                &&& final(self).pending() == Seq::<EventModel>::empty()
                &&& final(self).deadline() is None
            },
            !timer_due(old(self).deadline(), now_ms as int) ==> {
                &&& r is None
                &&& *final(self) == *old(self)
            },
    {
        let due = match self.deadline {
            Some(d) => now_ms >= d,
            None => false,
        };
        if due {
            self.deadline = None;
            let mut taken: Vec<PathEvent> = Vec::new();
            core::mem::swap(&mut taken, &mut self.pending);
            proof {
                assert(self.pending() =~= Seq::<EventModel>::empty());
            }
            Some(ChangeBatch { events: taken })
        } else {
            None
        }
    }

    /// Cancels any armed timer and discards the accumulated events
    /// without flushing them: session shutdown.
    pub fn cancel(&mut self)
        ensures
            final(self).wf(),
            final(self).window() == old(self).window(),
            final(self).pending() == Seq::<EventModel>::empty(),
            final(self).deadline() is None,
    {
        self.deadline = None;
        self.pending = Vec::new();
        proof {
            assert(self.pending() =~= Seq::<EventModel>::empty());
        }
    }

    /// The armed deadline, for the driver to time its next poll.
    pub fn next_deadline(&self) -> (r: Option<u64>)
        ensures
            match r {
                Some(d) => self.deadline() == Some(d as int),
                None => self.deadline() is None,
            },
    {
        self.deadline
    }
}

} // verus!
