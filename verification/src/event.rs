//! Filesystem change events and batches of them.

use vstd::prelude::*;

verus! {

/// What happened to a path.  `Changed` is the coarse kind used when the
/// detection mechanism cannot tell creation, modification and removal
/// apart.
#[derive(Clone, Copy, Debug, PartialEq, Eq, Structural)]
pub enum EventKind {
    Created,
    Modified,
    Removed,
    Changed,
}

/// The mathematical value of a [`PathEvent`]: the path as a sequence of
/// characters, the kind, and the timestamp as an unbounded integer.
pub ghost struct EventModel {
    pub path: Seq<char>,
    pub kind: EventKind,
    pub time: int,
}

/// One detected filesystem change: a path, what happened to it, and a
/// monotonic timestamp in milliseconds.
#[derive(Clone, Debug, PartialEq)]
pub struct PathEvent {
    pub path: String,
    pub kind: EventKind,
    pub time_ms: u64,
}

impl View for PathEvent {
    type V = EventModel;

    open spec fn view(&self) -> EventModel {
        EventModel { path: self.path@, kind: self.kind, time: self.time_ms as int }
    }
}

impl PathEvent {
    /// Builds an event; the model is exactly the three arguments.
    pub fn new(path: String, kind: EventKind, time_ms: u64) -> (ev: PathEvent)
        ensures
            ev@.path == path@,
            ev@.kind == kind,
            ev@.time == time_ms as int,
    {
        PathEvent { path, kind, time_ms }
    }
}

/// True when some event in `s` carries the path `p`.
pub open spec fn contains_path(s: Seq<EventModel>, p: Seq<char>) -> bool {
    exists|i: int| 0 <= i < s.len() && s[i].path == p
}

/// The events of `s` carry pairwise distinct paths.
pub open spec fn paths_distinct(s: Seq<EventModel>) -> bool {
    forall|i: int, j: int| 0 <= i < j < s.len() ==> s[i].path != s[j].path
}

/// The events collected within one debounce window, in arrival order and
/// deduplicated by path: the first event seen for a path stays, later
/// events for the same path are dropped.
#[derive(Clone, Debug, PartialEq)]
pub struct ChangeBatch {
    pub events: Vec<PathEvent>,
}

impl View for ChangeBatch {
    type V = Seq<EventModel>;

    open spec fn view(&self) -> Seq<EventModel> {
        self.events@.map_values(|e: PathEvent| e@)
    }
}

impl ChangeBatch {
    /// A batch's events have pairwise distinct paths.
    pub open spec fn wf(&self) -> bool {
        paths_distinct(self@)
    }

    /// The batch with no events: what an initial run is started with when
    /// no filesystem activity has been seen yet.
    pub fn empty() -> (b: ChangeBatch)
        ensures
            b@ == Seq::<EventModel>::empty(),
            b.wf(),
    {
        let b = ChangeBatch { events: Vec::new() };
        proof {
            assert(b@ =~= Seq::<EventModel>::empty());
        }
        b
    }

    /// How many events the batch holds.
    pub fn len(&self) -> (n: usize)
        ensures
            n == self@.len(),
    {
        self.events.len()
    }
}

} // verus!
