//! The scanning path watcher's core: snapshots of a file tree and the
//! diff between two snapshots.
//!
//! The portable fallback watcher periodically walks the watched roots,
//! records each file's modification time and size, and compares the new
//! snapshot with the previous one to synthesize created / modified /
//! removed events.  The walking is I/O and lives in the unverified
//! shell; recording and diffing are verified here.

use vstd::prelude::*;
use crate::event::{EventKind, EventModel, PathEvent};
use crate::helpers::str_eq;

verus! {

/// What a scan records about one file.
#[derive(Clone, Copy, Debug, PartialEq, Eq, Structural)]
pub struct FileStamp {
    /// Modification time in milliseconds.
    pub mtime_ms: u64,
    /// File size in bytes.
    pub size: u64,
}

/// The mathematical value of a snapshot entry.
pub ghost struct EntryModel {
    pub path: Seq<char>,
    pub stamp: FileStamp,
}

/// One recorded file: its path and its stamp.
#[derive(Clone, Debug, PartialEq)]
pub struct SnapshotEntry {
    pub path: String,
    pub stamp: FileStamp,
}

impl View for SnapshotEntry {
    type V = EntryModel;

    open spec fn view(&self) -> EntryModel {
        EntryModel { path: self.path@, stamp: self.stamp }
    }
}

/// The stamp recorded for `p`, scanning from the front.
pub open spec fn find_stamp(s: Seq<EntryModel>, p: Seq<char>) -> Option<FileStamp>
    decreases s.len(),
{
    if s.len() == 0 {
        None
    } else if s[0].path == p {
        Some(s[0].stamp)
    } else {
        find_stamp(s.skip(1), p)
    }
}

/// One full-tree scan: each file seen, with its stamp, in walk order.
#[derive(Debug)]
pub struct Snapshot {
    entries: Vec<SnapshotEntry>,
}

impl Snapshot {
    /// The recorded entries.
    pub closed spec fn entries(&self) -> Seq<EntryModel> {
        self.entries@.map_values(|e: SnapshotEntry| e@)
    }

    /// An empty snapshot, to record a scan into.
    pub fn new() -> (s: Snapshot)
        ensures
            s.entries() == Seq::<EntryModel>::empty(),
    {
        let s = Snapshot { entries: Vec::new() };
        proof {
            assert(s.entries() =~= Seq::<EntryModel>::empty());
        }
        s
    }

    /// Records one file.  A tree walk reports each path once; should a
    /// path come round again, the first record stands.
    pub fn record(&mut self, path: String, stamp: FileStamp)
        ensures
            find_stamp(old(self).entries(), path@) is Some ==> final(self).entries() == old(
                self,
            ).entries(),
            find_stamp(old(self).entries(), path@) is None ==> final(self).entries() == old(
                self,
            ).entries().push(EntryModel { path: path@, stamp }),
    {
        if lookup(&self.entries, path.as_str()).is_some() {
            return;
        }
        let ghost pre = self.entries();
        self.entries.push(SnapshotEntry { path, stamp });
        proof {
            assert(self.entries() =~= pre.push(EntryModel { path: path@, stamp }));
        }
    }

    /// How many files the snapshot records.
    pub fn len(&self) -> (n: usize)
        ensures
            n == self.entries().len(),
    {
        self.entries.len()
    }

    /// The recorded stamp of one path, if the scan saw it.
    pub fn stamp_of(&self, path: &str) -> (r: Option<FileStamp>)
        ensures
            r == find_stamp(self.entries(), path@),
    {
        lookup(&self.entries, path)
    }
}

/// Linear search for a path's stamp.
fn lookup(entries: &Vec<SnapshotEntry>, path: &str) -> (r: Option<FileStamp>)
    ensures
        r == find_stamp(entries@.map_values(|e: SnapshotEntry| e@), path@),
{
    let ghost s = entries@.map_values(|e: SnapshotEntry| e@);
    proof {
        assert(s.skip(0) =~= s);
    }
    let mut i: usize = 0;
    while i < entries.len()
        invariant
            i <= entries@.len(),
            s == entries@.map_values(|e: SnapshotEntry| e@),
            find_stamp(s.skip(i as int), path@) == find_stamp(s, path@),
        decreases entries@.len() - i,
    {
        proof {
            assert(s.skip(i as int)[0] == s[i as int]);
            assert(s.skip(i as int).skip(1) =~= s.skip(i + 1 as int));
        }
        if str_eq(entries[i].path.as_str(), path) {
            return Some(entries[i].stamp);
        }
        i = i + 1;
    }
    proof {
        assert(s.skip(s.len() as int) =~= Seq::<EntryModel>::empty());
    }
    None
}

/// The created and modified events of a diff: for each entry of the new
/// snapshot, in its order, a `Created` event if the old snapshot lacks
/// the path, a `Modified` event if it has it with a different stamp.
pub open spec fn created_modified(
    old_s: Seq<EntryModel>,
    new_s: Seq<EntryModel>,
    now: int,
) -> Seq<EventModel>
    decreases new_s.len(),
{
    if new_s.len() == 0 {
        Seq::<EventModel>::empty()
    } else {
        let e = new_s[0];
        let rest = created_modified(old_s, new_s.skip(1), now);
        match find_stamp(old_s, e.path) {
            None => seq![
                EventModel { path: e.path, kind: EventKind::Created, time: now },
            ] + rest,
            Some(st) => if st != e.stamp {
                seq![
                    EventModel { path: e.path, kind: EventKind::Modified, time: now },
                ] + rest
            } else {
                rest
            },
        }
    }
}

/// The removed events of a diff: for each entry of the old snapshot, in
/// its order, a `Removed` event if the new snapshot lacks the path.
pub open spec fn removed(
    old_s: Seq<EntryModel>,
    new_s: Seq<EntryModel>,
    now: int,
) -> Seq<EventModel>
    decreases old_s.len(),
{
    if old_s.len() == 0 {
        Seq::<EventModel>::empty()
    } else {
        let e = old_s[0];
        let rest = removed(old_s.skip(1), new_s, now);
        if find_stamp(new_s, e.path) is None {
            seq![EventModel { path: e.path, kind: EventKind::Removed, time: now }] + rest
        } else {
            rest
        }
    }
}

/// A whole diff: creations and modifications first, removals after.
pub open spec fn snapshot_diff(
    old_s: Seq<EntryModel>,
    new_s: Seq<EntryModel>,
    now: int,
) -> Seq<EventModel> {
    created_modified(old_s, new_s, now) + removed(old_s, new_s, now)
}

/// Compares two scans and synthesizes the change events between them,
/// each carrying the scan instant as its timestamp.
pub fn diff_snapshots(old_snap: &Snapshot, new_snap: &Snapshot, now_ms: u64) -> (evs: Vec<
    PathEvent,
>)
    ensures
        evs@.map_values(|e: PathEvent| e@) == snapshot_diff(
            old_snap.entries(),
            new_snap.entries(),
            now_ms as int,
        ),
{
    let ghost old_s = old_snap.entries();
    let ghost new_s = new_snap.entries();
    let ghost now = now_ms as int;
    let mut evs: Vec<PathEvent> = Vec::new();
    proof {
        assert(evs@.map_values(|e: PathEvent| e@) =~= Seq::<EventModel>::empty());
        assert(new_s.skip(0) =~= new_s);
    }
    let mut i: usize = 0;
    while i < new_snap.entries.len()
        invariant
            i <= new_snap.entries@.len(),
            old_s == old_snap.entries(),
            new_s == new_snap.entries(),
            now == now_ms as int,
            evs@.map_values(|e: PathEvent| e@) + created_modified(old_s, new_s.skip(i as int), now)
                == created_modified(old_s, new_s, now),
        decreases new_snap.entries@.len() - i,
    {
        let ghost pre = evs@.map_values(|e: PathEvent| e@);
        proof {
            assert(new_s.skip(i as int)[0] == new_s[i as int]);
            assert(new_s.skip(i as int).skip(1) =~= new_s.skip(i + 1 as int));
        }
        let entry = &new_snap.entries[i];
        match old_snap.stamp_of(entry.path.as_str()) {
            None => {
                evs.push(PathEvent::new(entry.path.clone(), EventKind::Created, now_ms));
                proof {
                    assert(evs@.map_values(|e: PathEvent| e@) =~= pre.push(
                        EventModel { path: new_s[i as int].path, kind: EventKind::Created, time: now },
                    ));
                    assert(pre.push(
                        EventModel { path: new_s[i as int].path, kind: EventKind::Created, time: now },
                    ) + created_modified(old_s, new_s.skip(i + 1 as int), now) =~= pre
                        + created_modified(old_s, new_s.skip(i as int), now));
                }
            },
            Some(st) => {
                if st.mtime_ms != entry.stamp.mtime_ms || st.size != entry.stamp.size {
                    evs.push(PathEvent::new(entry.path.clone(), EventKind::Modified, now_ms));
                    proof {
                        assert(evs@.map_values(|e: PathEvent| e@) =~= pre.push(
                            EventModel { path: new_s[i as int].path, kind: EventKind::Modified, time: now },
                        ));
                        assert(pre.push(
                            EventModel { path: new_s[i as int].path, kind: EventKind::Modified, time: now },
                        ) + created_modified(old_s, new_s.skip(i + 1 as int), now) =~= pre
                            + created_modified(old_s, new_s.skip(i as int), now));
                    }
                }
            },
        }
        i = i + 1;
    }
    proof {
        assert(new_s.skip(new_s.len() as int) =~= Seq::<EntryModel>::empty());
    }
    proof {
        assert(old_s.skip(0) =~= old_s);
    }
    let mut j: usize = 0;
    while j < old_snap.entries.len()
        invariant
            j <= old_snap.entries@.len(),
            old_s == old_snap.entries(),
            new_s == new_snap.entries(),
            now == now_ms as int,
            evs@.map_values(|e: PathEvent| e@) + removed(old_s.skip(j as int), new_s, now)
                == created_modified(old_s, new_s, now) + removed(old_s, new_s, now),
        decreases old_snap.entries@.len() - j,
    {
        let ghost pre = evs@.map_values(|e: PathEvent| e@);
        proof {
            assert(old_s.skip(j as int)[0] == old_s[j as int]);
            assert(old_s.skip(j as int).skip(1) =~= old_s.skip(j + 1 as int));
        }
        let entry = &old_snap.entries[j];
        if new_snap.stamp_of(entry.path.as_str()).is_none() {
            evs.push(PathEvent::new(entry.path.clone(), EventKind::Removed, now_ms));
            proof {
                assert(evs@.map_values(|e: PathEvent| e@) =~= pre.push(
                    EventModel { path: old_s[j as int].path, kind: EventKind::Removed, time: now },
                ));
                assert(pre.push(
                    EventModel { path: old_s[j as int].path, kind: EventKind::Removed, time: now },
                ) + removed(old_s.skip(j + 1 as int), new_s, now) =~= pre + removed(
                    old_s.skip(j as int),
                    new_s,
                    now,
                ));
            }
        }
        j = j + 1;
    }
    proof {
        assert(old_s.skip(old_s.len() as int) =~= Seq::<EntryModel>::empty());
        assert(evs@.map_values(|e: PathEvent| e@) =~= snapshot_diff(old_s, new_s, now));
    }
    evs
}

} // verus!
