use cargo_playground::event::EventKind;
use cargo_playground::snapshot::{diff_snapshots, FileStamp, Snapshot};

fn stamp(mtime_ms: u64, size: u64) -> FileStamp {
    FileStamp { mtime_ms, size }
}

#[test]
fn recording_keeps_the_first_stamp_for_a_path() {
    let mut s = Snapshot::new();
    s.record("/proj/a".to_string(), stamp(1, 10));
    s.record("/proj/a".to_string(), stamp(2, 20));
    assert_eq!(s.len(), 1);
    assert_eq!(s.stamp_of("/proj/a"), Some(stamp(1, 10)));
    assert_eq!(s.stamp_of("/proj/b"), None);
}

#[test]
fn diff_detects_creation_modification_and_removal() {
    let mut before = Snapshot::new();
    before.record("/proj/kept".to_string(), stamp(1, 10));
    before.record("/proj/edited".to_string(), stamp(1, 10));
    before.record("/proj/deleted".to_string(), stamp(1, 10));
    let mut after = Snapshot::new();
    after.record("/proj/kept".to_string(), stamp(1, 10));
    after.record("/proj/edited".to_string(), stamp(5, 12));
    after.record("/proj/fresh".to_string(), stamp(6, 1));
    let evs = diff_snapshots(&before, &after, 99);
    assert_eq!(evs.len(), 3);
    // Creations and modifications come in the new snapshot's order.
    assert_eq!(evs[0].path, "/proj/edited");
    assert_eq!(evs[0].kind, EventKind::Modified);
    assert_eq!(evs[1].path, "/proj/fresh");
    assert_eq!(evs[1].kind, EventKind::Created);
    // Removals follow, in the old snapshot's order.
    assert_eq!(evs[2].path, "/proj/deleted");
    assert_eq!(evs[2].kind, EventKind::Removed);
    assert!(evs.iter().all(|e| e.time_ms == 99));
}

#[test]
fn size_change_alone_counts_as_modification() {
    let mut before = Snapshot::new();
    before.record("/proj/a".to_string(), stamp(1, 10));
    let mut after = Snapshot::new();
    after.record("/proj/a".to_string(), stamp(1, 11));
    let evs = diff_snapshots(&before, &after, 0);
    assert_eq!(evs.len(), 1);
    assert_eq!(evs[0].kind, EventKind::Modified);
}

#[test]
fn identical_snapshots_diff_to_nothing() {
    let mut before = Snapshot::new();
    before.record("/proj/a".to_string(), stamp(1, 10));
    let mut after = Snapshot::new();
    after.record("/proj/a".to_string(), stamp(1, 10));
    assert!(diff_snapshots(&before, &after, 0).is_empty());
    let empty_a = Snapshot::new();
    let empty_b = Snapshot::new();
    assert!(diff_snapshots(&empty_a, &empty_b, 0).is_empty());
}
