use cargo_playground::debounce::Debouncer;
use cargo_playground::event::{EventKind, PathEvent};

fn ev(path: &str, t: u64) -> PathEvent {
    PathEvent::new(path.to_string(), EventKind::Modified, t)
}

#[test]
fn burst_within_window_flushes_once() {
    let mut d = Debouncer::new(500);
    d.push(ev("/proj/src/a.rs", 0));
    d.push(ev("/proj/src/b.rs", 200));
    assert!(d.poll(400).is_none());
    let batch = d.poll(700).expect("window elapsed");
    assert_eq!(batch.events.len(), 2);
    assert_eq!(batch.events[0].path, "/proj/src/a.rs");
    assert_eq!(batch.events[1].path, "/proj/src/b.rs");
    // Flushed exactly once: nothing more to deliver.
    assert!(d.poll(5000).is_none());
}

#[test]
fn gap_of_a_full_window_flushes_twice() {
    let mut d = Debouncer::new(500);
    d.push(ev("/proj/src/a.rs", 0));
    let first = d.poll(500).expect("first window elapsed");
    assert_eq!(first.events.len(), 1);
    d.push(ev("/proj/src/b.rs", 600));
    let second = d.poll(1100).expect("second window elapsed");
    assert_eq!(second.events.len(), 1);
    assert_eq!(second.events[0].path, "/proj/src/b.rs");
}

#[test]
fn sliding_window_is_reset_by_each_event() {
    let mut d = Debouncer::new(500);
    d.push(ev("/proj/a", 0));
    d.push(ev("/proj/b", 400));
    d.push(ev("/proj/c", 800));
    // 500ms after the first event the timer was re-armed twice.
    assert!(d.poll(500).is_none());
    assert!(d.poll(900).is_none());
    let batch = d.poll(1300).expect("quiet for a full window");
    assert_eq!(batch.events.len(), 3);
}

#[test]
fn events_are_deduplicated_by_path() {
    let mut d = Debouncer::new(500);
    d.push(ev("/proj/src/a.rs", 0));
    d.push(ev("/proj/src/a.rs", 100));
    d.push(ev("/proj/src/b.rs", 200));
    let batch = d.poll(700).expect("window elapsed");
    assert_eq!(batch.events.len(), 2);
    // The first event for a path stays.
    assert_eq!(batch.events[0].time_ms, 0);
}

#[test]
fn event_at_exact_expiry_belongs_to_next_batch() {
    let mut d = Debouncer::new(500);
    d.push(ev("/proj/a", 0));
    // The timer fires at 500; the driver polls before handing over an
    // event stamped 500, so that event opens the next batch.
    let first = d.poll(500).expect("due exactly at the deadline");
    assert_eq!(first.events.len(), 1);
    d.push(ev("/proj/b", 500));
    let second = d.poll(1000).expect("next window elapsed");
    assert_eq!(second.events.len(), 1);
    assert_eq!(second.events[0].path, "/proj/b");
}

#[test]
fn cancel_discards_without_flushing() {
    let mut d = Debouncer::new(500);
    d.push(ev("/proj/a", 0));
    assert_eq!(d.next_deadline(), Some(500));
    d.cancel();
    assert_eq!(d.next_deadline(), None);
    assert!(d.poll(10_000).is_none());
}

#[test]
fn zero_window_flushes_at_the_event_instant() {
    let mut d = Debouncer::new(0);
    d.push(ev("/proj/a", 100));
    let batch = d.poll(100).expect("window of zero is already over");
    assert_eq!(batch.events.len(), 1);
}

#[test]
fn idle_debouncer_never_flushes() {
    let mut d = Debouncer::new(500);
    assert!(d.poll(0).is_none());
    assert!(d.poll(u64::MAX).is_none());
    assert_eq!(d.next_deadline(), None);
}
