use notify::DebouncedEvent;
use parcel_watcher::error::{ErrorKind, ParcelWatcherError};
use parcel_watcher::event::{semantic_events, EventKind, ParcelWatcherEvent, RawEvent};
use parcel_watcher::watcher::{
    raw_events_of, settling_window_ms, ParcelWatcher, Subscriber, NATIVE_SETTLING_MS,
    POLLING_SETTLING_MS,
};
use std::cell::RefCell;
use std::path::PathBuf;
use std::rc::Rc;

type Seen = Rc<RefCell<Vec<(String, String, String)>>>;

struct Recorder {
    name: String,
    seen: Seen,
    fail: bool,
}

impl Subscriber for Recorder {
    fn invoke(&self, event: ParcelWatcherEvent) -> Result<(), ParcelWatcherError> {
        self.seen.borrow_mut().push((
            self.name.clone(),
            event.event_type().to_string(),
            event.path().to_string(),
        ));
        if self.fail {
            Err(ParcelWatcherError::new(ErrorKind::Platform, "refused".to_string()))
        } else {
            Ok(())
        }
    }
}

fn recorder(name: &str, seen: &Seen, fail: bool) -> Recorder {
    Recorder { name: name.to_string(), seen: seen.clone(), fail }
}

fn read(batch: Vec<DebouncedEvent>) -> Vec<RawEvent> {
    raw_events_of(&batch)
}

fn pb(s: &str) -> PathBuf {
    PathBuf::from(s)
}

fn pairs(events: &[ParcelWatcherEvent]) -> Vec<(String, String)> {
    events.iter().map(|e| (e.event_type().to_string(), e.path().to_string())).collect()
}

fn own(v: &[(&str, &str)]) -> Vec<(String, String)> {
    v.iter().map(|(a, b)| (a.to_string(), b.to_string())).collect()
}

fn watcher() -> ParcelWatcher<Recorder> {
    ParcelWatcher::new().expect("the backend starts")
}

#[test]
fn create_is_dispatched_as_create() {
    let seen: Seen = Rc::new(RefCell::new(Vec::new()));
    let mut w = watcher();
    w.register_callback(recorder("S1", &seen, false)).unwrap();
    let (events, log) = w.process_batch(&read(vec![DebouncedEvent::Create(pb("D/a.txt"))]));
    assert_eq!(pairs(&events), own(&[("create", "D/a.txt")]));
    assert_eq!(log.len(), 1);
    assert_eq!(
        *seen.borrow(),
        vec![("S1".to_string(), "create".to_string(), "D/a.txt".to_string())]
    );
}

#[test]
fn settled_writes_give_one_update() {
    let w = watcher();
    let batch = vec![
        DebouncedEvent::NoticeWrite(pb("D/a.txt")),
        DebouncedEvent::Write(pb("D/a.txt")),
    ];
    let (events, log) = w.process_batch(&read(batch));
    assert_eq!(pairs(&events), own(&[("update", "D/a.txt")]));
    assert!(log.is_empty());
}

#[test]
fn metadata_change_gives_update() {
    let w = watcher();
    let (events, _) = w.process_batch(&read(vec![DebouncedEvent::Chmod(pb("D/a.txt"))]));
    assert_eq!(pairs(&events), own(&[("update", "D/a.txt")]));
}

#[test]
fn rename_is_delete_then_create() {
    let w = watcher();
    let batch = vec![DebouncedEvent::Rename(pb("D/a.txt"), pb("D/b.txt"))];
    let (events, _) = w.process_batch(&read(batch));
    assert_eq!(pairs(&events), own(&[("delete", "D/a.txt"), ("create", "D/b.txt")]));
}

#[test]
fn removal_is_delete_and_rescan_is_dropped() {
    let w = watcher();
    let batch = vec![
        DebouncedEvent::Rescan,
        DebouncedEvent::Remove(pb("D/a.txt")),
        DebouncedEvent::NoticeRemove(pb("D/b.txt")),
    ];
    let (events, _) = w.process_batch(&read(batch));
    assert_eq!(pairs(&events), own(&[("delete", "D/a.txt")]));
}

#[test]
fn create_then_remove_emits_both() {
    let w = watcher();
    let batch = vec![
        DebouncedEvent::Create(pb("D/a.txt")),
        DebouncedEvent::Remove(pb("D/a.txt")),
    ];
    let (events, _) = w.process_batch(&read(batch));
    assert_eq!(pairs(&events), own(&[("create", "D/a.txt"), ("delete", "D/a.txt")]));
}

#[test]
fn subscribers_receive_in_registration_order() {
    let seen: Seen = Rc::new(RefCell::new(Vec::new()));
    let mut w = watcher();
    let s1 = w.register_callback(recorder("S1", &seen, false)).unwrap();
    let s2 = w.register_callback(recorder("S2", &seen, false)).unwrap();
    assert_ne!(s1, s2);
    let (_, log) = w.process_batch(&read(vec![DebouncedEvent::Create(pb("D/a.txt"))]));
    let order: Vec<(usize, u64)> = log.iter().map(|d| (d.event_index, d.subscriber)).collect();
    assert_eq!(order, vec![(0, s1), (0, s2)]);
    let names: Vec<String> = seen.borrow().iter().map(|t| t.0.clone()).collect();
    assert_eq!(names, vec!["S1".to_string(), "S2".to_string()]);
}

#[test]
fn each_event_reaches_each_subscriber_once() {
    let seen: Seen = Rc::new(RefCell::new(Vec::new()));
    let mut w = watcher();
    let s1 = w.register_callback(recorder("S1", &seen, false)).unwrap();
    let s2 = w.register_callback(recorder("S2", &seen, false)).unwrap();
    let batch = vec![
        DebouncedEvent::Create(pb("D/a.txt")),
        DebouncedEvent::Write(pb("D/b.txt")),
    ];
    let (_, log) = w.process_batch(&read(batch));
    let order: Vec<(usize, u64)> = log.iter().map(|d| (d.event_index, d.subscriber)).collect();
    assert_eq!(order, vec![(0, s1), (0, s2), (1, s1), (1, s2)]);
    assert_eq!(seen.borrow().len(), 4);
    assert_eq!(seen.borrow()[3].1, "update");
    assert_eq!(seen.borrow()[3].2, "D/b.txt");
}

#[test]
fn failing_subscriber_does_not_stop_delivery() {
    let seen: Seen = Rc::new(RefCell::new(Vec::new()));
    let mut w = watcher();
    w.register_callback(recorder("S1", &seen, true)).unwrap();
    w.register_callback(recorder("S2", &seen, false)).unwrap();
    let batch = vec![
        DebouncedEvent::Create(pb("D/a.txt")),
        DebouncedEvent::Remove(pb("D/a.txt")),
    ];
    let (_, log) = w.process_batch(&read(batch));
    assert_eq!(log.len(), 4);
    assert_eq!(seen.borrow().len(), 4);
    let err = log[0].result.as_ref().unwrap_err();
    assert_eq!(err.kind, ErrorKind::Subscriber);
    assert_eq!(err.to_string(), "refused");
    assert!(log[1].result.is_ok());
    assert!(log[2].result.is_err());
}

#[test]
fn unregistered_subscriber_gets_nothing() {
    let seen: Seen = Rc::new(RefCell::new(Vec::new()));
    let mut w = watcher();
    let s1 = w.register_callback(recorder("S1", &seen, false)).unwrap();
    let s2 = w.register_callback(recorder("S2", &seen, false)).unwrap();
    assert!(w.unregister_callback(s1).is_ok());
    assert_eq!(w.subscriber_count(), 1);
    let again = w.unregister_callback(s1).unwrap_err();
    assert_eq!(again.kind, ErrorKind::NotFound);
    let (_, log) = w.process_batch(&read(vec![DebouncedEvent::Create(pb("D/a.txt"))]));
    assert_eq!(log.len(), 1);
    assert_eq!(log[0].subscriber, s2);
}

#[test]
fn quiet_watcher_dispatches_nothing() {
    let seen: Seen = Rc::new(RefCell::new(Vec::new()));
    let mut w = watcher();
    w.register_callback(recorder("S1", &seen, false)).unwrap();
    let (events, log) = w.process_events();
    assert!(events.is_empty());
    assert!(log.is_empty());
    assert!(seen.borrow().is_empty());
}

#[test]
fn empty_batch_dispatches_nothing() {
    let w = watcher();
    let (events, log) = w.process_batch(&Vec::new());
    assert!(events.is_empty());
    assert!(log.is_empty());
}

#[test]
fn watch_and_remove_roots() {
    let mut w = watcher();
    let a = w.add_watch(".", true).unwrap();
    let b = w.add_watch("/", false).unwrap();
    assert_ne!(a, b);
    assert_eq!(w.watch_count(), 2);
    assert!(w.remove_watch(a).is_ok());
    assert!(!w.is_watched(a));
    assert!(w.is_watched(b));
    assert_eq!(w.watch_count(), 1);
    assert_eq!(w.remove_watch(a).unwrap_err().kind, ErrorKind::NotFound);
    assert!(w.close().is_ok());
}

#[test]
fn same_root_twice_is_refused() {
    let mut w = watcher();
    assert!(w.watch(".").is_ok());
    let err = w.watch(".").unwrap_err();
    assert_eq!(err.kind, ErrorKind::AlreadyWatched);
    let err = w.add_watch(".", true).unwrap_err();
    assert_eq!(err.kind, ErrorKind::AlreadyWatched);
    assert_eq!(w.watch_count(), 1);
}

#[test]
fn missing_root_is_a_path_error() {
    let mut w = watcher();
    let err = w.add_watch("/no/such/directory/anywhere", true).unwrap_err();
    assert_eq!(err.kind, ErrorKind::Path);
    assert!(!err.reason.is_empty());
    assert_eq!(w.watch_count(), 0);
}

#[test]
fn raw_notifications_read_with_their_paths() {
    let raw = read(vec![
        DebouncedEvent::Rename(pb("x/1"), pb("x/2")),
        DebouncedEvent::Rescan,
        DebouncedEvent::Create(pb("x/3")),
    ]);
    assert_eq!(raw.len(), 3);
    match &raw[0] {
        RawEvent::Renamed(Some(a), Some(b)) => {
            assert_eq!(a, "x/1");
            assert_eq!(b, "x/2");
        }
        other => panic!("unexpected {:?}", other),
    }
    assert!(matches!(raw[1], RawEvent::Ignored));
    match &raw[2] {
        RawEvent::Created(Some(p)) => assert_eq!(p, "x/3"),
        other => panic!("unexpected {:?}", other),
    }
}

#[test]
fn paths_without_text_are_skipped() {
    let raw = vec![
        RawEvent::Renamed(None, Some("D/b.txt".to_string())),
        RawEvent::Written(None),
        RawEvent::MetadataChanged(Some("D/c.txt".to_string())),
        RawEvent::Ignored,
    ];
    let events = semantic_events(&raw);
    assert_eq!(pairs(&events), own(&[("create", "D/b.txt"), ("update", "D/c.txt")]));
}

#[test]
fn many_writes_as_separate_notifications_give_as_many_updates() {
    let raw = vec![
        RawEvent::Written(Some("p".to_string())),
        RawEvent::MetadataChanged(Some("p".to_string())),
        RawEvent::Written(Some("q".to_string())),
    ];
    let events = semantic_events(&raw);
    let updates_of_p = events
        .iter()
        .filter(|e| e.kind() == EventKind::Update && e.path() == "p")
        .count();
    assert_eq!(updates_of_p, 2);
}

#[test]
fn settling_windows() {
    assert_eq!(settling_window_ms(true), 10);
    assert_eq!(settling_window_ms(false), 1000);
    assert_eq!(NATIVE_SETTLING_MS, 10);
    assert_eq!(POLLING_SETTLING_MS, 1000);
    let polling = ParcelWatcher::<Recorder>::with_settling_window(POLLING_SETTLING_MS).unwrap();
    assert_eq!(polling.window_ms(), 1000);
    assert_eq!(watcher().window_ms(), 10);
}

#[test]
fn kind_names_and_event_fields() {
    assert_eq!(EventKind::Create.name(), "create");
    assert_eq!(EventKind::Update.name(), "update");
    assert_eq!(EventKind::Delete.name(), "delete");
    let e = ParcelWatcherEvent::new(EventKind::Delete, "D/z".to_string());
    let c = e.copy();
    assert_eq!(c.kind(), EventKind::Delete);
    assert_eq!(c.event_type(), "delete");
    assert_eq!(c.path(), "D/z");
}

#[test]
fn closing_without_roots_succeeds() {
    let w = watcher();
    assert!(w.close().is_ok());
}
