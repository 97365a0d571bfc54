use vstd::prelude::*;
use notify::{DebouncedEvent, RecommendedWatcher, RecursiveMode};
use std::sync::mpsc::Receiver;
use crate::backend::{
    diagnostic, is_not_found, open_channel, read_event, start_watcher, take_pending,
    unwatch_path, watch_path,
};
use crate::error::{fails_with, ErrorKind, ParcelWatcherError};
use crate::event::{semantic_events, semantic_seq, views, ParcelWatcherEvent, RawEvent};

verus! {

/// Settling window, in milliseconds, for backends fed by kernel notifications.
pub const NATIVE_SETTLING_MS: u64 = 10;

/// Settling window, in milliseconds, for backends that poll the filesystem.
pub const POLLING_SETTLING_MS: u64 = 1000;

/// The settling window that suits a backend: short where the kernel notifies,
/// about a second where changes are found by polling.
pub fn settling_window_ms(native: bool) -> (r: u64)
    ensures
        r == if native {
            NATIVE_SETTLING_MS
        } else {
            POLLING_SETTLING_MS
        },
{
    if native {
        NATIVE_SETTLING_MS
    } else {
        POLLING_SETTLING_MS
    }
}

/// Whether a raw notification is the library's reading of a debounced one:
/// the same variant, with the paths carried over as text.
pub open spec fn reads_as(e: DebouncedEvent, r: RawEvent) -> bool {
    match e {
        DebouncedEvent::Create(_) => r is Created,
        DebouncedEvent::Write(_) => r is Written,
        DebouncedEvent::Chmod(_) => r is MetadataChanged,
        DebouncedEvent::Remove(_) => r is Removed,
        DebouncedEvent::Rename(_, _) => r is Renamed,
        _ => r is Ignored,
    }
}

/// Reads a batch of debounced notifications, keeping their order.
pub fn raw_events_of(batch: &Vec<DebouncedEvent>) -> (r: Vec<RawEvent>)
    ensures
        r@.len() == batch@.len(),
        forall|i: int| 0 <= i < r@.len() ==> reads_as(#[trigger] batch@[i], r@[i]),
{
    let mut out: Vec<RawEvent> = Vec::new();
    let mut i: usize = 0;
    while i < batch.len()
        invariant
            i <= batch@.len(),
            out@.len() == i,
            forall|k: int| 0 <= k < i ==> reads_as(#[trigger] batch@[k], out@[k]),
        decreases batch@.len() - i,
    {
        let r = read_event(&batch[i]);
        out.push(r);
        i = i + 1;
    }
    out
}

/// The class of error that a failure of the backend stands for: a path that
/// is missing, or any other platform failure. An I/O failure is a path error
/// where the file or directory is missing.
pub open spec fn backend_error_kind(e: notify::Error) -> ErrorKind {
    match e {
        notify::Error::PathNotFound => ErrorKind::Path,
        _ => ErrorKind::Platform,
    }
}

/// Turns a failure of the backend into a watcher error with the backend's diagnostic.
pub fn error_from_backend(e: notify::Error) -> (r: ParcelWatcherError)
    ensures
        r.kind == ErrorKind::Path || r.kind == ErrorKind::Platform,
        !(e is Io) ==> r.kind == backend_error_kind(e),
{
    let reason = diagnostic(&e);
    let kind = match &e {
        notify::Error::PathNotFound => ErrorKind::Path,
        notify::Error::Io(io) => {
            if is_not_found(io) {
                ErrorKind::Path
            } else {
                ErrorKind::Platform
            }
        },
        _ => ErrorKind::Platform,
    };
    ParcelWatcherError::new(kind, reason)
}

/// A consumer of semantic events, registered with a watcher by its host.
pub trait Subscriber {
    /// Takes one event; an error is reported back but stops no delivery.
    fn invoke(&self, event: ParcelWatcherEvent) -> Result<(), ParcelWatcherError>;
}

/// A directory root being watched.
pub struct WatchTarget {
    pub id: u64,
    pub root_path: String,
    pub recursive: bool,
}

/// The mathematical value of a watch target: its id, root and recursion.
pub type TargetView = (u64, Seq<char>, bool);

impl View for WatchTarget {
    type V = TargetView;

    open spec fn view(&self) -> TargetView {
        (self.id, self.root_path@, self.recursive)
    }
}

struct SubscriberEntry<S> {
    id: u64,
    handler: S,
}

/// One delivery of one event to one subscriber, with what the subscriber answered.
pub struct Delivery {
    pub event_index: usize,
    pub subscriber: u64,
    pub result: Result<(), ParcelWatcherError>,
}

/// The deliveries owed for `n` events and the subscribers `ids`, in order: for
/// each event in turn, every subscriber in registration order.
pub open spec fn schedule(n: nat, ids: Seq<u64>) -> Seq<(int, u64)>
    decreases n,
{
    if n == 0 {
        Seq::empty()
    } else {
        schedule((n - 1) as nat, ids) + ids.map_values(|id: u64| ((n - 1) as int, id))
    }
}

/// The (event, subscriber) pairs of a delivery log.
pub open spec fn delivered(log: Seq<Delivery>) -> Seq<(int, u64)> {
    log.map_values(|d: Delivery| (d.event_index as int, d.subscriber))
}

/// With no events nothing is delivered, whatever subscribers are registered.
pub proof fn lemma_no_events_no_deliveries(ids: Seq<u64>)
    ensures
        schedule(0, ids) == Seq::<(int, u64)>::empty(),
{
}

/// Every subscriber receives every event exactly once: the deliveries for `n`
/// events are `n` blocks, one per event in order, and the block of event `i`
/// holds each subscriber once, in registration order.
pub proof fn lemma_schedule_covers_each_pair_once(n: nat, ids: Seq<u64>)
    ensures
        schedule(n, ids).len() == n * ids.len(),
        forall|i: int, j: int|
            0 <= i < n && 0 <= j < ids.len() ==> #[trigger] schedule(n, ids)[i * ids.len() + j] == (
            i,
            ids[j],
        ),
    decreases n,
{
    if n > 0 {
        let m = (n - 1) as nat;
        lemma_schedule_covers_each_pair_once(m, ids);
        let len = ids.len();
        let block = ids.map_values(|id: u64| (m as int, id));
        assert(schedule(n, ids) == schedule(m, ids) + block);
        assert(n * len == m * len + len) by (nonlinear_arith)
            requires
                m == n - 1,
        ;
        assert forall|i: int, j: int| 0 <= i < n && 0 <= j < len implies #[trigger] schedule(
            n,
            ids,
        )[i * len + j] == (i, ids[j]) by {
            if i < m {
                assert(i * len + j < m * len) by (nonlinear_arith)
                    requires
                        0 <= i < m,
                        0 <= j < len,
                ;
                assert(0 <= i * len) by (nonlinear_arith)
                    requires
                        0 <= i,
                        0 <= len,
                ;
            } else {
                assert(i * len == m * len) by (nonlinear_arith)
                    requires
                        i == m,
                ;
                assert(block[j] == (i, ids[j]));
            }
        }
    } else {
        assert(n * ids.len() == 0) by (nonlinear_arith)
            requires
                n == 0,
        ;
    }
}

/// A watcher: the watched roots, the backend that reports changes under them,
/// and the subscribers that changes are handed to.
pub struct ParcelWatcher<S> {
    notify_receiver: Receiver<DebouncedEvent>,
    notify_watcher: RecommendedWatcher,
    targets: Vec<WatchTarget>,
    next_watch_id: u64,
    subscribers: Vec<SubscriberEntry<S>>,
    next_subscriber_id: u64,
    settling_ms: u64,
}

impl<S: Subscriber> ParcelWatcher<S> {
    /// The watched roots, in the order they were added.
    pub closed spec fn targets(&self) -> Seq<TargetView> {
        self.targets@.map_values(|t: WatchTarget| t@)
    }

    /// The id the next added root will get.
    pub closed spec fn next_watch_id(&self) -> u64 {
        self.next_watch_id
    }

    /// The registered subscribers' ids, in registration order.
    pub closed spec fn subscriber_ids(&self) -> Seq<u64> {
        self.subscribers@.map_values(|e: SubscriberEntry<S>| e.id)
    }

    /// The id the next registered subscriber will get.
    pub closed spec fn next_subscriber_id(&self) -> u64 {
        self.next_subscriber_id
    }

    /// The settling window, in milliseconds, that the backend was started with.
    pub closed spec fn settling_window(&self) -> u64 {
        self.settling_ms
    }

    /// Whether `path` is watched with recursion `recursive`.
    pub open spec fn has_root(&self, path: Seq<char>, recursive: bool) -> bool {
        exists|i: int| 0 <= i < self.targets().len() && #[trigger] self.targets()[i].1 == path
            && self.targets()[i].2 == recursive
    }

    /// Whether a root with id `id` is watched.
    pub open spec fn has_watch(&self, id: u64) -> bool {
        exists|i: int| 0 <= i < self.targets().len() && #[trigger] self.targets()[i].0 == id
    }

    /// Ids rise along the roots and along the subscribers and stay under the
    /// next ids; no root is registered twice with the same recursion.
    pub open spec fn wf(&self) -> bool {
        &&& forall|i: int, j: int|
            0 <= i < j < self.targets().len() ==> #[trigger] self.targets()[i].0
                < #[trigger] self.targets()[j].0
        &&& forall|i: int|
            0 <= i < self.targets().len() ==> #[trigger] self.targets()[i].0 < self.next_watch_id()
        &&& forall|i: int, j: int|
            0 <= i < j < self.targets().len() ==> !(#[trigger] self.targets()[i].1
                == #[trigger] self.targets()[j].1 && self.targets()[i].2 == self.targets()[j].2)
        &&& forall|i: int, j: int|
            0 <= i < j < self.subscriber_ids().len() ==> #[trigger] self.subscriber_ids()[i]
                < #[trigger] self.subscriber_ids()[j]
        &&& forall|i: int|
            0 <= i < self.subscriber_ids().len() ==> #[trigger] self.subscriber_ids()[i]
                < self.next_subscriber_id()
    }

    /// Starts a watcher with the settling window of kernel-notified backends.
    pub fn new() -> (r: Result<ParcelWatcher<S>, ParcelWatcherError>)
        ensures
            r matches Ok(w) ==> w.wf() && w.targets() == Seq::<TargetView>::empty()
                && w.subscriber_ids() == Seq::<u64>::empty() && w.settling_window()
                == NATIVE_SETTLING_MS,
            r is Err ==> fails_with(r, ErrorKind::Platform),
    {
        Self::with_settling_window(settling_window_ms(true))
    }

    /// Starts a watcher whose backend settles each path's changes for `delay_ms`
    /// milliseconds before reporting them. A backend that fails to start is a
    /// platform error.
    pub fn with_settling_window(delay_ms: u64) -> (r: Result<ParcelWatcher<S>, ParcelWatcherError>)
        ensures
            r matches Ok(w) ==> w.wf() && w.targets() == Seq::<TargetView>::empty()
                && w.subscriber_ids() == Seq::<u64>::empty() && w.settling_window() == delay_ms,
            r is Err ==> fails_with(r, ErrorKind::Platform),
    {
        let (tx, rx) = open_channel();
        match start_watcher(tx, delay_ms) {
            Ok(notify_watcher) => {
                let w = ParcelWatcher {
                    notify_receiver: rx,
                    notify_watcher,
                    targets: Vec::new(),
                    next_watch_id: 0,
                    subscribers: Vec::new(),
                    next_subscriber_id: 0,
                    settling_ms: delay_ms,
                };
                assert(w.targets() =~= Seq::<TargetView>::empty());
                assert(w.subscriber_ids() =~= Seq::<u64>::empty());
                Ok(w)
            },
            Err(e) => Err(ParcelWatcherError::new(ErrorKind::Platform, diagnostic(&e))),
        }
    }

    fn find_root(&self, path: &String, recursive: bool) -> (r: Option<usize>)
        ensures
            r is Some <==> self.has_root(path@, recursive),
    {
        let mut i: usize = 0;
        while i < self.targets.len()
            invariant
                i <= self.targets@.len(),
                forall|k: int|
                    0 <= k < i ==> !(#[trigger] self.targets()[k].1 == path@ && self.targets()[k].2
                        == recursive),
            decreases self.targets@.len() - i,
        {
            if self.targets[i].recursive == recursive && self.targets[i].root_path == *path {
                assert(self.targets()[i as int].1 == path@);
                return Some(i);
            }
            i = i + 1;
        }
        None
    }

    /// Starts watching the directory `path`, with its whole tree where
    /// `recursive` holds, and returns the new root's id.
    ///
    /// A root already watched with the same recursion is refused; otherwise the
    /// backend is asked, and its refusal is returned as a path error (the path
    /// is missing) or a platform error.
    pub fn add_watch(&mut self, path: &str, recursive: bool) -> (r: Result<u64, ParcelWatcherError>)
        requires
            old(self).wf(),
        ensures
            final(self).wf(),
            final(self).subscriber_ids() == old(self).subscriber_ids(),
            final(self).next_subscriber_id() == old(self).next_subscriber_id(),
            old(self).has_root(path@, recursive) ==> fails_with(r, ErrorKind::AlreadyWatched),
            !old(self).has_root(path@, recursive) && old(self).next_watch_id() == u64::MAX
                ==> fails_with(r, ErrorKind::IdsExhausted),
            !old(self).has_root(path@, recursive) && old(self).next_watch_id() < u64::MAX ==> (
            r is Ok || fails_with(r, ErrorKind::Path) || fails_with(r, ErrorKind::Platform)),
            r matches Ok(id) ==> id == old(self).next_watch_id() && final(self).targets()
                == old(self).targets().push((id, path@, recursive)) && final(self).next_watch_id()
                == id + 1,
            r is Err ==> final(self).targets() == old(self).targets() && final(self).next_watch_id()
                == old(self).next_watch_id(),
    {
        let owned = path.to_owned();
        if self.find_root(&owned, recursive).is_some() {
            return Err(
                ParcelWatcherError::new(ErrorKind::AlreadyWatched, "path is already watched".to_owned()),
            );
        }
        if self.next_watch_id == u64::MAX {
            return Err(
                ParcelWatcherError::new(ErrorKind::IdsExhausted, "no watch id is left".to_owned()),
            );
        }
        let mode = if recursive {
            RecursiveMode::Recursive
        } else {
            RecursiveMode::NonRecursive
        };
        match watch_path(&mut self.notify_watcher, path, mode) {
            Ok(()) => {
                let id = self.next_watch_id;
                self.targets.push(WatchTarget { id, root_path: owned, recursive });
                self.next_watch_id = id + 1;
                assert(self.subscriber_ids() == old(self).subscriber_ids());
                assert(self.next_subscriber_id() == old(self).next_subscriber_id());
                let ghost t = self.targets();
                let ghost ot = old(self).targets();
                assert(t =~= ot.push((id, path@, recursive)));
                assert forall|i: int, j: int| 0 <= i < j < t.len() implies t[i].0 < t[j].0 && !(
                t[i].1 == t[j].1 && t[i].2 == t[j].2) by {
                    if j == t.len() - 1 {
                        assert(t[i] == ot[i]);
                        assert(ot[i].0 < id);
                        if ot[i].1 == path@ && ot[i].2 == recursive {
                            assert(old(self).has_root(path@, recursive));
                        }
                    } else {
                        assert(t[i] == ot[i] && t[j] == ot[j]);
                    }
                }
                assert forall|i: int| 0 <= i < t.len() implies #[trigger] t[i].0
                    < self.next_watch_id() by {
                    if i < t.len() - 1 {
                        assert(t[i] == ot[i]);
                    }
                }
                Ok(id)
            },
            Err(e) => {
                assert(self.subscriber_ids() == old(self).subscriber_ids());
                assert(self.targets() == old(self).targets());
                Err(error_from_backend(e))
            },
        }
    }

    /// Watches the directory `path` and everything below it.
    pub fn watch(&mut self, path: &str) -> (r: Result<(), ParcelWatcherError>)
        requires
            old(self).wf(),
        ensures
            final(self).wf(),
            final(self).subscriber_ids() == old(self).subscriber_ids(),
            final(self).next_subscriber_id() == old(self).next_subscriber_id(),
            old(self).has_root(path@, true) ==> fails_with(r, ErrorKind::AlreadyWatched),
            !old(self).has_root(path@, true) && old(self).next_watch_id() == u64::MAX
                ==> fails_with(r, ErrorKind::IdsExhausted),
            !old(self).has_root(path@, true) && old(self).next_watch_id() < u64::MAX ==> (r is Ok
                || fails_with(r, ErrorKind::Path) || fails_with(r, ErrorKind::Platform)),
            r is Ok ==> final(self).targets() == old(self).targets().push(
                (old(self).next_watch_id(), path@, true),
            ),
            r is Err ==> final(self).targets() == old(self).targets(),
    {
        match self.add_watch(path, true) {
            Ok(_) => Ok(()),
            Err(e) => Err(e),
        }
    }

    fn find_watch(&self, id: u64) -> (r: Option<usize>)
        ensures
            r is Some <==> self.has_watch(id),
            r matches Some(i) ==> i < self.targets().len() && self.targets()[i as int].0 == id,
    {
        let mut i: usize = 0;
        while i < self.targets.len()
            invariant
                i <= self.targets@.len(),
                forall|k: int| 0 <= k < i ==> #[trigger] self.targets()[k].0 != id,
            decreases self.targets@.len() - i,
        {
            if self.targets[i].id == id {
                assert(self.targets()[i as int].0 == id);
                return Some(i);
            }
            i = i + 1;
        }
        None
    }

    /// Stops watching the root with id `id`; every other root stays watched.
    ///
    /// An unknown id is refused. Otherwise the root is dropped from the
    /// registry, and a failure of the backend to unsubscribe it is returned as
    /// a platform error.
    pub fn remove_watch(&mut self, id: u64) -> (r: Result<(), ParcelWatcherError>)
        requires
            old(self).wf(),
        ensures
            final(self).wf(),
            final(self).subscriber_ids() == old(self).subscriber_ids(),
            final(self).next_subscriber_id() == old(self).next_subscriber_id(),
            final(self).next_watch_id() == old(self).next_watch_id(),
            !old(self).has_watch(id) ==> fails_with(r, ErrorKind::NotFound) && final(self).targets()
                == old(self).targets(),
            old(self).has_watch(id) ==> (r is Ok || fails_with(r, ErrorKind::Platform)) && exists|
                i: int,
            |
                0 <= i < old(self).targets().len() && old(self).targets()[i].0 == id
                    && final(self).targets() == old(self).targets().remove(i),
            forall|t: TargetView|
                #[trigger] final(self).targets().contains(t) <==> old(self).targets().contains(t)
                    && t.0 != id,
    {
        match self.find_watch(id) {
            None => {
                assert forall|t: TargetView|
                    #[trigger] self.targets().contains(t) implies t.0 != id by {
                    let k = choose|k: int| 0 <= k < self.targets().len() && self.targets()[k] == t;
                    assert(self.targets()[k].0 == t.0);
                }
                Err(ParcelWatcherError::new(ErrorKind::NotFound, "no such watch".to_owned()))
            },
            Some(i) => {
                let res = unwatch_path(&mut self.notify_watcher, self.targets[i].root_path.as_str());
                self.targets.remove(i);
                let ghost old_t = old(self).targets();
                let ghost t = self.targets();
                assert(t =~= old_t.remove(i as int));
                assert(self.subscriber_ids() == old(self).subscriber_ids());
                assert(self.next_subscriber_id() == old(self).next_subscriber_id());
                assert forall|a: int, b: int| 0 <= a < b < t.len() implies t[a].0 < t[b].0 && !(
                t[a].1 == t[b].1 && t[a].2 == t[b].2) by {
                    let oa = if a < i { a } else { a + 1 };
                    let ob = if b < i { b } else { b + 1 };
                    assert(t[a] == old_t[oa] && t[b] == old_t[ob]);
                }
                assert forall|a: int| 0 <= a < t.len() implies #[trigger] t[a].0
                    < self.next_watch_id() by {
                    let oa = if a < i { a } else { a + 1 };
                    assert(t[a] == old_t[oa]);
                }
                assert forall|x: TargetView|
                    #[trigger] t.contains(x) <==> old_t.contains(x) && x.0 != id by {
                    if t.contains(x) {
                        let k = choose|k: int| 0 <= k < t.len() && t[k] == x;
                        let ok = if k < i { k } else { k + 1 };
                        assert(old_t[ok] == x);
                        assert(old_t[i as int].0 == id);
                    }
                    if old_t.contains(x) && x.0 != id {
                        let k = choose|k: int| 0 <= k < old_t.len() && old_t[k] == x;
                        if k < i {
                            assert(t[k] == x);
                        } else {
                            assert(t[k - 1] == x);
                        }
                    }
                }
                match res {
                    Ok(()) => Ok(()),
                    Err(e) => Err(ParcelWatcherError::new(ErrorKind::Platform, diagnostic(&e))),
                }
            },
        }
    }

    /// Registers `handler` after every subscriber already registered and
    /// returns its id.
    pub fn register_callback(&mut self, handler: S) -> (r: Result<u64, ParcelWatcherError>)
        requires
            old(self).wf(),
        ensures
            final(self).wf(),
            final(self).targets() == old(self).targets(),
            final(self).next_watch_id() == old(self).next_watch_id(),
            old(self).next_subscriber_id() == u64::MAX <==> fails_with(r, ErrorKind::IdsExhausted),
            r is Err ==> final(self).subscriber_ids() == old(self).subscriber_ids()
                && final(self).next_subscriber_id() == old(self).next_subscriber_id(),
            r matches Ok(id) ==> id == old(self).next_subscriber_id() && final(self).subscriber_ids()
                == old(self).subscriber_ids().push(id) && final(self).next_subscriber_id() == id
                + 1,
    {
        if self.next_subscriber_id == u64::MAX {
            return Err(
                ParcelWatcherError::new(ErrorKind::IdsExhausted, "no subscriber id is left".to_owned()),
            );
        }
        let id = self.next_subscriber_id;
        self.subscribers.push(SubscriberEntry { id, handler });
        self.next_subscriber_id = id + 1;
        let ghost ids = self.subscriber_ids();
        let ghost old_ids = old(self).subscriber_ids();
        assert(ids =~= old_ids.push(id));
        assert(self.targets() == old(self).targets());
        assert forall|a: int, b: int| 0 <= a < b < ids.len() implies ids[a] < ids[b] by {
            assert(ids[a] == old_ids[a]);
            if b < old_ids.len() {
                assert(ids[b] == old_ids[b]);
            }
        }
        assert forall|a: int| 0 <= a < ids.len() implies #[trigger] ids[a]
            < self.next_subscriber_id() by {
            if a < old_ids.len() {
                assert(ids[a] == old_ids[a]);
            }
        }
        Ok(id)
    }

    /// Removes the subscriber with id `id`; the others keep their order.
    pub fn unregister_callback(&mut self, id: u64) -> (r: Result<(), ParcelWatcherError>)
        requires
            old(self).wf(),
        ensures
            final(self).wf(),
            final(self).targets() == old(self).targets(),
            final(self).next_watch_id() == old(self).next_watch_id(),
            final(self).next_subscriber_id() == old(self).next_subscriber_id(),
            r is Ok <==> old(self).subscriber_ids().contains(id),
            r is Err ==> fails_with(r, ErrorKind::NotFound) && final(self).subscriber_ids()
                == old(self).subscriber_ids(),
            r is Ok ==> exists|i: int|
                0 <= i < old(self).subscriber_ids().len() && old(self).subscriber_ids()[i] == id
                    && final(self).subscriber_ids() == old(self).subscriber_ids().remove(i),
    {
        let mut i: usize = 0;
        while i < self.subscribers.len()
            invariant
                i <= self.subscribers@.len(),
                forall|k: int| 0 <= k < i ==> #[trigger] self.subscriber_ids()[k] != id,
                *self == *old(self),
                old(self).wf(),
            decreases self.subscribers@.len() - i,
        {
            if self.subscribers[i].id == id {
                let ghost old_ids = self.subscriber_ids();
                assert(old_ids == old(self).subscriber_ids());
                assert(old_ids[i as int] == id);
                let _ = self.subscribers.remove(i);
                let ghost ids = self.subscriber_ids();
                assert(ids =~= old_ids.remove(i as int));
                assert(self.targets() == old(self).targets());
                assert forall|a: int, b: int| 0 <= a < b < ids.len() implies ids[a] < ids[b] by {
                    let oa = if a < i { a } else { a + 1 };
                    let ob = if b < i { b } else { b + 1 };
                    assert(ids[a] == old_ids[oa] && ids[b] == old_ids[ob]);
                    assert(old(self).subscriber_ids()[oa] < old(self).subscriber_ids()[ob]);
                }
                assert forall|a: int| 0 <= a < ids.len() implies #[trigger] ids[a]
                    < self.next_subscriber_id() by {
                    let oa = if a < i { a } else { a + 1 };
                    assert(ids[a] == old_ids[oa]);
                    assert(old(self).subscriber_ids()[oa] < old(self).next_subscriber_id());
                }
                return Ok(());
            }
            i = i + 1;
        }
        assert(!self.subscriber_ids().contains(id)) by {
            if self.subscriber_ids().contains(id) {
                let k = choose|k: int|
                    0 <= k < self.subscriber_ids().len() && self.subscriber_ids()[k] == id;
                assert(self.subscriber_ids()[k] != id);
            }
        }
        Err(ParcelWatcherError::new(ErrorKind::NotFound, "no such subscriber".to_owned()))
    }

    /// Hands each of `events`, in order, to every subscriber in registration
    /// order, and returns the log of these deliveries. A subscriber's failure
    /// is logged as a subscriber error and delivery goes on.
    pub fn dispatch(&self, events: &Vec<ParcelWatcherEvent>) -> (log: Vec<Delivery>)
        ensures
            delivered(log@) == schedule(events@.len(), self.subscriber_ids()),
            forall|k: int|
                0 <= k < log@.len() ==> (#[trigger] log@[k]).result is Err ==> fails_with(
                    log@[k].result,
                    ErrorKind::Subscriber,
                ),
    {
        let mut log: Vec<Delivery> = Vec::new();
        let mut i: usize = 0;
        assert(delivered(log@) =~= schedule(0, self.subscriber_ids()));
        while i < events.len()
            invariant
                i <= events@.len(),
                delivered(log@) == schedule(i as nat, self.subscriber_ids()),
                forall|k: int|
                    0 <= k < log@.len() ==> (#[trigger] log@[k]).result is Err ==> fails_with(
                        log@[k].result,
                        ErrorKind::Subscriber,
                    ),
            decreases events@.len() - i,
        {
            let ghost before = delivered(log@);
            let mut j: usize = 0;
            assert(delivered(log@) =~= before + self.subscriber_ids().take(0).map_values(
                |id: u64| (i as int, id),
            ));
            while j < self.subscribers.len()
                invariant
                    i < events@.len(),
                    j <= self.subscribers@.len(),
                    delivered(log@) == before + self.subscriber_ids().take(j as int).map_values(
                        |id: u64| (i as int, id),
                    ),
                    forall|k: int|
                        0 <= k < log@.len() ==> (#[trigger] log@[k]).result is Err ==> fails_with(
                            log@[k].result,
                            ErrorKind::Subscriber,
                        ),
                decreases self.subscribers@.len() - j,
            {
                let entry = &self.subscribers[j];
                let result = match entry.handler.invoke(events[i].copy()) {
                    Ok(()) => Ok(()),
                    Err(e) => Err(ParcelWatcherError::new(ErrorKind::Subscriber, e.reason)),
                };
                let ghost log_before = log@;
                log.push(Delivery { event_index: i, subscriber: entry.id, result });
                assert(self.subscriber_ids()[j as int] == entry.id);
                assert(self.subscriber_ids().take(j + 1).map_values(|id: u64| (i as int, id))
                    =~= self.subscriber_ids().take(j as int).map_values(|id: u64| (i as int, id)).push(
                    (i as int, entry.id),
                ));
                assert(delivered(log@) =~= delivered(log_before).push((i as int, entry.id)));
                j = j + 1;
            }
            assert(self.subscriber_ids().take(j as int) =~= self.subscriber_ids());
            assert(schedule((i + 1) as nat, self.subscriber_ids()) == schedule(
                i as nat,
                self.subscriber_ids(),
            ) + self.subscriber_ids().map_values(|id: u64| (i as int, id)));
            i = i + 1;
        }
        log
    }

    /// Dispatches the semantic events of a batch of raw notifications, in
    /// order. Returns the events and the log of deliveries.
    pub fn process_batch(&self, batch: &Vec<RawEvent>) -> (r: (
        Vec<ParcelWatcherEvent>,
        Vec<Delivery>,
    ))
        ensures
            views(r.0@) == semantic_seq(batch@),
            delivered(r.1@) == schedule(r.0@.len(), self.subscriber_ids()),
            forall|k: int|
                0 <= k < r.1@.len() ==> (#[trigger] r.1@[k]).result is Err ==> fails_with(
                    r.1@[k].result,
                    ErrorKind::Subscriber,
                ),
    {
        let events = semantic_events(batch);
        let log = self.dispatch(&events);
        (events, log)
    }

    /// Takes the notifications that the backend has settled since the last
    /// call, without waiting for more, reads them, and dispatches their
    /// semantic events. Returns the events, in order, and the log of deliveries.
    pub fn process_events(&self) -> (r: (Vec<ParcelWatcherEvent>, Vec<Delivery>))
        ensures
            r.0@.len() == 0 ==> r.1@.len() == 0,
            delivered(r.1@) == schedule(r.0@.len(), self.subscriber_ids()),
            forall|k: int|
                0 <= k < r.1@.len() ==> (#[trigger] r.1@[k]).result is Err ==> fails_with(
                    r.1@[k].result,
                    ErrorKind::Subscriber,
                ),
    {
        let batch = take_pending(&self.notify_receiver);
        let raw = raw_events_of(&batch);
        let r = self.process_batch(&raw);
        proof {
            if r.0@.len() == 0 {
                lemma_no_events_no_deliveries(self.subscriber_ids());
                assert(delivered(r.1@).len() == 0);
            }
        }
        r
    }

    /// Whether a root with id `id` is being watched.
    pub fn is_watched(&self, id: u64) -> (r: bool)
        ensures
            r == self.has_watch(id),
    {
        self.find_watch(id).is_some()
    }

    /// How many roots are being watched.
    pub fn watch_count(&self) -> (r: usize)
        ensures
            r == self.targets().len(),
    {
        self.targets.len()
    }

    /// The settling window, in milliseconds, that the backend was started with.
    pub fn window_ms(&self) -> (r: u64)
        ensures
            r == self.settling_window(),
    {
        self.settling_ms
    }

    /// How many subscribers are registered.
    pub fn subscriber_count(&self) -> (r: usize)
        ensures
            r == self.subscriber_ids().len(),
    {
        self.subscribers.len()
    }

    /// Shuts the watcher down: unsubscribes every root from the backend, then
    /// releases the backend. The first failure to unsubscribe is returned, as
    /// a platform error, after all roots were tried.
    pub fn close(self) -> (r: Result<(), ParcelWatcherError>)
        ensures
            r is Ok || fails_with(r, ErrorKind::Platform),
            self.targets().len() == 0 ==> r is Ok,
    {
        let mut w = self;
        let mut first_error: Option<ParcelWatcherError> = None;
        let mut i: usize = 0;
        while i < w.targets.len()
            invariant
                i <= w.targets@.len(),
                first_error matches Some(e) ==> e.kind == ErrorKind::Platform,
                first_error is Some ==> i > 0,
                w.targets@.len() == self.targets().len(),
            decreases w.targets@.len() - i,
        {
            let res = unwatch_path(&mut w.notify_watcher, w.targets[i].root_path.as_str());
            if let Err(e) = res {
                if first_error.is_none() {
                    first_error = Some(ParcelWatcherError::new(ErrorKind::Platform, diagnostic(&e)));
                }
            }
            i = i + 1;
        }
        match first_error {
            Some(e) => Err(e),
            None => Ok(()),
        }
    }
}


} // verus!
