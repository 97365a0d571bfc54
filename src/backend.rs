//! The notification backend: declarations of the outside types that the
//! watcher holds, and the calls into `notify` and std that it makes.

use vstd::prelude::*;
use notify::{DebouncedEvent, RecommendedWatcher, RecursiveMode, Watcher};
use std::path::PathBuf;
use std::sync::mpsc::{Receiver, Sender};
use crate::event::RawEvent;
use crate::watcher::reads_as;

verus! {

#[verifier::external_type_specification]
#[verifier::external_body]
#[verifier::reject_recursive_types(T)]
pub struct ExReceiver<T>(Receiver<T>);

#[verifier::external_type_specification]
#[verifier::external_body]
#[verifier::reject_recursive_types(T)]
pub struct ExSender<T>(Sender<T>);

#[verifier::external_type_specification]
#[verifier::external_body]
pub struct ExRecommendedWatcher(RecommendedWatcher);

#[verifier::external_type_specification]
#[verifier::external_body]
pub struct ExPathBuf(PathBuf);

#[verifier::external_type_specification]
#[verifier::external_body]
pub struct ExIoError(std::io::Error);

#[verifier::external_type_specification]
pub struct ExNotifyError(notify::Error);

#[verifier::external_type_specification]
pub struct ExRecursiveMode(RecursiveMode);

#[verifier::external_type_specification]
pub struct ExDebouncedEvent(DebouncedEvent);

/// Relies on std::sync::mpsc::channel: a fresh channel for the backend to
/// send debounced notifications on.
#[verifier::external_body]
pub(crate) fn open_channel() -> (Sender<DebouncedEvent>, Receiver<DebouncedEvent>) {
    std::sync::mpsc::channel()
}

/// Relies on notify::Watcher::new: starts the platform's recommended watcher
/// with its debouncer, which reports each path's changes once per settling
/// window of `delay_ms` milliseconds on `tx`.
#[verifier::external_body]
pub(crate) fn start_watcher(tx: Sender<DebouncedEvent>, delay_ms: u64) -> Result<
    RecommendedWatcher,
    notify::Error,
> {
    Watcher::new(tx, std::time::Duration::from_millis(delay_ms))
}

/// Relies on notify::Watcher::watch: subscribes the watcher to `path`.
#[verifier::external_body]
pub(crate) fn watch_path(w: &mut RecommendedWatcher, path: &str, mode: RecursiveMode) -> Result<
    (),
    notify::Error,
> {
    w.watch(path, mode)
}

/// Relies on notify::Watcher::unwatch: ends the watcher's subscription to `path`.
#[verifier::external_body]
pub(crate) fn unwatch_path(w: &mut RecommendedWatcher, path: &str) -> Result<(), notify::Error> {
    w.unwatch(path)
}

/// Relies on Receiver::try_iter: the notifications queued at the time of the
/// call, in the order they were sent, taken without waiting for more.
#[verifier::external_body]
pub(crate) fn take_pending(rx: &Receiver<DebouncedEvent>) -> Vec<DebouncedEvent> {
    rx.try_iter().collect()
}

/// Relies on the variants of notify::DebouncedEvent and on Path::to_str: reads
/// a notification as the same variant, its paths as text (`None` where a path
/// is not valid Unicode), and the notifications that carry no change as ignored.
#[verifier::external_body]
pub(crate) fn read_event(e: &DebouncedEvent) -> (r: RawEvent)
    ensures
        reads_as(*e, r),
{
    let text = |p: &PathBuf| p.to_str().map(|s| s.to_owned());
    match e {
        DebouncedEvent::Create(p) => RawEvent::Created(text(p)),
        DebouncedEvent::Write(p) => RawEvent::Written(text(p)),
        DebouncedEvent::Chmod(p) => RawEvent::MetadataChanged(text(p)),
        DebouncedEvent::Remove(p) => RawEvent::Removed(text(p)),
        DebouncedEvent::Rename(a, b) => RawEvent::Renamed(text(a), text(b)),
        DebouncedEvent::NoticeWrite(_) => RawEvent::Ignored,
        DebouncedEvent::NoticeRemove(_) => RawEvent::Ignored,
        DebouncedEvent::Rescan => RawEvent::Ignored,
        DebouncedEvent::Error(_, _) => RawEvent::Ignored,
    }
}

/// Relies on io::Error::kind: whether the I/O failure is a missing file or directory.
#[verifier::external_body]
pub(crate) fn is_not_found(e: &std::io::Error) -> bool {
    e.kind() == std::io::ErrorKind::NotFound
}

/// Relies on the Debug form of notify::Error: the backend's own diagnostic text.
#[verifier::external_body]
pub(crate) fn diagnostic(e: &notify::Error) -> String {
    format!("{:?}", e)
}

} // verus!
