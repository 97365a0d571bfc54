use vstd::prelude::*;

verus! {

/// The classes of failure a watcher reports.
#[derive(Clone, Copy, Debug, PartialEq, Eq, Structural)]
pub enum ErrorKind {
    /// The path does not exist or cannot be watched as given.
    Path,
    /// The same root with the same recursion is already registered.
    AlreadyWatched,
    /// The notification backend failed to start or to add / remove a watch.
    Platform,
    /// A subscriber returned an error while an event was delivered to it.
    Subscriber,
    /// An identifier names no registered watch or subscriber.
    NotFound,
    /// No fresh identifier is left to hand out.
    IdsExhausted,
}

/// An error of the watcher: its class and a human-readable reason.
#[derive(Clone, Debug)]
pub struct ParcelWatcherError {
    pub kind: ErrorKind,
    pub reason: String,
}

/// Whether `r` is an error of class `k`.
pub open spec fn fails_with<T>(r: Result<T, ParcelWatcherError>, k: ErrorKind) -> bool {
    match r {
        Ok(_) => false,
        Err(e) => e.kind == k,
    }
}

impl ParcelWatcherError {
    pub fn new(kind: ErrorKind, reason: String) -> (r: ParcelWatcherError)
        ensures
            r.kind == kind,
            r.reason@ == reason@,
    {
        ParcelWatcherError { kind, reason }
    }

    /// The reason text, as the error's display form.
    pub fn to_string(&self) -> (r: String)
        ensures
            r@ == self.reason@,
    {
        self.reason.clone()
    }
}

} // verus!
