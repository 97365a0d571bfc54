//! A directory watcher that turns debounced filesystem notifications into
//! create / update / delete events and hands them to registered subscribers.

pub mod error;
mod backend;
pub mod event;
pub mod watcher;
