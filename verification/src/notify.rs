//! A framework for notifying users about what the library is doing.
//!
//! Notifications are purely observational: they report actions taken and
//! problems seen, and never feed back into the library's control flow.

use vstd::prelude::*;

use crate::errors::Error;

verus! {

/// How chatty the notification system should be.
#[derive(Clone, Copy, Debug, Eq, PartialEq, Structural)]
pub enum ChatterLevel {
    /// A minimal level of output — only warnings and errors are reported.
    Minimal,
    /// The normal level of output — informational messages are reported.
    Normal,
}

impl ChatterLevel {
    /// The rank of a level: a chattier level ranks higher.
    pub open spec fn spec_rank(&self) -> u32 {
        match self {
            ChatterLevel::Minimal => 0,
            ChatterLevel::Normal => 1,
        }
    }

    /// The rank of a level, for comparing two levels.
    pub fn rank(&self) -> (r: u32)
        ensures
            r == self.spec_rank(),
    {
        match self {
            ChatterLevel::Minimal => 0,
            ChatterLevel::Normal => 1,
        }
    }

    /// Whether output of another level's chattiness is shown at this one.
    pub fn permits(&self, other: ChatterLevel) -> (r: bool)
        ensures
            r == (other.spec_rank() <= self.spec_rank()),
    {
        other.rank() <= self.rank()
    }
}

/// The kind of notification that is being produced.
#[derive(Clone, Copy, Debug, Eq, PartialEq, Structural)]
pub enum NotificationKind {
    /// An informational notice.
    Note,
    /// Warning of an unusual condition; the task will likely succeed.
    Warning,
    /// A severe problem; the task will likely fail but goes on.
    Severe,
    /// A fatal problem; the task must give up.
    Fatal,
}

/// Trait for types that handle notifications to the user.
pub trait NotificationBackend {
    /// Notify the user about an event.
    ///
    /// If `err` is not `None`, the information it carries should be
    /// reported after the main message.
    fn notify(&mut self, kind: NotificationKind, message: &str, err: Option<&Error>);
}

/// A no-op notification backend.
///
/// This empty structure implements the NotificationBackend trait. Its
/// `notify()` function does nothing.
#[derive(Clone, Copy, Debug)]
pub struct NoopNotificationBackend {}

impl NoopNotificationBackend {
    /// Create a new NoopNotificationBackend object.
    pub fn new() -> NoopNotificationBackend {
        NoopNotificationBackend {  }
    }
}

impl NotificationBackend for NoopNotificationBackend {
    fn notify(&mut self, _kind: NotificationKind, _message: &str, _err: Option<&Error>) {
    }
}

} // verus!
