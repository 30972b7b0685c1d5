//! Monitoring core for physical security devices.
//!
//! The crate holds the verified logic of a device-monitoring process: a
//! framer that extracts checksummed frames from a noisy serial byte
//! stream, a decoder that reassembles two-line keypad display messages,
//! the bookkeeping of cancellable background tasks, and the state cycle
//! of a dummy test device. Reading the serial port, running the
//! concurrency runtime and delivering notifications are left to the
//! binary built around this library.

use vstd::prelude::*;

pub mod framer;
pub mod keypad;
pub mod monitor;
pub mod napco;
pub mod status;
pub mod task;

verus! {

/// Process-unique identifier of one device monitor.
#[derive(Clone, Copy, PartialEq, Eq, Hash, Debug, Structural)]
pub struct DeviceId(pub u64);

/// Hands out device identifiers, each one exactly once.
///
/// The counter is an explicit object rather than ambient global state,
/// so identifiers are deterministic wherever that matters.
pub struct DeviceIdAllocator {
    next: u64,
}

impl DeviceIdAllocator {
    /// The value the next allocated identifier will carry.
    pub closed spec fn spec_next(&self) -> u64 {
        self.next
    }

    /// A fresh allocator; the first identifier handed out is 1.
    pub fn new() -> (r: Self)
        ensures
            r.spec_next() == 1u64,
    {
        DeviceIdAllocator { next: 1 }
    }

    /// The value the next allocated identifier will carry; callers test
    /// it against the counter's ceiling before allocating.
    pub fn next_value(&self) -> (r: u64)
        ensures
            r == self.spec_next(),
    {
        self.next
    }

    /// Allocate the next identifier. Identifiers increase strictly, so
    /// two allocations from one allocator never collide.
    pub fn allocate(&mut self) -> (id: DeviceId)
        requires
            old(self).spec_next() < u64::MAX,
        ensures
            id == DeviceId(old(self).spec_next()),
            final(self).spec_next() == old(self).spec_next() + 1,
    {
        let id = DeviceId(self.next);
        self.next = self.next + 1;
        id
    }
}

/// Severity of a status update or log line.
#[derive(Clone, Copy, PartialEq, Eq, Debug, Structural)]
pub enum StatusLevel {
    /// Low-priority information, not sent to any notification target.
    Info,
    /// Routine status update, sent to the status notification target.
    Status,
    /// High-priority information, sent to the alarm notification target.
    Warning,
    /// Alarm status update, sent to the alarm notification target.
    Alarm,
}

impl StatusLevel {
    /// Whether an update of this level is routed to the alarm
    /// notification target; otherwise it goes to the status target.
    pub fn routes_to_alarm(&self) -> (r: bool)
        ensures
            r == (*self == StatusLevel::Warning || *self == StatusLevel::Alarm),
    {
        match self {
            StatusLevel::Info => false,
            StatusLevel::Status => false,
            StatusLevel::Warning => true,
            StatusLevel::Alarm => true,
        }
    }
}

/// Where a notification is delivered.
#[derive(Clone, Debug)]
pub enum NotificationTarget {
    /// A Discord-compatible webhook.
    DiscordWebhook {
        /// Webhook URL.
        url: String,
        /// Optional username overriding the webhook's default.
        username: Option<String>,
    },
}

/// Errors of the monitoring core.
#[derive(Clone, Copy, PartialEq, Eq, Debug, Structural)]
pub enum MonitorError {
    /// A dummy device was configured with an empty state list.
    EmptyStateList,
    /// The requested operation has no implementation.
    NotImplemented,
    /// A task's result was requested a second time.
    TaskAlreadyFinished,
}

impl MonitorError {
    /// A human-readable description of the error.
    pub fn message(&self) -> (r: &'static str)
        ensures
            *self == MonitorError::EmptyStateList ==> r@ == "dummy device must have at least one state"@,
            *self == MonitorError::NotImplemented ==> r@ == "not implemented"@,
            *self == MonitorError::TaskAlreadyFinished ==> r@ == "task already finished"@,
    {
        match self {
            MonitorError::EmptyStateList => "dummy device must have at least one state",
            MonitorError::NotImplemented => "not implemented",
            MonitorError::TaskAlreadyFinished => "task already finished",
        }
    }
}

/// Name of the configuration file the process reads, relative to its
/// working directory. Resolving and reading the file is the caller's
/// concern.
pub fn config_path() -> (r: &'static str)
    ensures
        r@ == "cerberus.json"@,
{
    "cerberus.json"
}

/// Recover notification targets from a malformed configuration file,
/// for a best-effort startup-failure notice. No recovery strategy is
/// implemented; the call always fails.
pub fn load_configruation_notification_targets() -> (r: Result<Vec<NotificationTarget>, MonitorError>)
    ensures
        r == Err::<Vec<NotificationTarget>, MonitorError>(MonitorError::NotImplemented),
{
    Err(MonitorError::NotImplemented)
}

} // verus!
