//! Device monitors: the common contract, the dummy test device's state
//! cycle, and the supervisor-owning monitor types.
//!
//! Each monitor owns one supervised background task running its device
//! loop. The loops themselves await timers, serial reads and the
//! cancellation signal, so they run with the caller; every decision
//! they take — which state follows which, what to publish at which
//! level, when construction must fail — is made here.

use vstd::prelude::*;

use tokio::task::JoinHandle;

use crate::DeviceId;
use crate::MonitorError;
use crate::StatusLevel;
use crate::task::BackgroundTask;

verus! {

/// Common contract of device monitors.
pub trait DeviceMonitor {
    /// The identifier the monitor was built with.
    spec fn monitor_id(&self) -> DeviceId;

    /// Whether the supervised task's handle is still held.
    spec fn task_live(&self) -> bool;

    /// The monitor's unique identifier.
    fn id(&self) -> (r: DeviceId)
        ensures
            r == self.monitor_id(),
    ;

    /// Stop the supervised task: signal cancellation and surrender the
    /// handle for the caller to await, exactly when it was still held.
    /// `None` once already finished; shutdown must stay safe to call
    /// during teardown either way.
    fn prepare_shutdown(&mut self) -> (r: Option<JoinHandle<()>>)
        ensures
            !final(self).task_live(),
            final(self).monitor_id() == old(self).monitor_id(),
            r is Some <==> old(self).task_live(),
    ;
}

/// The state cycle of a dummy device: a non-empty list of
/// (message, is-alarm) states walked in order, wrapping at the end.
pub struct DummyCycle {
    states: Vec<(String, bool)>,
    current: usize,
}

impl DummyCycle {
    /// The configured states.
    pub closed spec fn spec_states(&self) -> Seq<(String, bool)> {
        self.states@
    }

    /// Index of the current state.
    pub closed spec fn spec_current(&self) -> int {
        self.current as int
    }

    /// The state list is non-empty and the index lies within it.
    pub closed spec fn wf(&self) -> bool {
        &&& self.states@.len() > 0
        &&& (self.current as int) < self.states@.len()
    }

    /// Build a cycle over `states`, starting at the first entry; an
    /// empty list is a configuration error.
    pub fn new(states: Vec<(String, bool)>) -> (r: Result<Self, MonitorError>)
        ensures
            match r {
                Ok(c) => {
                    &&& states@.len() > 0
                    &&& c.wf()
                    &&& c.spec_states() == states@
                    &&& c.spec_current() == 0
                },
                Err(e) => {
                    &&& e == MonitorError::EmptyStateList
                    &&& states@.len() == 0
                },
            },
    {
        if states.len() == 0 {
            Err(MonitorError::EmptyStateList)
        } else {
            Ok(DummyCycle { states, current: 0 })
        }
    }

    /// The message and level the current state publishes: the state's
    /// text, at alarm level when the state is marked as an alarm and at
    /// status level otherwise.
    pub fn current_output(&self) -> (r: (String, StatusLevel))
        requires
            self.wf(),
        ensures
            r.0@ == self.spec_states()[self.spec_current()].0@,
            r.1 == if self.spec_states()[self.spec_current()].1 {
                StatusLevel::Alarm
            } else {
                StatusLevel::Status
            },
    {
        let message = self.states[self.current].0.clone();
        let level = if self.states[self.current].1 {
            StatusLevel::Alarm
        } else {
            StatusLevel::Status
        };
        (message, level)
    }

    /// Step to the next state, wrapping past the last back to the
    /// first.
    pub fn advance(&mut self)
        requires
            old(self).wf(),
        ensures
            final(self).wf(),
            final(self).spec_states() == old(self).spec_states(),
            final(self).spec_current() == if old(self).spec_current() + 1
                == old(self).spec_states().len() {
                0int
            } else {
                old(self).spec_current() + 1
            },
    {
        if self.current >= self.states.len() - 1 {
            self.current = 0;
        } else {
            self.current = self.current + 1;
        }
    }
}

/// Monitor of a dummy device cycling through configured states.
pub struct DummyDeviceMonitor {
    device_id: DeviceId,
    task: BackgroundTask<()>,
}

impl DummyDeviceMonitor {
    /// Own an already-spawned dummy device loop under `device_id`.
    pub fn new(device_id: DeviceId, task: BackgroundTask<()>) -> (r: Self)
        ensures
            r.monitor_id() == device_id,
            r.task_live() == task.handle_present(),
    {
        DummyDeviceMonitor { device_id, task }
    }
}

impl DeviceMonitor for DummyDeviceMonitor {
    closed spec fn monitor_id(&self) -> DeviceId {
        self.device_id
    }

    closed spec fn task_live(&self) -> bool {
        self.task.handle_present()
    }

    fn id(&self) -> DeviceId {
        self.device_id
    }

    fn prepare_shutdown(&mut self) -> Option<JoinHandle<()>> {
        self.task.prepare_finish()
    }
}

/// Monitor of a Napco Gemini alarm panel on a serial bus.
pub struct NapcoGeminiDeviceMonitor {
    device_id: DeviceId,
    monitor_task: BackgroundTask<()>,
}

impl NapcoGeminiDeviceMonitor {
    /// Own an already-spawned panel monitoring loop under `device_id`.
    /// Opening the serial port is the caller's fallible setup step; a
    /// monitor only exists once that step has succeeded.
    pub fn new(device_id: DeviceId, monitor_task: BackgroundTask<()>) -> (r: Self)
        ensures
            r.monitor_id() == device_id,
            r.task_live() == monitor_task.handle_present(),
    {
        NapcoGeminiDeviceMonitor { device_id, monitor_task }
    }
}

impl DeviceMonitor for NapcoGeminiDeviceMonitor {
    closed spec fn monitor_id(&self) -> DeviceId {
        self.device_id
    }

    closed spec fn task_live(&self) -> bool {
        self.monitor_task.handle_present()
    }

    fn id(&self) -> DeviceId {
        self.device_id
    }

    fn prepare_shutdown(&mut self) -> Option<JoinHandle<()>> {
        self.monitor_task.prepare_finish()
    }
}

} // verus!
