//! How reports get from shared memory to the requests that wait for them.
//!
//! Each step takes what has just been seen and tells what to do next. Looking a
//! device up, reading its ring and completing requests is done outside.

use crate::time::Duration;
use vstd::prelude::*;

verus! {

/// How long to wait before shared memory is looked for again.
pub const RETRY_MILLIS: u64 = 250;

/// How long a worker waits for reports at a time.
pub const WAIT_MILLIS: u32 = 5_000;

pub const WAIT_OBJECT_0: u32 = 0;

pub const WAIT_TIMEOUT: u32 = 258;

/// What ended a wait for the stop event and the input event.
#[derive(Clone, Copy, Debug, PartialEq, Eq, Structural)]
pub enum WaitResult {
    Stop,
    InputOrTimeout,
    Failed,
}

pub open spec fn spec_wait_result(result: u32) -> WaitResult {
    if result == WAIT_OBJECT_0 {
        WaitResult::Stop
    } else if result == WAIT_OBJECT_0 + 1 || result == WAIT_TIMEOUT {
        WaitResult::InputOrTimeout
    } else {
        WaitResult::Failed
    }
}

/// What the number that a wait returned stands for.
pub fn wait_result(result: u32) -> (outcome: WaitResult)
    ensures
        outcome == spec_wait_result(result),
{
    if result == WAIT_OBJECT_0 {
        WaitResult::Stop
    } else if result == WAIT_OBJECT_0 + 1 || result == WAIT_TIMEOUT {
        WaitResult::InputOrTimeout
    } else {
        WaitResult::Failed
    }
}

/// What a worker has seen.
#[derive(Clone, Copy, Debug, PartialEq, Eq, Structural)]
pub enum WorkerEvent {
    /// The device was looked up.
    Device { known: bool, connected: bool },
    /// Shared memory was looked for, and is now held by the device or not.
    Opened(bool),
    Waited(WaitResult),
}

#[derive(Clone, Copy, Debug, PartialEq, Eq, Structural)]
pub enum WorkerAction {
    Stop,
    /// Looks for the shared memory of the device.
    Open,
    /// Waits for reports.
    Wait,
    /// Hands reports on, then looks the device up again.
    Pump,
    /// Sleeps, then looks the device up again.
    Sleep(Duration),
}

pub open spec fn spec_worker_step(event: WorkerEvent) -> WorkerAction {
    match event {
        WorkerEvent::Device { known, connected } => if !known {
            WorkerAction::Stop
        } else if !connected {
            WorkerAction::Open
        } else {
            WorkerAction::Wait
        },
        WorkerEvent::Opened(opened) => if opened {
            WorkerAction::Pump
        } else {
            WorkerAction::Sleep(Duration::spec_of_millis(RETRY_MILLIS))
        },
        WorkerEvent::Waited(WaitResult::InputOrTimeout) => WorkerAction::Pump,
        WorkerEvent::Waited(_) => WorkerAction::Stop,
    }
}

/// What the worker of a device does next.
pub fn worker_step(event: WorkerEvent) -> (action: WorkerAction)
    ensures
        action == spec_worker_step(event),
{
    match event {
        WorkerEvent::Device { known, connected } => {
            if !known {
                WorkerAction::Stop
            } else if !connected {
                WorkerAction::Open
            } else {
                WorkerAction::Wait
            }
        },
        WorkerEvent::Opened(opened) => {
            if opened {
                WorkerAction::Pump
            } else {
                WorkerAction::Sleep(Duration::from_millis(RETRY_MILLIS))
            }
        },
        WorkerEvent::Waited(WaitResult::InputOrTimeout) => WorkerAction::Pump,
        WorkerEvent::Waited(_) => WorkerAction::Stop,
    }
}

/// What a look at the ring of a device gave.
#[derive(Clone, Copy, Debug, PartialEq, Eq, Structural)]
pub enum PumpRead {
    /// The device is gone, or could not be looked up.
    DeviceGone,
    /// The device has no shared memory.
    Disconnected,
    /// There is no report, or none that can be read.
    Nothing,
    /// The report with this number is next.
    Report(u64),
}

/// Whether reports of a device are being handed on. At most one caller does so at
/// a time: it reads a report, takes a request that waits, completes the request
/// with the report, and only then marks the report as consumed.
#[derive(Clone, Copy, Debug, PartialEq, Eq, Structural)]
pub struct Pump {
    pub pumping: bool,
}

impl Pump {
    /// Starts to hand reports on, unless somebody does already.
    pub fn begin(&mut self) -> (started: bool)
        ensures
            started == !old(self).pumping,
            final(self).pumping,
    {
        if self.pumping {
            return false;
        }
        self.pumping = true;
        true
    }

    pub open spec fn spec_read(self, read: PumpRead) -> (Pump, Option<u64>) {
        match read {
            PumpRead::DeviceGone => (self, None),
            PumpRead::Disconnected | PumpRead::Nothing => (Pump { pumping: false }, None),
            PumpRead::Report(sequence) => (self, Some(sequence)),
        }
    }

    /// The report to find a request for, or none where handing on ends.
    pub fn read(&mut self, read: PumpRead) -> (report: Option<u64>)
        ensures
            (*final(self), report) == old(self).spec_read(read),
    {
        match read {
            PumpRead::DeviceGone => None,
            PumpRead::Disconnected | PumpRead::Nothing => {
                self.pumping = false;
                None
            },
            PumpRead::Report(sequence) => Some(sequence),
        }
    }

    /// Whether the report goes on to the request that was looked for: without one,
    /// handing on ends and the report stays where it is.
    pub fn requested(&mut self, found: bool) -> (deliver: bool)
        ensures
            deliver == found,
            final(self).pumping == (found && old(self).pumping),
    {
        if !found {
            self.pumping = false;
        }
        found
    }

    /// Whether the report is marked as consumed: only where its request was
    /// completed with it. Otherwise handing on ends.
    pub fn completed(&mut self, delivered: bool) -> (consume: bool)
        ensures
            consume == delivered,
            final(self).pumping == (delivered && old(self).pumping),
    {
        if !delivered {
            self.pumping = false;
        }
        delivered
    }
}

/// What the worker does: it ends where the device is gone, or the wait says so
/// or fails, opens what is not connected and tries again after a quarter of a
/// second, and pumps when there is input or the wait is over.
pub proof fn law_what_the_worker_does(
    known: bool,
    connected: bool,
    opened: bool,
    result: u32,
)
    ensures
        spec_worker_step(WorkerEvent::Device { known, connected }) is Stop <==> !known,
        spec_worker_step(WorkerEvent::Device { known, connected }) is Open <==> known && !connected,
        spec_worker_step(WorkerEvent::Device { known, connected }) is Wait <==> known && connected,
        spec_worker_step(WorkerEvent::Opened(opened)) is Pump <==> opened,
        !opened ==> (spec_worker_step(WorkerEvent::Opened(opened)) matches WorkerAction::Sleep(
            pause,
        ) && pause.nanos == 250_000_000),
        spec_worker_step(WorkerEvent::Waited(spec_wait_result(result))) is Pump <==> result == 1
            || result == 258,
        spec_worker_step(WorkerEvent::Waited(spec_wait_result(result))) is Stop <==> result != 1
            && result != 258,
        spec_wait_result(result) is Stop <==> result == 0,
{
}

/// A pump goes on with a report, and stops where there is none or the ring is
/// not connected.
pub proof fn law_what_a_pump_reads(pump: Pump, read: PumpRead)
    ensures
        read matches PumpRead::Report(sequence) ==> pump.spec_read(read) == (pump, Some(sequence)),
        !(read is Report) ==> pump.spec_read(read).1 is None,
        read is Disconnected || read is Nothing ==> !pump.spec_read(read).0.pumping,
        read is DeviceGone ==> pump.spec_read(read).0 == pump,
{
}

} // verus!
