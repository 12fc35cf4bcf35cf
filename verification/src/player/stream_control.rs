//! What a viewer does while a stream runs: with the host's messages, and as time
//! goes on.

use crate::player::clock;
use crate::player::clock::clock_offset;
use crate::player::keyboard_leds;
use crate::player::keyboard_leds::{KeyboardLedError, KeyboardLedReceiver, KeyboardLedSnapshot};
use crate::player::receiver::{Receiver, ReceiverModel, StreamSnapshotModel};
use crate::protocol::wire::envelope::{Body, BodyModel};
use crate::protocol::wire::{
    ClockPing, Envelope, HostSessionControl, HostSessionControlKind, InputAck, VideoReceiverReport,
    VideoReconfigurationCause, VideoStreamState, VideoStreamStatus,
};
use crate::session::statistics::ClockOffsetEstimate;
use crate::session::video_assembly::{FrameAssemblyProgress, VideoAssemblyStats};
use crate::time::{Duration, Instant};
use vstd::prelude::*;

verus! {

/// How often the clocks are compared.
pub const CLOCK_SYNC_NANOS: u128 = 500_000_000;

/// How long a keyframe request stands before there is another.
pub const KEYFRAME_REQUEST_NANOS: u128 = 1_000_000_000;

/// How often the host is told what arrives.
pub const REPORT_NANOS: u128 = 500_000_000;

/// How often progress is shown.
pub const PROGRESS_NANOS: u128 = 250_000_000;

/// How a stream ends where nothing goes wrong.
#[derive(Clone, Copy, Debug, PartialEq, Eq, Structural)]
pub enum StreamEnd {
    Stopped,
    ReconfigurationRequired(VideoReconfigurationCause),
}

/// Why a stream fails.
#[derive(Clone, Copy, Debug, PartialEq, Eq, Structural)]
pub enum StreamFault {
    KeyboardLeds(KeyboardLedError),
    InvalidVideoStreamState,
    UnnegotiatedSessionControl,
    InvalidSessionControl,
    UnexpectedResponse,
    ClockSequenceExhausted,
}

/// What a message of the host leads to.
#[derive(Clone, Copy, Debug, PartialEq, Eq, Structural)]
pub enum ControlOutcome {
    /// There is nothing to tell.
    Done,
    ReleasePointerCapture,
    Clock(ClockOffsetEstimate),
    InputAcknowledged { ack: InputAck, player_received_at_micros: u64 },
    End(StreamEnd),
}

/// What a stream was set up with, and the lights that were told of.
#[derive(Clone, Copy, Debug, PartialEq, Eq, Structural)]
pub struct StreamControl {
    pub full_diagnostics: bool,
    pub host_pointer_release: bool,
    pub keyboard_leds: KeyboardLedReceiver,
}

/// Whether a state says that the stream has to be set up anew, and why.
pub open spec fn is_cause(state: VideoStreamState, cause: VideoReconfigurationCause) -> bool {
    state.status == VideoStreamStatus::ReconfigurationRequired.spec_number() && state.cause
        == cause.spec_number() && cause != VideoReconfigurationCause::Unspecified
}

/// What a control of the host leads to.
pub open spec fn session_control(negotiated: bool, control: HostSessionControl) -> Result<
    ControlOutcome,
    StreamFault,
> {
    if !negotiated {
        Err(StreamFault::UnnegotiatedSessionControl)
    } else if control.kind == HostSessionControlKind::ReleasePointerCapture.spec_number() {
        Ok(ControlOutcome::ReleasePointerCapture)
    } else {
        Err(StreamFault::InvalidSessionControl)
    }
}

impl StreamControl {
    pub fn new(full_diagnostics: bool, host_pointer_release: bool) -> (control: Self)
        ensures
            control.full_diagnostics == full_diagnostics,
            control.host_pointer_release == host_pointer_release,
            control.keyboard_leds@ is None,
    {
        StreamControl {
            full_diagnostics,
            host_pointer_release,
            keyboard_leds: KeyboardLedReceiver::default(),
        }
    }

    /// Whether a message makes `after` of what was known, `received` of the
    /// receiver, and leads to `result`.
    pub open spec fn handled(
        self,
        receiver: ReceiverModel,
        body: Option<BodyModel>,
        elapsed_micros: u64,
        after: StreamControl,
        received: ReceiverModel,
        result: Result<ControlOutcome, StreamFault>,
    ) -> bool {
        &&& after.full_diagnostics == self.full_diagnostics
        &&& after.host_pointer_release == self.host_pointer_release
        &&& match body {
            Some(BodyModel::AudioStreamState(state)) => {
                &&& result == Ok::<_, StreamFault>(ControlOutcome::Done)
                &&& received == receiver.announced(state)
                &&& after.keyboard_leds@ == self.keyboard_leds@
            },
            Some(BodyModel::InputAck(ack)) => {
                &&& result == Ok::<_, StreamFault>(
                    if self.full_diagnostics {
                        ControlOutcome::InputAcknowledged {
                            ack,
                            player_received_at_micros: elapsed_micros,
                        }
                    } else {
                        ControlOutcome::Done
                    },
                )
                &&& received == receiver
                &&& after.keyboard_leds@ == self.keyboard_leds@
            },
            Some(BodyModel::ClockPong(pong)) => {
                &&& result == Ok::<_, StreamFault>(
                    match clock::offset_of(pong, elapsed_micros) {
                        Some(estimate) => ControlOutcome::Clock(estimate),
                        None => ControlOutcome::Done,
                    },
                )
                &&& received == receiver
                &&& after.keyboard_leds@ == self.keyboard_leds@
            },
            Some(BodyModel::KeyboardLeds(state)) => match keyboard_leds::fault(
                self.keyboard_leds@,
                state,
            ) {
                Some(error) => {
                    &&& result == Err::<ControlOutcome, _>(StreamFault::KeyboardLeds(error))
                    &&& received == receiver
                    &&& after.keyboard_leds@ == self.keyboard_leds@
                },
                None => {
                    let lights = KeyboardLedSnapshot {
                        generation: state.generation,
                        sequence: state.sequence,
                        mask: state.mask as u8,
                    };
                    &&& result == Ok::<_, StreamFault>(ControlOutcome::Done)
                    &&& after.keyboard_leds@ == Some(lights)
                    &&& received == (ReceiverModel {
                        snapshot: StreamSnapshotModel {
                            keyboard_leds: Some(lights),
                            ..receiver.snapshot
                        },
                        ..receiver
                    })
                },
            },
            Some(BodyModel::VideoStreamState(state)) => {
                &&& match result {
                    Ok(ControlOutcome::End(StreamEnd::ReconfigurationRequired(cause))) =>
                        is_cause(state, cause),
                    Err(StreamFault::InvalidVideoStreamState) => forall|
                        cause: VideoReconfigurationCause,
                    |
                        !is_cause(state, cause),
                    _ => false,
                }
                &&& received == receiver
                &&& after.keyboard_leds@ == self.keyboard_leds@
            },
            Some(BodyModel::HostSessionControl(control)) => {
                &&& result == session_control(self.host_pointer_release, control)
                &&& received == receiver
                &&& after.keyboard_leds@ == self.keyboard_leds@
            },
            _ => {
                &&& result == Err::<ControlOutcome, _>(StreamFault::UnexpectedResponse)
                &&& received == receiver
                &&& after.keyboard_leds@ == self.keyboard_leds@
            },
        }
    }

    /// Takes a message of the host.
    pub fn handle(&mut self, receiver: &mut Receiver, envelope: Envelope, elapsed_micros: u64) -> (
    result: Result<ControlOutcome, StreamFault>)
        requires
            old(receiver)@.well_formed(),
        ensures
            final(receiver)@.well_formed(),
            old(self).handled(
                old(receiver)@,
                envelope@.body,
                elapsed_micros,
                *final(self),
                final(receiver)@,
                result,
            ),
    {
        match envelope.body {
            Some(Body::AudioStreamState(state)) => {
                receiver.state(state);
                Ok(ControlOutcome::Done)
            },
            Some(Body::InputAck(ack)) => {
                if self.full_diagnostics {
                    Ok(
                        ControlOutcome::InputAcknowledged {
                            ack,
                            player_received_at_micros: elapsed_micros,
                        },
                    )
                } else {
                    Ok(ControlOutcome::Done)
                }
            },
            Some(Body::ClockPong(pong)) => match clock_offset(pong, elapsed_micros) {
                Some(estimate) => Ok(ControlOutcome::Clock(estimate)),
                None => Ok(ControlOutcome::Done),
            },
            Some(Body::KeyboardLeds(state)) => match self.keyboard_leds.push(state) {
                Ok(lights) => {
                    receiver.snapshot.keyboard_leds = Some(lights);
                    Ok(ControlOutcome::Done)
                },
                Err(error) => Err(StreamFault::KeyboardLeds(error)),
            },
            Some(Body::VideoStreamState(state)) => match state.reconfiguration_cause() {
                Some(cause) => Ok(ControlOutcome::End(StreamEnd::ReconfigurationRequired(cause))),
                None => Err(StreamFault::InvalidVideoStreamState),
            },
            Some(Body::HostSessionControl(control)) => {
                if !self.host_pointer_release {
                    return Err(StreamFault::UnnegotiatedSessionControl);
                }
                match HostSessionControlKind::try_from(control.kind) {
                    Ok(HostSessionControlKind::ReleasePointerCapture) => Ok(
                        ControlOutcome::ReleasePointerCapture,
                    ),
                    _ => Err(StreamFault::InvalidSessionControl),
                }
            },
            _ => Err(StreamFault::UnexpectedResponse),
        }
    }
}

/// What is sent by time, and when it was sent last.
#[derive(Clone, Copy, Debug, PartialEq, Eq, Structural)]
pub struct StreamTimers {
    pub clock_sequence: u64,
    pub next_clock_sync: Instant,
    /// When a keyframe was last asked for, if it ever was.
    pub last_keyframe_request: Option<Instant>,
    pub last_report: Instant,
    pub keyframe_requests: u64,
}

/// Whether so much time has gone by since `last`.
pub open spec fn is_due(last: Option<Instant>, now: Instant, wait_nanos: u128) -> bool {
    match last {
        Some(last) => now.spec_since(last).nanos >= wait_nanos,
        None => true,
    }
}

/// What the host is told of what arrived since the last report.
pub open spec fn report_of(
    stats: VideoAssemblyStats,
    progress: Option<FrameAssemblyProgress>,
    interval: Duration,
) -> VideoReceiverReport {
    VideoReceiverReport {
        newest_sequence: match progress {
            Some(progress) => progress.sequence,
            None => 0,
        },
        received_chunks: stats.received_chunks,
        lost_chunks: stats.lost_chunks,
        late_chunks: stats.late_chunks,
        assembly_overflows: stats.assembly_overflows,
        completed_frames: stats.completed_frames,
        incomplete_frames: stats.incomplete_frames,
        last_completed_assembly_micros: stats.last_completed_assembly_micros,
        last_assembly_budget_micros: stats.last_assembly_budget_micros,
        completed_payload_bytes: stats.completed_payload_bytes,
        measurement_interval_micros: (interval.nanos / 1_000) as u64,
    }
}

impl StreamTimers {
    pub fn new(now: Instant) -> (timers: Self)
        ensures
            timers == (StreamTimers {
                clock_sequence: 0,
                next_clock_sync: now,
                last_keyframe_request: None,
                last_report: now,
                keyframe_requests: 0,
            }),
    {
        StreamTimers {
            clock_sequence: 0,
            next_clock_sync: now,
            last_keyframe_request: None,
            last_report: now,
            keyframe_requests: 0,
        }
    }

    /// The ping that is due now, where diagnostics are on.
    pub fn clock_ping(&mut self, full_diagnostics: bool, now: Instant, elapsed_micros: u64) -> (
    result: Result<Option<ClockPing>, StreamFault>)
        ensures
            if !full_diagnostics || now.nanos < old(self).next_clock_sync.nanos {
                result == Ok::<_, StreamFault>(None::<ClockPing>) && *final(self) == *old(self)
            } else if old(self).clock_sequence == u64::MAX {
                result == Err::<Option<ClockPing>, _>(StreamFault::ClockSequenceExhausted)
                    && *final(self) == *old(self)
            } else {
                let sequence = (old(self).clock_sequence + 1) as u64;
                &&& result == Ok::<_, StreamFault>(
                    Some(ClockPing { sequence, player_sent_at_micros: elapsed_micros }),
                )
                &&& *final(self) == (StreamTimers {
                    clock_sequence: sequence,
                    next_clock_sync: now.spec_after(Duration { nanos: CLOCK_SYNC_NANOS }),
                    ..*old(self)
                })
            },
    {
        if !full_diagnostics || now.nanos < self.next_clock_sync.nanos {
            return Ok(None);
        }
        match self.clock_sequence.checked_add(1) {
            Some(sequence) => {
                self.clock_sequence = sequence;
                self.next_clock_sync = now.after(Duration { nanos: CLOCK_SYNC_NANOS });
                Ok(Some(ClockPing { sequence, player_sent_at_micros: elapsed_micros }))
            },
            None => Err(StreamFault::ClockSequenceExhausted),
        }
    }

    /// Whether to ask for a keyframe now: one is wanted, and the last request is
    /// long enough ago.
    pub fn request_keyframe(&mut self, wanted: bool, now: Instant) -> (result: bool)
        ensures
            result == (wanted && is_due(
                old(self).last_keyframe_request,
                now,
                KEYFRAME_REQUEST_NANOS,
            )),
            *final(self) == if result {
                StreamTimers {
                    last_keyframe_request: Some(now),
                    keyframe_requests: old(self).keyframe_requests.saturating_add(1),
                    ..*old(self)
                }
            } else {
                *old(self)
            },
    {
        let due = match self.last_keyframe_request {
            Some(last) => now.saturating_duration_since(last).nanos >= KEYFRAME_REQUEST_NANOS,
            None => true,
        };
        if wanted && due {
            self.last_keyframe_request = Some(now);
            self.keyframe_requests = self.keyframe_requests.saturating_add(1);
            true
        } else {
            false
        }
    }

    /// The report that is due now.
    pub fn report(&mut self, receiver: &Receiver, now: Instant) -> (report: Option<
        VideoReceiverReport,
    >)
        ensures
            if is_due(Some(old(self).last_report), now, REPORT_NANOS) {
                &&& report == Some(
                    report_of(
                        receiver@.video.stats,
                        receiver@.snapshot.progress,
                        now.spec_since(old(self).last_report),
                    ),
                )
                &&& *final(self) == (StreamTimers { last_report: now, ..*old(self) })
            } else {
                report is None && *final(self) == *old(self)
            },
    {
        let interval = now.saturating_duration_since(self.last_report);
        if interval.nanos < REPORT_NANOS {
            return None;
        }
        self.last_report = now;
        let stats = receiver.video.stats();
        Some(
            VideoReceiverReport {
                newest_sequence: match receiver.snapshot.progress {
                    Some(progress) => progress.sequence,
                    None => 0,
                },
                received_chunks: stats.received_chunks,
                lost_chunks: stats.lost_chunks,
                late_chunks: stats.late_chunks,
                assembly_overflows: stats.assembly_overflows,
                completed_frames: stats.completed_frames,
                incomplete_frames: stats.incomplete_frames,
                last_completed_assembly_micros: stats.last_completed_assembly_micros,
                last_assembly_budget_micros: stats.last_assembly_budget_micros,
                completed_payload_bytes: stats.completed_payload_bytes,
                measurement_interval_micros: interval.as_micros() as u64,
            },
        )
    }
}

/// However often a keyframe is wanted, it is asked for at most once in the time
/// that a request stands.
pub proof fn law_keyframe_requests_are_spaced(last: Instant, now: Instant)
    requires
        is_due(Some(last), now, KEYFRAME_REQUEST_NANOS),
    ensures
        now.nanos >= last.nanos + KEYFRAME_REQUEST_NANOS,
{
}

/// Something is due for the first time at once, and again after its wait.
pub proof fn law_when_something_is_due(last: Instant, now: Instant, wait_nanos: u128)
    requires
        wait_nanos > 0,
    ensures
        is_due(None, now, wait_nanos),
        is_due(Some(last), now, wait_nanos) <==> last.nanos + wait_nanos <= now.nanos,
{
}

/// How often things are asked for and told: the clocks and the reports every
/// half second, a keyframe at most once a second, the progress every quarter.
pub proof fn law_intervals()
    ensures
        CLOCK_SYNC_NANOS == 500_000_000,
        REPORT_NANOS == 500_000_000,
        KEYFRAME_REQUEST_NANOS == 1_000_000_000,
        PROGRESS_NANOS == 250_000_000,
{
}

/// What a report says: each count is the assembler's count of the same name,
/// the newest sequence is that of the last progress, and the interval is in
/// whole microseconds.
pub proof fn law_reports_tell_the_counts(
    stats: VideoAssemblyStats,
    progress: Option<FrameAssemblyProgress>,
    interval: Duration,
)
    ensures
        ({
            let report = report_of(stats, progress, interval);
            &&& progress matches Some(latest) ==> report.newest_sequence == latest.sequence
            &&& progress is None ==> report.newest_sequence == 0
            &&& report.received_chunks == stats.received_chunks
            &&& report.lost_chunks == stats.lost_chunks
            &&& report.late_chunks == stats.late_chunks
            &&& report.assembly_overflows == stats.assembly_overflows
            &&& report.completed_frames == stats.completed_frames
            &&& report.incomplete_frames == stats.incomplete_frames
            &&& report.last_completed_assembly_micros == stats.last_completed_assembly_micros
            &&& report.last_assembly_budget_micros == stats.last_assembly_budget_micros
            &&& report.completed_payload_bytes == stats.completed_payload_bytes
            &&& interval.nanos < 1_000_000_000_000_000_000 ==> 1_000
                * report.measurement_interval_micros <= interval.nanos < 1_000
                * report.measurement_interval_micros + 1_000
        }),
{
}

/// What a message of the host leads to: an acknowledgement is handed on with
/// the time of its arrival where diagnostics are on, lights that are taken are
/// shown, a state of the video ends the stream for its cause, and the pointer is
/// released where that was negotiated. All else is refused.
pub proof fn law_messages_of_the_host(
    control: StreamControl,
    receiver: ReceiverModel,
    body: Option<BodyModel>,
    elapsed_micros: u64,
    after: StreamControl,
    received: ReceiverModel,
    result: Result<ControlOutcome, StreamFault>,
)
    requires
        control.handled(receiver, body, elapsed_micros, after, received, result),
    ensures
        body matches Some(BodyModel::InputAck(ack)) ==> {
            &&& received == receiver
            &&& control.full_diagnostics ==> (result matches Ok(
                ControlOutcome::InputAcknowledged { ack: told, player_received_at_micros },
            ) && told == ack && player_received_at_micros == elapsed_micros)
            &&& !control.full_diagnostics ==> (result matches Ok(outcome) && outcome is Done)
        },
        body matches Some(BodyModel::KeyboardLeds(state)) ==> match result {
            Ok(outcome) => {
                &&& outcome is Done
                &&& received.snapshot.keyboard_leds matches Some(lights)
                &&& after.keyboard_leds@ == Some(lights)
                &&& lights.generation == state.generation
                &&& lights.sequence == state.sequence
                &&& lights.mask == state.mask as u8
            },
            Err(fault) => {
                &&& fault is KeyboardLeds
                &&& received == receiver
                &&& after.keyboard_leds@ == control.keyboard_leds@
            },
        },
        body matches Some(BodyModel::VideoStreamState(state)) ==> match result {
            Ok(ControlOutcome::End(StreamEnd::ReconfigurationRequired(cause))) => {
                &&& state.status == 1
                &&& 1 <= state.cause <= 5
                &&& cause.spec_number() == state.cause
            },
            Err(fault) => fault is InvalidVideoStreamState && !(state.status == 1 && 1
                <= state.cause <= 5),
            _ => false,
        },
        body matches Some(BodyModel::HostSessionControl(request)) ==> {
            &&& received == receiver
            &&& !control.host_pointer_release <==> (result matches Err(fault)
                && fault is UnnegotiatedSessionControl)
            &&& control.host_pointer_release && request.kind == 1 <==> (result matches Ok(outcome)
                && outcome is ReleasePointerCapture)
            &&& control.host_pointer_release && request.kind != 1 <==> (result matches Err(fault)
                && fault is InvalidSessionControl)
        },
        body is None ==> (result matches Err(fault) && fault is UnexpectedResponse) && received
            == receiver,
{
    if let Some(BodyModel::VideoStreamState(state)) = body {
        assert(is_cause(state, VideoReconfigurationCause::CaptureEngine) <==> state.status == 1
            && state.cause == 1);
        assert(is_cause(state, VideoReconfigurationCause::Dimensions) <==> state.status == 1
            && state.cause == 2);
        assert(is_cause(state, VideoReconfigurationCause::RefreshRate) <==> state.status == 1
            && state.cause == 3);
        assert(is_cause(state, VideoReconfigurationCause::PixelFormat) <==> state.status == 1
            && state.cause == 4);
        assert(is_cause(state, VideoReconfigurationCause::Color) <==> state.status == 1
            && state.cause == 5);
    }
}

} // verus!
