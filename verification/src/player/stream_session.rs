//! A running stream as a whole: what its reader makes of messages and time, and
//! its consumer of what arrived.

use crate::player::audio_ordering::AudioPlaybackEvent;
use crate::player::continuity::DecodeContinuity;
use crate::player::input_pipeline::{InputSender, InputStep};
use crate::player::payload_integrity::{
    MatcherModel, PayloadDigestEvent, PayloadDigestMatcher, PayloadIntegrityCounters,
};
use crate::player::progress::{
    diagnostic_queues, DiagnosticQueueSnapshot, FrameAdmission, FrameGate, ProgressReporter,
    StreamProgress, StreamProgressModel, StreamTransportStatistics,
};
use crate::player::receiver::{AssembledVideoFrame, Receiver, ReceiverModel};
use crate::player::stream_control;
use crate::player::stream_control::{
    ControlOutcome, StreamControl, StreamEnd, StreamFault, StreamTimers, KEYFRAME_REQUEST_NANOS,
    PROGRESS_NANOS,
};
use crate::protocol::diagnostics::PayloadDigest;
use crate::protocol::features::InputEvent;
use crate::protocol::wire::input_transition::Action;
use crate::protocol::wire::{ClockPing, Envelope, InputAck, ReleaseAll, VideoReceiverReport};
use crate::session::media_queue::{MediaQueue, MediaQueueModel};
use crate::session::statistics::ClockOffsetEstimate;
use crate::session::video_datagram::VideoFramePayload;
use crate::time::{Duration, Instant};
use vstd::prelude::*;

verus! {

/// How many diagnostic events wait to be told.
pub const DIAGNOSTIC_EVENT_CAPACITY: usize = 1_024;

/// How many events of the viewer's devices a tick sends at most.
pub const INPUTS_PER_TICK: usize = 256;

/// What the reader notes for the consumer to tell.
#[derive(Clone, Copy, Debug, PartialEq, Eq, Structural)]
pub enum DiagnosticEvent {
    ReleasePointerCapture,
    Clock(ClockOffsetEstimate),
    InputAck { ack: InputAck, player_received_at_micros: u64 },
    InputSent {
        sequence: u64,
        occurred_at: Instant,
        sent_at: Instant,
        send_completed_at: Instant,
        correlates_test_marker: bool,
    },
}

/// What is told of an event.
pub open spec fn told_of(event: DiagnosticEvent) -> StreamProgressModel {
    match event {
        DiagnosticEvent::ReleasePointerCapture => StreamProgressModel::ReleasePointerCapture,
        DiagnosticEvent::Clock(estimate) => StreamProgressModel::ClockOffset(estimate),
        DiagnosticEvent::InputAck {
            ack,
            player_received_at_micros,
        } => StreamProgressModel::InputAcknowledged { ack, player_received_at_micros },
        DiagnosticEvent::InputSent {
            sequence,
            occurred_at,
            sent_at,
            send_completed_at,
            correlates_test_marker,
        } => StreamProgressModel::InputSent {
            sequence,
            occurred_at,
            sent_at,
            send_completed_at,
            correlates_test_marker,
        },
    }
}

fn tell(event: DiagnosticEvent) -> (told: StreamProgress)
    ensures
        told@ == told_of(event),
{
    match event {
        DiagnosticEvent::ReleasePointerCapture => StreamProgress::ReleasePointerCapture,
        DiagnosticEvent::Clock(estimate) => StreamProgress::ClockOffset(estimate),
        DiagnosticEvent::InputAck {
            ack,
            player_received_at_micros,
        } => StreamProgress::InputAcknowledged { ack, player_received_at_micros },
        DiagnosticEvent::InputSent {
            sequence,
            occurred_at,
            sent_at,
            send_completed_at,
            correlates_test_marker,
        } => StreamProgress::InputSent {
            sequence,
            occurred_at,
            sent_at,
            send_completed_at,
            correlates_test_marker,
        },
    }
}

/// What the outcome of a message has to say to the consumer.
pub open spec fn noted_of(outcome: Result<ControlOutcome, StreamFault>) -> Option<DiagnosticEvent> {
    match outcome {
        Ok(ControlOutcome::ReleasePointerCapture) => Some(DiagnosticEvent::ReleasePointerCapture),
        Ok(ControlOutcome::Clock(estimate)) => Some(DiagnosticEvent::Clock(estimate)),
        Ok(ControlOutcome::InputAcknowledged { ack, player_received_at_micros }) => Some(
            DiagnosticEvent::InputAck { ack, player_received_at_micros },
        ),
        _ => None,
    }
}

/// How a stream ends by the outcome of a message, if it ends by it.
pub open spec fn end_of(outcome: Result<ControlOutcome, StreamFault>) -> Result<
    Option<StreamEnd>,
    StreamFault,
> {
    match outcome {
        Ok(ControlOutcome::End(end)) => Ok(Some(end)),
        Ok(_) => Ok(None),
        Err(fault) => Err(fault),
    }
}

/// What the consumer has to do in one round, in this order: play the audio, tell
/// the progress, decode the frame, and stop where the stream is over.
pub struct ConsumerRound {
    pub audio: Vec<AudioPlaybackEvent>,
    pub progress: Vec<StreamProgress>,
    pub frame: Option<(VideoFramePayload, StreamTransportStatistics)>,
    pub over: bool,
}

/// The start of a tick: the stream ends because it was told to, or goes on with a
/// ping where one is due.
#[derive(Clone, Copy, Debug, PartialEq, Eq, Structural)]
pub enum TickStart {
    End(StreamEnd),
    Ping(Option<ClockPing>),
}

/// The end of a tick: what the host is asked and told.
#[derive(Clone, Copy, Debug, PartialEq, Eq, Structural)]
pub struct TickEnd {
    pub request_keyframe: bool,
    pub report: Option<VideoReceiverReport>,
}

/// Everything that a running stream remembers.
pub struct StreamSession {
    pub receiver: Receiver,
    pub control: StreamControl,
    pub timers: StreamTimers,
    pub input: InputSender,
    pub gate: FrameGate,
    pub reporter: ProgressReporter,
    pub digests: PayloadDigestMatcher,
    pub events: MediaQueue<DiagnosticEvent>,
}

/// The contents of a [`StreamSession`].
#[verifier::ext_equal]
pub struct StreamSessionModel {
    pub receiver: ReceiverModel,
    pub control: StreamControl,
    pub timers: StreamTimers,
    pub input: InputSender,
    pub gate: FrameGate,
    pub reporter: ProgressReporter,
    pub digests: MatcherModel,
    pub events: MediaQueueModel<DiagnosticEvent>,
}

impl View for StreamSession {
    type V = StreamSessionModel;

    open spec fn view(&self) -> StreamSessionModel {
        StreamSessionModel {
            receiver: self.receiver@,
            control: self.control,
            timers: self.timers,
            input: self.input,
            gate: self.gate,
            reporter: self.reporter,
            digests: self.digests@,
            events: self.events@,
        }
    }
}

/// A queue with nothing left in it.
pub open spec fn emptied<T>(queue: MediaQueueModel<T>) -> MediaQueueModel<T> {
    MediaQueueModel { items: Seq::empty(), ..queue }
}

/// What both sides saw of payloads, taken one after another, and the samples
/// that this completes.
pub open spec fn matched(matcher: MatcherModel, events: Seq<PayloadDigestEvent>) -> (
    MatcherModel,
    Seq<StreamProgressModel>,
)
    decreases events.len(),
{
    if events.len() == 0 {
        (matcher, Seq::empty())
    } else {
        let (before, told) = matched(matcher, events.drop_last());
        let (after, sample) = before.pushed(events.last());
        (
            after,
            match sample {
                Some(sample) => told.push(StreamProgressModel::PayloadIntegrity(sample)),
                None => told,
            },
        )
    }
}

impl StreamSessionModel {
    pub open spec fn well_formed(self) -> bool {
        &&& self.receiver.well_formed()
        &&& self.digests.well_formed()
        &&& self.events.well_formed()
    }

    /// Whether the stream has its diagnostics on.
    pub open spec fn diagnostics(self) -> bool {
        self.receiver.payload_digests is Some
    }

    /// With an event noted, where there is one.
    pub open spec fn noting(self, event: Option<DiagnosticEvent>) -> StreamSessionModel {
        match event {
            Some(event) => StreamSessionModel { events: self.events.pushed(event).0, ..self },
            None => self,
        }
    }

    /// Whether a keyframe is asked for now: one is wanted, and the last request
    /// is long enough ago.
    pub open spec fn keyframe_due(self, now: Instant) -> bool {
        (self.gate.request_keyframe || self.receiver.recover) && stream_control::is_due(
            self.timers.last_keyframe_request,
            now,
            KEYFRAME_REQUEST_NANOS,
        )
    }

    /// The samples that the digests complete.
    pub open spec fn samples(self) -> (MatcherModel, Seq<StreamProgressModel>) {
        match self.receiver.payload_digests {
            Some(queue) => matched(self.digests, queue.items),
            None => (self.digests, Seq::empty()),
        }
    }

    /// What is told of the lights: where they have changed.
    pub open spec fn lights(self) -> Seq<StreamProgressModel> {
        let current = self.receiver.snapshot.keyboard_leds;
        match current {
            Some(lights) if current != self.reporter.reported_keyboard_leds => seq![
                StreamProgressModel::KeyboardLeds {
                    generation: lights.generation,
                    sequence: lights.sequence,
                    mask: lights.mask,
                },
            ],
            _ => Seq::empty(),
        }
    }

    /// What is told from time to time: the packets of the newest frame, the
    /// audio, and where diagnostics are on the counters and the queues.
    pub open spec fn regular(self) -> Seq<StreamProgressModel> {
        let packets = match self.receiver.snapshot.progress {
            Some(frame) => seq![
                StreamProgressModel::ReceivingVideoPackets {
                    frame,
                    totals: self.receiver.snapshot.video,
                },
            ],
            None => Seq::empty(),
        };
        let audio = seq![StreamProgressModel::AudioTransport(self.receiver.snapshot.audio)];
        let diagnostics = match self.receiver.payload_digests {
            Some(queue) => seq![
                StreamProgressModel::PayloadIntegrityCounters(
                    PayloadIntegrityCounters {
                        pending_host_records: self.digests.host.len() as u64,
                        pending_player_payloads: self.digests.local.len() as u64,
                        ..self.digests.counters
                    },
                ),
                StreamProgressModel::DiagnosticQueues(
                    DiagnosticQueueSnapshot {
                        video_depth: self.receiver.frames.items.len() as u64,
                        video_drops: self.receiver.frames.dropped,
                        audio_depth: self.receiver.audio_events.items.len() as u64,
                        audio_drops: self.receiver.audio_events.dropped,
                        event_depth: self.events.items.len() as u64,
                        event_drops: self.events.dropped,
                        digest_depth: queue.items.len() as u64,
                        digest_drops: queue.dropped,
                        keyframe_requests: self.timers.keyframe_requests,
                    },
                ),
            ],
            None => Seq::empty(),
        };
        packets + audio + diagnostics
    }

    /// With one frame, all audio and all events taken out of their queues, and
    /// the samples of the digests told.
    pub open spec fn drained(self) -> StreamSessionModel {
        StreamSessionModel {
            receiver: ReceiverModel {
                frames: self.receiver.frames.popped().0,
                audio_events: emptied(self.receiver.audio_events),
                payload_digests: match self.receiver.payload_digests {
                    Some(queue) => Some(emptied(queue)),
                    None => None,
                },
                ..self.receiver
            },
            digests: self.samples().0,
            events: emptied(self.events),
            ..self
        }
    }

    /// With the lights and, where it is time, the rest of the progress told.
    pub open spec fn reported(self, now: Instant) -> StreamSessionModel {
        StreamSessionModel {
            reporter: ProgressReporter {
                last_progress: if stream_control::is_due(
                    self.reporter.last_progress,
                    now,
                    PROGRESS_NANOS,
                ) {
                    Some(now)
                } else {
                    self.reporter.last_progress
                },
                reported_keyboard_leds: self.receiver.snapshot.keyboard_leds,
            },
            ..self
        }
    }

    /// With a loss that the receiver saw, where there is one.
    pub open spec fn recovering(self) -> StreamSessionModel {
        StreamSessionModel {
            receiver: ReceiverModel { recover: false, ..self.receiver },
            gate: if self.receiver.recover {
                self.gate.losing()
            } else {
                self.gate
            },
            ..self
        }
    }

    /// What is told in a round before the frame is looked at.
    pub open spec fn news(self, now: Instant) -> Seq<StreamProgressModel> {
        let events = self.events.items.map_values(|event: DiagnosticEvent| told_of(event));
        let regular = if stream_control::is_due(
            self.reporter.last_progress,
            now,
            PROGRESS_NANOS,
        ) {
            self.drained().regular()
        } else {
            Seq::empty()
        };
        events + self.samples().1 + self.lights() + regular
    }

    /// The session before the frame of a round is looked at.
    pub open spec fn before_frame(self, now: Instant) -> StreamSessionModel {
        self.drained().reported(now).recovering()
    }
}

/// What a list of progress tells.
pub open spec fn told(progress: Seq<StreamProgress>) -> Seq<StreamProgressModel> {
    progress.map_values(|one: StreamProgress| one@)
}

/// What is told of a frame that is decoded.
pub open spec fn told_of_frame(
    admission: FrameAdmission,
    frame: VideoFramePayload,
) -> Seq<StreamProgressModel> {
    let recovered = match admission.recovered {
        Some(duration) => seq![StreamProgressModel::KeyframeRecovered { duration }],
        None => Seq::empty(),
    };
    let first = if admission.first {
        seq![
            StreamProgressModel::FirstFrameAssembled {
                target_bitrate_bits_per_second: frame.target_bitrate_bits_per_second,
                estimated_capacity_bits_per_second: frame.estimated_capacity_bits_per_second,
            },
        ]
    } else {
        Seq::empty()
    };
    recovered + first
}

/// How a frame arrived, by what is known of the stream.
pub open spec fn arrival_of(
    session: StreamSessionModel,
    payload_sha256: Option<[u8; 32]>,
    now: Instant,
    elapsed_micros: u64,
) -> StreamTransportStatistics {
    StreamTransportStatistics {
        round_trip_time: session.receiver.snapshot.rtt,
        assembly: session.receiver.snapshot.video,
        assembled_at: if session.diagnostics() {
            Some(now)
        } else {
            None
        },
        assembled_at_micros: elapsed_micros,
        assembly_duration: Duration::spec_of_micros(
            session.receiver.snapshot.video.last_completed_assembly_micros,
        ),
        assembled_payload_sha256: payload_sha256,
    }
}

impl StreamSession {
    /// A stream that is about to run.
    pub fn new(
        frames_per_second: u16,
        audio_enabled: bool,
        host_pointer_release: bool,
        diagnostics: bool,
        rtt: Duration,
        now: Instant,
    ) -> (session: Self)
        ensures
            session@.well_formed(),
            session@.diagnostics() == diagnostics,
            session@.receiver == ReceiverModel::initial(
                frames_per_second,
                audio_enabled,
                diagnostics,
                rtt,
            ),
            session@.control.full_diagnostics == diagnostics,
            session@.control.host_pointer_release == host_pointer_release,
            session@.control.keyboard_leds@ is None,
            session@.timers == (StreamTimers {
                clock_sequence: 0,
                next_clock_sync: now,
                last_keyframe_request: None,
                last_report: now,
                keyframe_requests: 0,
            }),
            session@.input == InputSender::initial(),
            session@.gate == (FrameGate {
                continuity: DecodeContinuity { last: None, ready: false },
                first: true,
                request_keyframe: false,
                recovery_started: None,
            }),
            session@.reporter == (ProgressReporter {
                last_progress: None,
                reported_keyboard_leds: None,
            }),
            session@.digests == MatcherModel::initial(),
            session@.events == MediaQueueModel::<DiagnosticEvent>::initial(
                DIAGNOSTIC_EVENT_CAPACITY,
            ),
    {
        StreamSession {
            receiver: Receiver::new(frames_per_second, audio_enabled, diagnostics, rtt),
            control: StreamControl::new(diagnostics, host_pointer_release),
            timers: StreamTimers::new(now),
            input: InputSender::default(),
            gate: FrameGate::new(),
            reporter: ProgressReporter::new(),
            digests: PayloadDigestMatcher::default(),
            events: MediaQueue::new(DIAGNOSTIC_EVENT_CAPACITY),
        }
    }

    /// Takes a message of the host: how the stream ends by it, if it does.
    pub fn message(&mut self, envelope: Envelope, elapsed_micros: u64) -> (result: Result<
        Option<StreamEnd>,
        StreamFault,
    >)
        requires
            old(self)@.well_formed(),
        ensures
            final(self)@.well_formed(),
            exists|outcome: Result<ControlOutcome, StreamFault>|
                {
                    &&& #[trigger] old(self)@.control.handled(
                        old(self)@.receiver,
                        envelope@.body,
                        elapsed_micros,
                        final(self)@.control,
                        final(self)@.receiver,
                        outcome,
                    )
                    &&& result == end_of(outcome)
                    &&& final(self)@ == (StreamSessionModel {
                        control: final(self)@.control,
                        receiver: final(self)@.receiver,
                        ..old(self)@.noting(noted_of(outcome))
                    })
                },
    {
        let outcome = self.control.handle(&mut self.receiver, envelope, elapsed_micros);
        let ghost handled = outcome;
        let result = match outcome {
            Ok(ControlOutcome::End(end)) => Ok(Some(end)),
            Ok(ControlOutcome::ReleasePointerCapture) => {
                self.events.push(DiagnosticEvent::ReleasePointerCapture);
                Ok(None)
            },
            Ok(ControlOutcome::Clock(estimate)) => {
                self.events.push(DiagnosticEvent::Clock(estimate));
                Ok(None)
            },
            Ok(ControlOutcome::InputAcknowledged { ack, player_received_at_micros }) => {
                self.events.push(DiagnosticEvent::InputAck { ack, player_received_at_micros });
                Ok(None)
            },
            Ok(ControlOutcome::Done) => Ok(None),
            Err(fault) => Err(fault),
        };
        assert(old(self)@.control.handled(
            old(self)@.receiver,
            envelope@.body,
            elapsed_micros,
            self@.control,
            self@.receiver,
            handled,
        ));
        assert(self@ =~= (StreamSessionModel {
            control: self@.control,
            receiver: self@.receiver,
            ..old(self)@.noting(noted_of(handled))
        }));
        result
    }

    /// Takes a record of the host's digests.
    pub fn host_digest(&mut self, record: PayloadDigest)
        requires
            old(self)@.well_formed(),
        ensures
            final(self)@.well_formed(),
            final(self)@ == (StreamSessionModel {
                receiver: ReceiverModel {
                    payload_digests: match old(self)@.receiver.payload_digests {
                        Some(queue) => Some(queue.pushed(PayloadDigestEvent::Host(record)).0),
                        None => None,
                    },
                    ..old(self)@.receiver
                },
                ..old(self)@
            }),
    {
        let mut digests: Option<MediaQueue<PayloadDigestEvent>> = None;
        std::mem::swap(&mut digests, &mut self.receiver.payload_digests);
        self.receiver.payload_digests = match digests {
            Some(mut queue) => {
                queue.push(PayloadDigestEvent::Host(record));
                Some(queue)
            },
            None => None,
        };
    }

    /// Starts a tick.
    pub fn start_tick(&mut self, stop: bool, now: Instant, elapsed_micros: u64) -> (result: Result<
        TickStart,
        StreamFault,
    >)
        ensures
            if stop {
                result == Ok::<_, StreamFault>(TickStart::End(StreamEnd::Stopped)) && final(self)@
                    == old(self)@
            } else if !old(self)@.control.full_diagnostics || now.nanos
                < old(self)@.timers.next_clock_sync.nanos {
                result == Ok::<_, StreamFault>(TickStart::Ping(None)) && final(self)@ == old(self)@
            } else if old(self)@.timers.clock_sequence == u64::MAX {
                result == Err::<TickStart, _>(StreamFault::ClockSequenceExhausted) && final(self)@
                    == old(self)@
            } else {
                let sequence = (old(self)@.timers.clock_sequence + 1) as u64;
                &&& result == Ok::<_, StreamFault>(
                    TickStart::Ping(
                        Some(ClockPing { sequence, player_sent_at_micros: elapsed_micros }),
                    ),
                )
                &&& final(self)@ == (StreamSessionModel {
                    timers: StreamTimers {
                        clock_sequence: sequence,
                        next_clock_sync: now.spec_after(
                            Duration { nanos: stream_control::CLOCK_SYNC_NANOS },
                        ),
                        ..old(self)@.timers
                    },
                    ..old(self)@
                })
            },
    {
        if stop {
            return Ok(TickStart::End(StreamEnd::Stopped));
        }
        match self.timers.clock_ping(self.control.full_diagnostics, now, elapsed_micros) {
            Ok(ping) => Ok(TickStart::Ping(ping)),
            Err(fault) => Err(fault),
        }
    }

    /// What to send for an event of the viewer's devices.
    pub fn send_input(&mut self, event: InputEvent, elapsed_micros: u64) -> (step: InputStep)
        ensures
            ({
                let (input, sent) = old(self)@.input.sent(
                    event,
                    if old(self)@.control.full_diagnostics {
                        elapsed_micros
                    } else {
                        0
                    },
                );
                step == sent && final(self)@ == (StreamSessionModel { input, ..old(self)@ })
            }),
    {
        let sent_at_micros: u64 = if self.control.full_diagnostics {
            elapsed_micros
        } else {
            0
        };
        self.input.push(event, sent_at_micros)
    }

    /// Notes that an event was sent, where that is of interest: with diagnostics
    /// on, and not of where the pointer is.
    pub fn input_sent(
        &mut self,
        event: InputEvent,
        occurred_at: Instant,
        sent_at: Instant,
        send_completed_at: Instant,
    )
        requires
            old(self)@.well_formed(),
        ensures
            final(self)@.well_formed(),
            final(self)@ == old(self)@.noting(
                if old(self)@.control.full_diagnostics && !(event is PointerMotion)
                    && !(event is PointerPosition) {
                    Some(
                        DiagnosticEvent::InputSent {
                            sequence: old(self)@.input.input_sequence,
                            occurred_at,
                            sent_at,
                            send_completed_at,
                            correlates_test_marker: event is PointerButton
                                && event->PointerButton_pressed,
                        },
                    )
                } else {
                    None
                },
            ),
    {
        let correlates_test_marker = match event {
            InputEvent::PointerMotion { .. } => {
                return;
            },
            InputEvent::PointerPosition { .. } => {
                return;
            },
            InputEvent::PointerButton { pressed, .. } => pressed,
            _ => false,
        };
        if self.control.full_diagnostics {
            self.events.push(
                DiagnosticEvent::InputSent {
                    sequence: self.input.input_sequence,
                    occurred_at,
                    sent_at,
                    send_completed_at,
                    correlates_test_marker,
                },
            );
        }
    }

    /// Ends a tick: what is due by time is done, and what the host is asked and
    /// told comes out.
    pub fn end_tick(&mut self, now: Instant, rtt: Duration) -> (end: TickEnd)
        requires
            old(self)@.well_formed(),
        ensures
            final(self)@.well_formed(),
            ({
                let ticked = StreamSessionModel {
                    receiver: old(self)@.receiver.ticked(now, rtt),
                    ..old(self)@
                };
                let due = stream_control::is_due(
                    Some(ticked.timers.last_report),
                    now,
                    stream_control::REPORT_NANOS,
                );
                &&& end.request_keyframe == ticked.keyframe_due(now)
                &&& end.report == if due {
                    Some(
                        stream_control::report_of(
                            ticked.receiver.video.stats,
                            ticked.receiver.snapshot.progress,
                            now.spec_since(ticked.timers.last_report),
                        ),
                    )
                } else {
                    None
                }
                &&& final(self)@ == (StreamSessionModel {
                    timers: StreamTimers {
                        last_keyframe_request: if end.request_keyframe {
                            Some(now)
                        } else {
                            ticked.timers.last_keyframe_request
                        },
                        keyframe_requests: if end.request_keyframe {
                            ticked.timers.keyframe_requests.saturating_add(1)
                        } else {
                            ticked.timers.keyframe_requests
                        },
                        last_report: if due {
                            now
                        } else {
                            ticked.timers.last_report
                        },
                        ..ticked.timers
                    },
                    gate: if end.request_keyframe {
                        ticked.gate.asking(now)
                    } else {
                        ticked.gate
                    },
                    ..ticked
                })
            }),
    {
        self.receiver.tick(now, rtt);
        let wanted = self.gate.request_keyframe || self.receiver.recover;
        let request_keyframe = self.timers.request_keyframe(wanted, now);
        if request_keyframe {
            self.gate.requested(now);
        }
        let report = self.timers.report(&self.receiver, now);
        TickEnd { request_keyframe, report }
    }

    /// The last transition of the stream: every key and button is let go.
    pub fn release_all(&mut self) -> (step: InputStep)
        ensures
            ({
                let (input, sent) = old(self)@.input.reliable(
                    Action::ReleaseAll(ReleaseAll {  }),
                    0,
                );
                step == sent && final(self)@ == (StreamSessionModel { input, ..old(self)@ })
            }),
    {
        self.input.release_all()
    }

    /// Tells what the reader has noted.
    fn tell_events(&mut self, progress: &mut Vec<StreamProgress>)
        requires
            old(self)@.well_formed(),
        ensures
            final(self)@.well_formed(),
            final(self)@
                == (StreamSessionModel { events: emptied(old(self)@.events), ..old(self)@ }),
            told(final(progress)@) == told(old(progress)@) + old(self)@.events.items.map_values(
                |event: DiagnosticEvent| told_of(event),
            ),
    {
        let events = self.events.take_all();
        let ghost before = progress@;
        let ghost all = events@.map_values(|event: DiagnosticEvent| told_of(event));
        for index in 0..events.len()
            invariant
                all == events@.map_values(|event: DiagnosticEvent| told_of(event)),
                told(progress@) == told(before) + all.take(index as int),
        {
            let ghost so_far = progress@;
            progress.push(tell(events[index]));
            assert(told(progress@) =~= told(so_far).push(all[index as int]));
            assert(all.take(index + 1) =~= all.take(index as int).push(all[index as int]));
        }
        assert(all.take(events@.len() as int) =~= all);
        assert(self@ =~= (StreamSessionModel { events: emptied(old(self)@.events), ..old(self)@ }));
    }

    /// Tells the samples that the digests complete.
    fn tell_samples(&mut self, progress: &mut Vec<StreamProgress>)
        requires
            old(self)@.well_formed(),
        ensures
            final(self)@.well_formed(),
            final(self)@ == (StreamSessionModel {
                receiver: ReceiverModel {
                    payload_digests: match old(self)@.receiver.payload_digests {
                        Some(queue) => Some(emptied(queue)),
                        None => None,
                    },
                    ..old(self)@.receiver
                },
                digests: old(self)@.samples().0,
                ..old(self)@
            }),
            told(final(progress)@) == told(old(progress)@) + old(self)@.samples().1,
    {
        let ghost begin = self@;
        let ghost before = progress@;
        let mut digests: Option<MediaQueue<PayloadDigestEvent>> = None;
        std::mem::swap(&mut digests, &mut self.receiver.payload_digests);
        match digests {
            Some(mut queue) => {
                let ghost queued = queue@;
                let events = queue.take_all();
                self.receiver.payload_digests = Some(queue);
                let ghost cleared = self@;
                for index in 0..events.len()
                    invariant
                        self@ == (StreamSessionModel { digests: self@.digests, ..cleared }),
                        self@.digests.well_formed(),
                        self@.digests == matched(begin.digests, events@.take(index as int)).0,
                        told(progress@) == told(before) + matched(
                            begin.digests,
                            events@.take(index as int),
                        ).1,
                {
                    let ghost so_far = progress@;
                    proof {
                        let taken = events@.take(index + 1);
                        assert(taken.drop_last() =~= events@.take(index as int));
                        assert(taken.last() == events@[index as int]);
                    }
                    match self.digests.push(events[index]) {
                        Some(sample) => {
                            progress.push(StreamProgress::PayloadIntegrity(sample));
                            assert(told(progress@) =~= told(so_far).push(
                                StreamProgressModel::PayloadIntegrity(sample),
                            ));
                        },
                        None => {},
                    }
                    assert(self@ =~= (StreamSessionModel { digests: self@.digests, ..cleared }));
                }
                assert(events@.take(events@.len() as int) =~= events@);
            },
            None => {},
        }
        assert(told(progress@) =~= told(before) + begin.samples().1);
    }

    /// Tells the lights, where they have changed, and the rest of the progress,
    /// where it is time.
    fn tell_regular(&mut self, now: Instant, progress: &mut Vec<StreamProgress>)
        requires
            old(self)@.well_formed(),
        ensures
            final(self)@.well_formed(),
            final(self)@ == old(self)@.reported(now),
            told(final(progress)@) == told(old(progress)@) + old(self)@.lights()
                + if stream_control::is_due(
                old(self)@.reporter.last_progress,
                now,
                PROGRESS_NANOS,
            ) {
                old(self)@.regular()
            } else {
                Seq::empty()
            },
    {
        let ghost begin = self@;
        let ghost before = progress@;
        match self.reporter.keyboard_leds(&self.receiver.snapshot) {
            Some(lights) => {
                progress.push(
                    StreamProgress::KeyboardLeds {
                        generation: lights.generation,
                        sequence: lights.sequence,
                        mask: lights.mask,
                    },
                );
            },
            None => {},
        }
        assert(told(progress@) =~= told(before) + begin.lights());
        if self.reporter.due(now) {
            let ghost lit = progress@;
            match self.receiver.snapshot.progress {
                Some(frame) => {
                    progress.push(
                        StreamProgress::ReceivingVideoPackets {
                            frame,
                            totals: self.receiver.snapshot.video,
                        },
                    );
                },
                None => {},
            }
            progress.push(StreamProgress::AudioTransport(self.receiver.snapshot.audio.copied()));
            if self.receiver.payload_digests.is_some() {
                progress.push(StreamProgress::PayloadIntegrityCounters(self.digests.counters()));
                progress.push(
                    StreamProgress::DiagnosticQueues(
                        diagnostic_queues(
                            &self.receiver,
                            self.events.depth() as u64,
                            self.events.dropped(),
                            self.timers.keyframe_requests,
                        ),
                    ),
                );
            }
            assert(told(progress@) =~= told(lit) + begin.regular());
        }
    }

    /// One round of the consumer. `reader_finished` says that the reader has
    /// come to its end.
    pub fn round(&mut self, reader_finished: bool, now: Instant, elapsed_micros: u64) -> (round:
        ConsumerRound)
        requires
            old(self)@.well_formed(),
        ensures
            final(self)@.well_formed(),
            round.audio@ == old(self)@.receiver.audio_events.items,
            ({
                let before = old(self)@.before_frame(now);
                match old(self)@.receiver.frames.popped().1 {
                    Some(assembled) => {
                        let (gate, admission) = before.gate.admitted(
                            assembled.frame.sequence,
                            assembled.frame.keyframe,
                            now,
                        );
                        &&& !round.over
                        &&& final(self)@ == (StreamSessionModel { gate, ..before })
                        &&& if admission.decode {
                            &&& round.frame == Some(
                                (
                                    assembled.frame,
                                    arrival_of(
                                        before,
                                        assembled.payload_sha256,
                                        now,
                                        elapsed_micros,
                                    ),
                                ),
                            )
                            &&& told(round.progress@) == old(self)@.news(now) + told_of_frame(
                                admission,
                                assembled.frame,
                            )
                        } else {
                            round.frame is None && told(round.progress@) == old(self)@.news(now)
                        }
                    },
                    None => {
                        &&& round.over == (before.receiver.frames.closed || reader_finished)
                        &&& final(self)@ == before
                        &&& round.frame is None
                        &&& told(round.progress@) == old(self)@.news(now)
                    },
                }
            }),
    {
        let ghost begin = self@;
        let frame = self.receiver.frames.pop_timeout(Duration::from_nanos(0));
        let ghost popped = frame;
        let audio = self.receiver.audio_events.take_all();
        let mut progress: Vec<StreamProgress> = Vec::new();
        assert(told(progress@) =~= Seq::<StreamProgressModel>::empty());
        self.tell_events(&mut progress);
        self.tell_samples(&mut progress);
        assert(self@ =~= begin.drained());
        self.tell_regular(now, &mut progress);
        assert(told(progress@) =~= begin.news(now));
        if self.receiver.take_recover() {
            self.gate.lost();
        }
        assert(self@ =~= begin.before_frame(now));
        match frame {
            Some(AssembledVideoFrame { frame, payload_sha256 }) => {
                let ghost given = frame;
                let admission = self.gate.pass(frame.sequence, frame.keyframe, now);
                if !admission.decode {
                    return ConsumerRound { audio, progress, frame: None, over: false };
                }
                match admission.recovered {
                    Some(duration) => {
                        progress.push(StreamProgress::KeyframeRecovered { duration });
                    },
                    None => {},
                }
                if admission.first {
                    progress.push(
                        StreamProgress::FirstFrameAssembled {
                            target_bitrate_bits_per_second: frame.target_bitrate_bits_per_second,
                            estimated_capacity_bits_per_second:
                                frame.estimated_capacity_bits_per_second,
                        },
                    );
                }
                assert(told(progress@) =~= begin.news(now) + told_of_frame(admission, given));
                let snapshot = &self.receiver.snapshot;
                let arrival = StreamTransportStatistics {
                    round_trip_time: snapshot.rtt,
                    assembly: snapshot.video,
                    assembled_at: if self.receiver.payload_digests.is_some() {
                        Some(now)
                    } else {
                        None
                    },
                    assembled_at_micros: elapsed_micros,
                    assembly_duration: Duration::from_micros(
                        snapshot.video.last_completed_assembly_micros,
                    ),
                    assembled_payload_sha256: payload_sha256,
                };
                ConsumerRound { audio, progress, frame: Some((frame, arrival)), over: false }
            },
            None => {
                let over = self.receiver.frames.is_closed() || reader_finished;
                ConsumerRound { audio, progress, frame: None, over }
            },
        }
    }

    /// Ends the reader's part: nothing more is queued.
    pub fn close(&mut self)
        requires
            old(self)@.well_formed(),
        ensures
            final(self)@.well_formed(),
            final(self)@ == (StreamSessionModel {
                receiver: ReceiverModel {
                    frames: MediaQueueModel { closed: true, ..old(self)@.receiver.frames },
                    audio_events: MediaQueueModel {
                        closed: true,
                        ..old(self)@.receiver.audio_events
                    },
                    ..old(self)@.receiver
                },
                ..old(self)@
            }),
    {
        self.receiver.frames.close();
        self.receiver.audio_events.close();
    }
}

/// Nothing is told twice: where the reader adds nothing between two rounds and it
/// is not yet time for more, the second round has no news.
pub proof fn law_nothing_is_told_twice(session: StreamSessionModel, now: Instant, later: Instant)
    requires
        !stream_control::is_due(
            session.before_frame(now).reporter.last_progress,
            later,
            PROGRESS_NANOS,
        ),
    ensures
        session.before_frame(now).news(later) == Seq::<StreamProgressModel>::empty(),
        session.before_frame(now).receiver.audio_events.items.len() == 0,
{
    let after = session.before_frame(now);
    match after.receiver.payload_digests {
        Some(queue) => {
            assert(queue.items =~= Seq::empty());
        },
        None => {},
    }
    assert(after.news(later) =~= Seq::empty());
}

/// After a loss nothing is decoded but a keyframe, and until one comes the stream
/// asks for it.
pub proof fn law_a_loss_asks_for_a_keyframe(
    session: StreamSessionModel,
    sequence: u64,
    keyframe: bool,
    now: Instant,
)
    requires
        session.receiver.recover,
    ensures
        session.before_frame(now).gate.request_keyframe,
        session.before_frame(now).gate.admitted(sequence, keyframe, now).1.decode == keyframe,
        session.before_frame(now).gate.admitted(sequence, keyframe, now).0.request_keyframe
            == !keyframe,
{
}

/// When a keyframe is asked for: where the frames or the datagrams want one,
/// and none was asked for within the last second.
pub proof fn law_when_a_keyframe_is_asked_for(session: StreamSessionModel, now: Instant)
    ensures
        session.keyframe_due(now) <==> (session.gate.request_keyframe || session.receiver.recover)
            && match session.timers.last_keyframe_request {
            Some(last) => last.nanos + 1_000_000_000 <= now.nanos,
            None => true,
        },
{
}

/// What an event is told as, what a message of the host is noted as, and when
/// it ends the stream.
pub proof fn law_events_are_told_as_they_are(
    event: DiagnosticEvent,
    outcome: Result<ControlOutcome, StreamFault>,
)
    ensures
        event is ReleasePointerCapture <==> told_of(event) is ReleasePointerCapture,
        event matches DiagnosticEvent::Clock(estimate) ==> told_of(event)
            == StreamProgressModel::ClockOffset(estimate),
        event matches DiagnosticEvent::InputAck { ack, player_received_at_micros } ==> (
        told_of(event) matches StreamProgressModel::InputAcknowledged {
            ack: told,
            player_received_at_micros: at,
        } && told == ack && at == player_received_at_micros),
        event matches DiagnosticEvent::InputSent {
            sequence,
            occurred_at,
            sent_at,
            send_completed_at,
            correlates_test_marker,
        } ==> (told_of(event) matches StreamProgressModel::InputSent {
            sequence: number,
            occurred_at: occurred,
            sent_at: sent,
            send_completed_at: completed,
            correlates_test_marker: correlates,
        } && number == sequence && occurred == occurred_at && sent == sent_at && completed
            == send_completed_at && correlates == correlates_test_marker),
        outcome matches Ok(ControlOutcome::Clock(estimate)) ==> noted_of(outcome) == Some(
            DiagnosticEvent::Clock(estimate),
        ),
        outcome matches Ok(ControlOutcome::InputAcknowledged { ack, player_received_at_micros })
            ==> noted_of(outcome) == Some(
            DiagnosticEvent::InputAck { ack, player_received_at_micros },
        ),
        outcome matches Ok(ControlOutcome::ReleasePointerCapture) ==> noted_of(outcome) == Some(
            DiagnosticEvent::ReleasePointerCapture,
        ),
        outcome is Err ==> noted_of(outcome) is None,
        outcome matches Ok(ControlOutcome::End(end)) ==> end_of(outcome) == Ok::<_, StreamFault>(
            Some(end),
        ),
        outcome matches Err(fault) ==> end_of(outcome) == Err::<Option<StreamEnd>, _>(fault),
        outcome matches Ok(done) ==> (!(done is End) ==> end_of(outcome) == Ok::<_, StreamFault>(
            None::<StreamEnd>,
        )),
{
}

/// The lights are told where they changed since they were told last.
pub proof fn law_changed_lights_are_told(session: StreamSessionModel)
    ensures
        ({
            let lights = session.receiver.snapshot.keyboard_leds;
            let changed = lights is Some && lights != session.reporter.reported_keyboard_leds;
            &&& changed <==> session.lights().len() == 1
            &&& !changed <==> session.lights().len() == 0
            &&& changed ==> (session.lights()[0] matches StreamProgressModel::KeyboardLeds {
                generation,
                sequence,
                mask,
            } && generation == lights->0.generation && sequence == lights->0.sequence && mask
                == lights->0.mask)
        }),
{
}

/// What a round leaves: the first frame is gone and the others wait, all audio
/// is handed on, the events and digests are taken, and a loss is passed on to
/// the frames.
pub proof fn law_what_a_round_leaves(session: StreamSessionModel, now: Instant)
    requires
        session.well_formed(),
    ensures
        ({
            let after = session.before_frame(now);
            let frames = session.receiver.frames.items;
            &&& frames.len() > 0 ==> after.receiver.frames.items == frames.skip(1)
            &&& frames.len() == 0 ==> after.receiver.frames.items.len() == 0
            &&& after.receiver.audio_events.items.len() == 0
            &&& after.events.items.len() == 0
            &&& after.receiver.payload_digests matches Some(queue) ==> queue.items.len() == 0
            &&& !after.receiver.recover
            &&& session.receiver.recover ==> after.gate.request_keyframe
                && !after.gate.continuity.ready
            &&& !session.receiver.recover ==> after.gate == session.gate
            &&& after.reporter.reported_keyboard_leds == session.receiver.snapshot.keyboard_leds
            &&& after.timers == session.timers
            &&& after.input == session.input
            &&& after.receiver.video == session.receiver.video
            &&& after.receiver.audio == session.receiver.audio
        }),
{
}

/// What is told regularly, every quarter of a second: the frame that is being
/// put together, the audio, and the queues where diagnostics are on.
pub proof fn law_what_is_told_regularly(session: StreamSessionModel, now: Instant)
    ensures
        ({
            let told = session.regular();
            let shown = session.receiver.snapshot;
            let start: int = if shown.progress is Some {
                1
            } else {
                0
            };
            &&& shown.progress matches Some(latest) ==> (
            told[0] matches StreamProgressModel::ReceivingVideoPackets { frame, totals } && frame
                == latest && totals == shown.video)
            &&& told[start] == StreamProgressModel::AudioTransport(shown.audio)
            &&& session.diagnostics() ==> told.len() == start + 3
            &&& !session.diagnostics() ==> told.len() == start + 1
            &&& session.receiver.payload_digests matches Some(queue) ==> {
                &&& told[start + 1] matches StreamProgressModel::PayloadIntegrityCounters(counters)
                &&& counters.pending_host_records == session.digests.host.len() as u64
                &&& counters.pending_player_payloads == session.digests.local.len() as u64
                &&& told[start + 2] matches StreamProgressModel::DiagnosticQueues(queues)
                &&& queues.video_depth == session.receiver.frames.items.len() as u64
                &&& queues.video_drops == session.receiver.frames.dropped
                &&& queues.audio_depth == session.receiver.audio_events.items.len() as u64
                &&& queues.audio_drops == session.receiver.audio_events.dropped
                &&& queues.event_depth == session.events.items.len() as u64
                &&& queues.event_drops == session.events.dropped
                &&& queues.digest_depth == queue.items.len() as u64
                &&& queues.digest_drops == queue.dropped
                &&& queues.keyframe_requests == session.timers.keyframe_requests
            }
        }),
        ({
            let reported = session.reported(now).reporter.last_progress;
            match session.reporter.last_progress {
                Some(last) if now.nanos < last.nanos + 250_000_000 => reported == Some(last),
                _ => reported == Some(now),
            }
        }),
{
}

/// What is told of a frame's way: the round trip, the counts, when it was put
/// together where diagnostics are on, and how long that took.
pub proof fn law_arrivals(
    session: StreamSessionModel,
    payload_sha256: Option<[u8; 32]>,
    now: Instant,
    elapsed_micros: u64,
)
    ensures
        ({
            let arrival = arrival_of(session, payload_sha256, now, elapsed_micros);
            let video = session.receiver.snapshot.video;
            &&& arrival.round_trip_time == session.receiver.snapshot.rtt
            &&& arrival.assembly == video
            &&& session.receiver.payload_digests is Some ==> arrival.assembled_at == Some(now)
            &&& session.receiver.payload_digests is None ==> arrival.assembled_at is None
            &&& arrival.assembled_at_micros == elapsed_micros
            &&& arrival.assembly_duration.nanos == 1_000 * video.last_completed_assembly_micros
            &&& arrival.assembled_payload_sha256 == payload_sha256
        }),
{
}

/// What is told of a frame that is decoded: the recovery that it ends, and the
/// first of all with its bitrates.
pub proof fn law_what_is_told_of_a_frame(admission: FrameAdmission, frame: VideoFramePayload)
    ensures
        ({
            let told = told_of_frame(admission, frame);
            let recovered: int = if admission.recovered is Some {
                1
            } else {
                0
            };
            &&& admission.recovered matches Some(took) ==> told[0]
                == (StreamProgressModel::KeyframeRecovered { duration: took })
            &&& admission.first ==> told.len() == recovered + 1 && (
            told[recovered] matches StreamProgressModel::FirstFrameAssembled {
                target_bitrate_bits_per_second,
                estimated_capacity_bits_per_second,
            } && target_bitrate_bits_per_second == frame.target_bitrate_bits_per_second
                && estimated_capacity_bits_per_second == frame.estimated_capacity_bits_per_second)
            &&& !admission.first ==> told.len() == recovered
        }),
{
}

} // verus!
