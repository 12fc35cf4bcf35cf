//! Decoded audio that waits for the video it belongs to.

use crate::time::{Duration, Instant};
use vstd::prelude::*;

verus! {

pub const AUDIO_QUEUE_CAPACITY: usize = 8;

/// How far audio may be from the video it is played with.
pub const AUDIO_VIDEO_SYNC_TOLERANCE_MICROS: u64 = 40_000;

/// One packet's worth of decoded audio. What the samples are is up to the
/// decoder and the output.
#[derive(Debug)]
pub struct DecodedAudioSamples<S> {
    pub generation: u64,
    pub sequence: u64,
    pub diagnostics: bool,
    pub assembled_at: Instant,
    pub assembled_at_micros: u64,
    pub decoded_at: Instant,
    pub ordered_playout_duration: Option<Duration>,
    pub decoder_queue_duration: Option<Duration>,
    pub decode_duration: Duration,
    pub encoded_bytes: usize,
    pub concealed_packets: u64,
    pub decoder_input_hash_duration: Duration,
    pub assembly_to_decoder_matched: Option<bool>,
    pub captured_at_micros: u64,
    pub samples: S,
}

#[derive(Debug)]
pub enum DecodedAudioEvent<S> {
    Reset { generation: u64 },
    Samples(DecodedAudioSamples<S>),
    Failed { generation: u64, detail: String },
}

#[derive(Debug)]
pub enum AudioPlaybackDecision<S> {
    Samples {
        decoded: DecodedAudioSamples<S>,
        queue_duration: Option<Duration>,
        sync_hold_duration: Option<Duration>,
    },
    Late { sequence: u64, queue_duration: Option<Duration>, lateness_micros: u64 },
}

#[derive(Clone, Debug, PartialEq, Eq)]
pub struct AudioPlaybackQueueSnapshot {
    pub pending_packets: usize,
    pub queue_drops: u64,
    pub late_drops: u64,
    pub resets: u64,
    pub decoder_failures: u64,
    pub detail: String,
}

/// Audio that waits, with the times that diagnostics ask for.
#[derive(Debug)]
pub struct PendingAudio<S> {
    pub decoded: DecodedAudioSamples<S>,
    pub queued_at: Option<Instant>,
    pub sync_hold_started: Option<Instant>,
}

#[derive(Debug)]
pub struct AudioPlaybackQueue<S> {
    pending: Vec<PendingAudio<S>>,
    reset: Option<u64>,
    queue_drops: u64,
    late_drops: u64,
    resets: u64,
    decoder_failures: u64,
    detail: String,
}

/// The contents of an [`AudioPlaybackQueue`], oldest audio first.
#[verifier::ext_equal]
pub struct AudioPlaybackModel<S> {
    pub pending: Seq<PendingAudio<S>>,
    pub reset: Option<u64>,
    pub queue_drops: u64,
    pub late_drops: u64,
    pub resets: u64,
    pub decoder_failures: u64,
    pub detail: Seq<char>,
}

impl<S> View for AudioPlaybackQueue<S> {
    type V = AudioPlaybackModel<S>;

    closed spec fn view(&self) -> AudioPlaybackModel<S> {
        AudioPlaybackModel {
            pending: self.pending@,
            reset: self.reset,
            queue_drops: self.queue_drops,
            late_drops: self.late_drops,
            resets: self.resets,
            decoder_failures: self.decoder_failures,
            detail: self.detail@,
        }
    }
}

/// The time from `start` to `end`, where both were noted.
pub open spec fn spec_elapsed(end: Option<Instant>, start: Option<Instant>) -> Option<Duration> {
    match (end, start) {
        (Some(end), Some(start)) => Some(end.spec_since(start)),
        _ => None,
    }
}

/// Audio that is too early for the video by more than the tolerance.
pub open spec fn is_early(audio: u64, video: u64) -> bool {
    audio > video.saturating_add(AUDIO_VIDEO_SYNC_TOLERANCE_MICROS)
}

/// Audio that is too late for the video by more than the tolerance.
pub open spec fn is_late(audio: u64, video: u64) -> bool {
    audio.saturating_add(AUDIO_VIDEO_SYNC_TOLERANCE_MICROS) < video
}

impl<S> AudioPlaybackModel<S> {
    pub open spec fn well_formed(self) -> bool {
        self.pending.len() <= AUDIO_QUEUE_CAPACITY
    }

    pub open spec fn initial() -> AudioPlaybackModel<S> {
        AudioPlaybackModel {
            pending: Seq::empty(),
            reset: None,
            queue_drops: 0,
            late_drops: 0,
            resets: 0,
            decoder_failures: 0,
            detail: Seq::empty(),
        }
    }

    /// The queue after an event that came at `now`.
    pub open spec fn pushed(self, event: DecodedAudioEvent<S>, now: Instant) -> AudioPlaybackModel<
        S,
    > {
        match event {
            DecodedAudioEvent::Reset { generation } => AudioPlaybackModel {
                pending: Seq::empty(),
                reset: Some(generation),
                resets: self.resets.saturating_add(1),
                detail: Seq::empty(),
                ..self
            },
            DecodedAudioEvent::Samples(decoded) => {
                let full = self.pending.len() == AUDIO_QUEUE_CAPACITY;
                AudioPlaybackModel {
                    pending: (if full {
                        self.pending.skip(1)
                    } else {
                        self.pending
                    }).push(
                        PendingAudio {
                            decoded,
                            queued_at: if decoded.diagnostics {
                                Some(now)
                            } else {
                                None
                            },
                            sync_hold_started: None,
                        },
                    ),
                    queue_drops: if full {
                        self.queue_drops.saturating_add(1)
                    } else {
                        self.queue_drops
                    },
                    ..self
                }
            },
            DecodedAudioEvent::Failed { detail, .. } => AudioPlaybackModel {
                pending: Seq::empty(),
                decoder_failures: self.decoder_failures.saturating_add(1),
                detail: detail@,
                ..self
            },
        }
    }

    /// What is played with the video of this timestamp, asked for at `now`.
    /// Audio that is early waits; audio that is late is dropped.
    pub open spec fn popped(self, video: Option<u64>, now: Instant) -> (
        AudioPlaybackModel<S>,
        Option<AudioPlaybackDecision<S>>,
    ) {
        match video {
            Some(video) if self.pending.len() > 0 => {
                let first = self.pending[0];
                let audio = first.decoded.captured_at_micros;
                let measured = if first.queued_at is Some {
                    Some(now)
                } else {
                    None
                };
                let rest = AudioPlaybackModel { pending: self.pending.skip(1), ..self };
                if is_early(audio, video) {
                    let held = PendingAudio {
                        sync_hold_started: if first.sync_hold_started is None {
                            measured
                        } else {
                            first.sync_hold_started
                        },
                        ..first
                    };
                    (AudioPlaybackModel { pending: self.pending.update(0, held), ..self }, None)
                } else if is_late(audio, video) {
                    (
                        AudioPlaybackModel {
                            late_drops: self.late_drops.saturating_add(1),
                            ..rest
                        },
                        Some(
                            AudioPlaybackDecision::Late {
                                sequence: first.decoded.sequence,
                                queue_duration: spec_elapsed(measured, first.queued_at),
                                lateness_micros: video.saturating_sub(audio),
                            },
                        ),
                    )
                } else {
                    (
                        rest,
                        Some(
                            AudioPlaybackDecision::Samples {
                                decoded: first.decoded,
                                queue_duration: spec_elapsed(measured, first.queued_at),
                                sync_hold_duration: spec_elapsed(
                                    measured,
                                    first.sync_hold_started,
                                ),
                            },
                        ),
                    )
                }
            },
            _ => (self, None),
        }
    }
}

fn elapsed(end: Option<Instant>, start: Option<Instant>) -> (duration: Option<Duration>)
    ensures
        duration == spec_elapsed(end, start),
{
    match (end, start) {
        (Some(end), Some(start)) => Some(end.saturating_duration_since(start)),
        _ => None,
    }
}

impl<S> Default for AudioPlaybackQueue<S> {
    fn default() -> (queue: Self)
        ensures
            queue@ == AudioPlaybackModel::<S>::initial(),
            queue@.well_formed(),
    {
        let queue = AudioPlaybackQueue {
            pending: Vec::new(),
            reset: None,
            queue_drops: 0,
            late_drops: 0,
            resets: 0,
            decoder_failures: 0,
            detail: String::new(),
        };
        assert(queue@ =~= AudioPlaybackModel::<S>::initial());
        queue
    }
}

impl<S> AudioPlaybackQueue<S> {
    /// Takes an event that came at `now`.
    pub fn push(&mut self, event: DecodedAudioEvent<S>, now: Instant)
        requires
            old(self)@.well_formed(),
        ensures
            final(self)@ == old(self)@.pushed(event, now),
            final(self)@.well_formed(),
    {
        let ghost before = self@;
        match event {
            DecodedAudioEvent::Reset { generation } => {
                self.pending = Vec::new();
                self.reset = Some(generation);
                self.resets = self.resets.saturating_add(1);
                self.detail = String::new();
            },
            DecodedAudioEvent::Samples(decoded) => {
                if self.pending.len() == AUDIO_QUEUE_CAPACITY {
                    self.pending.remove(0);
                    self.queue_drops = self.queue_drops.saturating_add(1);
                }
                let queued_at = if decoded.diagnostics {
                    Some(now)
                } else {
                    None
                };
                self.pending.push(PendingAudio { decoded, queued_at, sync_hold_started: None });
            },
            DecodedAudioEvent::Failed { generation: _, detail } => {
                self.pending = Vec::new();
                self.decoder_failures = self.decoder_failures.saturating_add(1);
                self.detail = detail;
            },
        }
        assert(self@ =~= before.pushed(event, now));
    }

    /// The generation that output has to be reset for, once.
    pub fn take_reset(&mut self) -> (reset: Option<u64>)
        ensures
            reset == old(self)@.reset,
            final(self)@ == (AudioPlaybackModel { reset: None, ..old(self)@ }),
    {
        let reset = self.reset;
        self.reset = None;
        reset
    }

    /// What to play with the video that shows now, if any does.
    pub fn pop_for_video(&mut self, video_timestamp_micros: Option<u64>, now: Instant) -> (decision:
        Option<AudioPlaybackDecision<S>>)
        requires
            old(self)@.well_formed(),
        ensures
            (final(self)@, decision) == old(self)@.popped(video_timestamp_micros, now),
            final(self)@.well_formed(),
    {
        let ghost before = self@;
        let video = match video_timestamp_micros {
            Some(video) => video,
            None => {
                return None;
            },
        };
        if self.pending.len() == 0 {
            return None;
        }
        let mut first = self.pending.remove(0);
        let measured = if first.queued_at.is_some() {
            Some(now)
        } else {
            None
        };
        let audio = first.decoded.captured_at_micros;
        if audio > video.saturating_add(AUDIO_VIDEO_SYNC_TOLERANCE_MICROS) {
            if first.sync_hold_started.is_none() {
                first.sync_hold_started = measured;
            }
            self.pending.insert(0, first);
            assert(self@ =~= before.popped(video_timestamp_micros, now).0);
            return None;
        }
        assert(self@.pending =~= before.pending.skip(1));
        let queue_duration = elapsed(measured, first.queued_at);
        if audio.saturating_add(AUDIO_VIDEO_SYNC_TOLERANCE_MICROS) < video {
            self.late_drops = self.late_drops.saturating_add(1);
            assert(self@ =~= before.popped(video_timestamp_micros, now).0);
            return Some(
                AudioPlaybackDecision::Late {
                    sequence: first.decoded.sequence,
                    queue_duration,
                    lateness_micros: video.saturating_sub(audio),
                },
            );
        }
        assert(self@ =~= before.popped(video_timestamp_micros, now).0);
        Some(
            AudioPlaybackDecision::Samples {
                decoded: first.decoded,
                queue_duration,
                sync_hold_duration: elapsed(measured, first.sync_hold_started),
            },
        )
    }

    #[must_use]
    pub fn snapshot(&self) -> (snapshot: AudioPlaybackQueueSnapshot)
        ensures
            snapshot.pending_packets == self@.pending.len(),
            snapshot.queue_drops == self@.queue_drops,
            snapshot.late_drops == self@.late_drops,
            snapshot.resets == self@.resets,
            snapshot.decoder_failures == self@.decoder_failures,
            snapshot.detail@ == self@.detail,
    {
        AudioPlaybackQueueSnapshot {
            pending_packets: self.pending.len(),
            queue_drops: self.queue_drops,
            late_drops: self.late_drops,
            resets: self.resets,
            decoder_failures: self.decoder_failures,
            detail: self.detail.clone(),
        }
    }
}

/// What is played is within the tolerance of the video, and what is not played
/// is not.
pub proof fn law_played_audio_is_in_sync<S>(
    queue: AudioPlaybackModel<S>,
    video: u64,
    now: Instant,
)
    requires
        queue.pending.len() > 0,
    ensures
        ({
            let audio = queue.pending[0].decoded.captured_at_micros;
            let (after, decision) = queue.popped(Some(video), now);
            match decision {
                Some(AudioPlaybackDecision::Samples { decoded, .. }) => audio <= video
                    + AUDIO_VIDEO_SYNC_TOLERANCE_MICROS && video <= audio
                    + AUDIO_VIDEO_SYNC_TOLERANCE_MICROS && decoded == queue.pending[0].decoded,
                Some(AudioPlaybackDecision::Late { .. }) => audio
                    + AUDIO_VIDEO_SYNC_TOLERANCE_MICROS < video && after.pending
                    == queue.pending.skip(1),
                None => audio > video + AUDIO_VIDEO_SYNC_TOLERANCE_MICROS && after.pending.len()
                    == queue.pending.len() && after.pending[0].decoded == queue.pending[0].decoded,
            }
        }),
{
}

/// New samples go to the end of the queue: what waited before keeps its order,
/// and only a queue of eight loses its first packet for them. The time of
/// arrival is noted where diagnostics ask for it.
pub proof fn law_samples_go_to_the_end<S>(
    queue: AudioPlaybackModel<S>,
    decoded: DecodedAudioSamples<S>,
    now: Instant,
)
    requires
        queue.pending.len() <= 8,
    ensures
        ({
            let after = queue.pushed(DecodedAudioEvent::Samples(decoded), now);
            let dropped: int = if queue.pending.len() == 8 {
                1
            } else {
                0
            };
            &&& after.pending.len() == queue.pending.len() - dropped + 1
            &&& forall|i: int|
                0 <= i < after.pending.len() - 1 ==> #[trigger] after.pending[i]
                    == queue.pending[i + dropped]
            &&& after.pending.last().decoded == decoded
            &&& after.pending.last().queued_at == if decoded.diagnostics {
                Some(now)
            } else {
                None::<Instant>
            }
            &&& after.pending.last().sync_hold_started is None
            &&& after.queue_drops == if dropped == 1 && queue.queue_drops < u64::MAX {
                queue.queue_drops + 1
            } else {
                queue.queue_drops as int
            }
            &&& after.reset == queue.reset
            &&& after.late_drops == queue.late_drops
            &&& after.resets == queue.resets
            &&& after.decoder_failures == queue.decoder_failures
            &&& after.detail == queue.detail
        }),
{
}

/// A reset and a failure let go of all that waits. The reset is remembered
/// until it is taken and clears the detail; the failure says what it was.
pub proof fn law_resets_and_failures_empty_the_queue<S>(
    queue: AudioPlaybackModel<S>,
    event: DecodedAudioEvent<S>,
    now: Instant,
)
    ensures
        event matches DecodedAudioEvent::Reset { generation } ==> {
            let after = queue.pushed(event, now);
            &&& after.pending.len() == 0
            &&& after.reset == Some(generation)
            &&& after.detail.len() == 0
            &&& queue.resets < u64::MAX ==> after.resets == queue.resets + 1
            &&& after.queue_drops == queue.queue_drops
            &&& after.late_drops == queue.late_drops
            &&& after.decoder_failures == queue.decoder_failures
        },
        event matches DecodedAudioEvent::Failed { generation, detail } ==> {
            let after = queue.pushed(event, now);
            &&& after.pending.len() == 0
            &&& after.reset == queue.reset
            &&& after.detail == detail@
            &&& queue.decoder_failures < u64::MAX ==> after.decoder_failures
                == queue.decoder_failures + 1
            &&& after.queue_drops == queue.queue_drops
            &&& after.late_drops == queue.late_drops
            &&& after.resets == queue.resets
        },
{
}

/// What a pop does, by the distance of the first packet's timestamp from the
/// video's: more than 40 ms ahead of it the packet waits, more than 40 ms behind
/// it the packet is dropped with how late it was, and otherwise it is played.
/// The packets behind it move up by one where it left. Without video, and with
/// nothing that waits, nothing happens.
pub proof fn law_pops_take_the_first<S>(
    queue: AudioPlaybackModel<S>,
    video: Option<u64>,
    now: Instant,
)
    ensures
        ({
            let (after, decision) = queue.popped(video, now);
            &&& after.reset == queue.reset
            &&& after.queue_drops == queue.queue_drops
            &&& after.resets == queue.resets
            &&& after.decoder_failures == queue.decoder_failures
            &&& after.detail == queue.detail
            &&& video is None || queue.pending.len() == 0 ==> decision is None && after == queue
            &&& decision is None ==> {
                &&& after.pending.len() == queue.pending.len()
                &&& after.late_drops == queue.late_drops
                &&& forall|i: int|
                    0 <= i < queue.pending.len() ==> (#[trigger] after.pending[i]).decoded
                        == queue.pending[i].decoded && after.pending[i].queued_at
                        == queue.pending[i].queued_at
            }
            &&& decision is Some ==> {
                &&& after.pending.len() == queue.pending.len() - 1
                &&& forall|i: int|
                    0 <= i < after.pending.len() ==> #[trigger] after.pending[i]
                        == queue.pending[i + 1]
            }
            &&& queue.pending.len() > 0 ==> (video matches Some(shown) ==> {
                let first = queue.pending[0];
                let ahead = first.decoded.captured_at_micros - shown;
                let saturated = shown > u64::MAX - 40_000
                    || first.decoded.captured_at_micros > u64::MAX - 40_000;
                &&& !saturated ==> (decision is None <==> ahead > 40_000)
                &&& !saturated ==> ((decision matches Some(AudioPlaybackDecision::Late { .. }))
                    <==> ahead < -40_000)
                &&& decision matches Some(AudioPlaybackDecision::Samples { decoded, .. })
                    ==> decoded == first.decoded && -40_000 <= ahead <= 40_000
                    && after.late_drops == queue.late_drops
                &&& decision matches Some(
                    AudioPlaybackDecision::Late { sequence, lateness_micros, .. },
                ) ==> sequence == first.decoded.sequence && lateness_micros == -ahead && (
                queue.late_drops < u64::MAX ==> after.late_drops == queue.late_drops + 1)
            })
        }),
{
}

/// How long a packet waited in the queue, and how long it was held for its
/// video, are measured from the times that were noted, and only then.
pub proof fn law_waiting_times<S>(queue: AudioPlaybackModel<S>, video: u64, now: Instant)
    requires
        queue.pending.len() > 0,
    ensures
        ({
            let first = queue.pending[0];
            let (after, decision) = queue.popped(Some(video), now);
            &&& match decision {
                Some(AudioPlaybackDecision::Samples { queue_duration, sync_hold_duration, .. }) => {
                    &&& queue_duration is Some <==> first.queued_at is Some
                    &&& first.queued_at matches Some(at) ==> (at.nanos <= now.nanos ==> (
                    queue_duration matches Some(waited) && waited.nanos == now.nanos - at.nanos))
                    &&& sync_hold_duration is Some <==> first.queued_at is Some
                        && first.sync_hold_started is Some
                    &&& first.queued_at is Some ==> (first.sync_hold_started matches Some(at) ==> (
                    at.nanos <= now.nanos ==> (sync_hold_duration matches Some(held) && held.nanos
                        == now.nanos - at.nanos)))
                },
                Some(AudioPlaybackDecision::Late { queue_duration, .. }) => {
                    &&& queue_duration is Some <==> first.queued_at is Some
                    &&& first.queued_at matches Some(at) ==> (at.nanos <= now.nanos ==> (
                    queue_duration matches Some(waited) && waited.nanos == now.nanos - at.nanos))
                },
                None => {
                    let held = after.pending[0].sync_hold_started;
                    if first.sync_hold_started is Some || first.queued_at is None {
                        held == first.sync_hold_started
                    } else {
                        held == Some(now)
                    }
                },
            }
        }),
{
}

/// A call on the queue.
pub ghost enum PlaybackCall<S> {
    Push(DecodedAudioEvent<S>, Instant),
    Pop(Option<u64>, Instant),
    TakeReset,
}

/// A queue after calls on a fresh one.
pub open spec fn after_calls<S>(calls: Seq<PlaybackCall<S>>) -> AudioPlaybackModel<S>
    decreases calls.len(),
{
    if calls.len() == 0 {
        AudioPlaybackModel::initial()
    } else {
        let before = after_calls(calls.drop_last());
        match calls.last() {
            PlaybackCall::Push(event, now) => before.pushed(event, now),
            PlaybackCall::Pop(video, now) => before.popped(video, now).0,
            PlaybackCall::TakeReset => AudioPlaybackModel { reset: None, ..before },
        }
    }
}

/// The audio of the packets that wait.
pub open spec fn waiting<S>(pending: Seq<PendingAudio<S>>) -> Seq<DecodedAudioSamples<S>> {
    pending.map_values(|audio: PendingAudio<S>| audio.decoded)
}

/// The audio that was pushed, in the order of the pushes.
pub open spec fn pushed_audio<S>(calls: Seq<PlaybackCall<S>>) -> Seq<DecodedAudioSamples<S>>
    decreases calls.len(),
{
    if calls.len() == 0 {
        Seq::empty()
    } else {
        let earlier = pushed_audio(calls.drop_last());
        match calls.last() {
            PlaybackCall::Push(DecodedAudioEvent::Samples(decoded), _) => earlier.push(decoded),
            _ => earlier,
        }
    }
}

/// The audio that left the queue, in the order in which it left: what a pop
/// played or dropped as late, what a push found no room for, and what a reset
/// or a failure let go.
pub open spec fn departed_audio<S>(calls: Seq<PlaybackCall<S>>) -> Seq<DecodedAudioSamples<S>>
    decreases calls.len(),
{
    if calls.len() == 0 {
        Seq::empty()
    } else {
        let earlier = departed_audio(calls.drop_last());
        let before = after_calls(calls.drop_last());
        match calls.last() {
            PlaybackCall::Push(DecodedAudioEvent::Samples(_), _) => if before.pending.len() == 8 {
                earlier.push(before.pending[0].decoded)
            } else {
                earlier
            },
            PlaybackCall::Push(_, _) => earlier + waiting(before.pending),
            PlaybackCall::Pop(video, now) => match before.popped(video, now).1 {
                Some(AudioPlaybackDecision::Samples { decoded, .. }) => earlier.push(decoded),
                Some(AudioPlaybackDecision::Late { .. }) => earlier.push(
                    before.pending[0].decoded,
                ),
                None => earlier,
            },
            PlaybackCall::TakeReset => earlier,
        }
    }
}

/// Over any calls on a fresh queue the audio leaves in the order in which it
/// was pushed, and none is lost on the way: what left, followed by what waits,
/// is what was pushed. Never more than eight packets wait.
pub proof fn law_audio_leaves_in_order<S>(calls: Seq<PlaybackCall<S>>)
    ensures
        departed_audio(calls) + waiting(after_calls(calls).pending) == pushed_audio(calls),
        after_calls(calls).pending.len() <= 8,
    decreases calls.len(),
{
    if calls.len() == 0 {
        assert(departed_audio(calls) + waiting(after_calls(calls).pending) =~= pushed_audio(calls));
    } else {
        let earlier = calls.drop_last();
        law_audio_leaves_in_order(earlier);
        let before = after_calls(earlier);
        assert(departed_audio(earlier) + waiting(before.pending) == pushed_audio(earlier));
        if before.pending.len() > 0 {
            assert(waiting(before.pending) =~= seq![before.pending[0].decoded] + waiting(
                before.pending.skip(1),
            ));
        }
        match calls.last() {
            PlaybackCall::Push(DecodedAudioEvent::Samples(decoded), now) => {
                let after = before.pushed(DecodedAudioEvent::Samples(decoded), now);
                law_samples_go_to_the_end(before, decoded, now);
                let kept = if before.pending.len() == 8 {
                    before.pending.skip(1)
                } else {
                    before.pending
                };
                assert(waiting(after.pending) =~= waiting(kept).push(decoded));
                assert(departed_audio(calls) + waiting(after.pending) =~= pushed_audio(
                    earlier,
                ).push(decoded));
            },
            PlaybackCall::Push(event, now) => {
                law_resets_and_failures_empty_the_queue(before, event, now);
                assert(departed_audio(calls) + waiting(after_calls(calls).pending) =~= pushed_audio(
                    calls,
                ));
            },
            PlaybackCall::Pop(video, now) => {
                law_pops_take_the_first(before, video, now);
                let after = before.popped(video, now).0;
                if before.popped(video, now).1 is None {
                    assert(waiting(after.pending) =~= waiting(before.pending));
                } else {
                    assert(waiting(after.pending) =~= waiting(before.pending.skip(1)));
                    assert(departed_audio(calls) =~= departed_audio(earlier).push(
                        before.pending[0].decoded,
                    ));
                }
                assert(departed_audio(calls) + waiting(after.pending) =~= pushed_audio(calls));
            },
            PlaybackCall::TakeReset => {},
        }
    }
}

/// A fresh queue holds nothing and has counted nothing.
pub proof fn law_a_fresh_queue<S>()
    ensures
        ({
            let fresh = AudioPlaybackModel::<S>::initial();
            &&& fresh.pending.len() == 0
            &&& fresh.reset is None
            &&& fresh.queue_drops + fresh.late_drops + fresh.resets + fresh.decoder_failures == 0
            &&& fresh.detail.len() == 0
        }),
{
}

} // verus!
