//! What a viewer makes of the datagrams of a stream.

use crate::digest;
use crate::player::audio_ordering::{
    AudioPlaybackEvent, OrderedAudioPackets, PendingPacket, PlayoutModel,
};
use crate::player::keyboard_leds::KeyboardLedSnapshot;
use crate::player::messages;
use crate::player::payload_integrity::{
    local_payload_digest, LocalPayloadDigest, PayloadDigestEvent,
};
use crate::protocol::audio;
use crate::protocol::audio::{AudioPacket, AudioPacketModel};
use crate::protocol::diagnostics::MediaKind;
use crate::protocol::wire::audio_messages::AudioStreamStateModel;
use crate::protocol::wire::{AudioStatus, AudioStreamState};
use crate::session::audio_assembly::{
    AudioAssembler, AudioAssemblerModel, AudioReceiveStatistics, AUDIO_QUEUE_PACKETS,
};
use crate::session::media_queue::{MediaQueue, MediaQueueModel};
use crate::session::video_assembly::{
    AssemblerModel, FrameAssemblyProgress, VideoAssemblyStats, VideoFrameAssembler,
};
use crate::session::video_datagram::{VideoDatagramError, VideoFrameModel, VideoFramePayload};
use crate::time::{Duration, Instant};
use vstd::prelude::*;

verus! {

/// How many frames wait to be decoded.
pub const VIDEO_FRAME_QUEUE_CAPACITY: usize = 2;

/// How many audio events wait to be played.
pub const AUDIO_EVENT_QUEUE_CAPACITY: usize = AUDIO_QUEUE_PACKETS + 1;

/// How many digests wait to be matched.
pub const DIGEST_QUEUE_CAPACITY: usize = 4_096;

/// The generation that video has.
pub const VIDEO_GENERATION: u64 = 1;

/// What is known of the audio of a stream.
#[derive(Clone, Debug, PartialEq)]
pub struct AudioTransportSnapshot {
    pub receive: AudioReceiveStatistics,
    pub host: AudioStreamState,
    pub video_queue_drops: u64,
    pub audio_queue_drops: u64,
}

/// The contents of an [`AudioTransportSnapshot`].
#[verifier::ext_equal]
pub struct AudioTransportModel {
    pub receive: AudioReceiveStatistics,
    pub host: AudioStreamStateModel,
    pub video_queue_drops: u64,
    pub audio_queue_drops: u64,
}

impl View for AudioTransportSnapshot {
    type V = AudioTransportModel;

    open spec fn view(&self) -> AudioTransportModel {
        AudioTransportModel {
            receive: self.receive,
            host: self.host@,
            video_queue_drops: self.video_queue_drops,
            audio_queue_drops: self.audio_queue_drops,
        }
    }
}

impl AudioTransportSnapshot {
    /// Whether the host has no more audio to send.
    pub fn stopped(&self) -> (result: bool)
        ensures
            result == (self.host.status == AudioStatus::Unavailable.spec_number()
                || self.host.status == AudioStatus::Failed.spec_number() || self.host.status
                == AudioStatus::Stopped.spec_number()),
    {
        match AudioStatus::try_from(self.host.status) {
            Ok(AudioStatus::Unavailable) => true,
            Ok(AudioStatus::Failed) => true,
            Ok(AudioStatus::Stopped) => true,
            _ => false,
        }
    }

    /// The same snapshot again.
    pub fn copied(&self) -> (copy: Self)
        ensures
            copy@ == self@,
    {
        AudioTransportSnapshot {
            receive: self.receive,
            host: AudioStreamState {
                generation: self.host.generation,
                status: self.host.status,
                dropped_packets: self.host.dropped_packets,
                detail: self.host.detail.clone(),
            },
            video_queue_drops: self.video_queue_drops,
            audio_queue_drops: self.audio_queue_drops,
        }
    }

    /// Whether there is any audio to speak of.
    pub fn negotiated(&self) -> (result: bool)
        ensures
            result == (self.host.status != AudioStatus::NotNegotiated.spec_number()),
    {
        self.host.status != AudioStatus::NotNegotiated.number()
    }
}

/// What is known of a stream.
#[derive(Clone, Debug, PartialEq)]
pub struct StreamSnapshot {
    pub audio: AudioTransportSnapshot,
    pub video: VideoAssemblyStats,
    pub progress: Option<FrameAssemblyProgress>,
    pub rtt: Duration,
    pub keyboard_leds: Option<KeyboardLedSnapshot>,
}

/// The contents of a [`StreamSnapshot`].
#[verifier::ext_equal]
pub struct StreamSnapshotModel {
    pub audio: AudioTransportModel,
    pub video: VideoAssemblyStats,
    pub progress: Option<FrameAssemblyProgress>,
    pub rtt: Duration,
    pub keyboard_leds: Option<KeyboardLedSnapshot>,
}

impl View for StreamSnapshot {
    type V = StreamSnapshotModel;

    open spec fn view(&self) -> StreamSnapshotModel {
        StreamSnapshotModel {
            audio: self.audio@,
            video: self.video,
            progress: self.progress,
            rtt: self.rtt,
            keyboard_leds: self.keyboard_leds,
        }
    }
}

/// A frame that waits to be decoded.
#[derive(Debug)]
pub struct AssembledVideoFrame {
    pub frame: VideoFramePayload,
    pub payload_sha256: Option<[u8; 32]>,
}

/// What a datagram completed.
#[derive(Debug)]
pub enum Assembled {
    Nothing,
    Audio(AudioPacket),
    Video(VideoFramePayload),
}

/// The contents of what a datagram completed.
#[verifier::ext_equal]
pub enum AssembledModel {
    Nothing,
    Audio(AudioPacketModel),
    Video(VideoFrameModel),
}

impl View for Assembled {
    type V = AssembledModel;

    open spec fn view(&self) -> AssembledModel {
        match self {
            Assembled::Nothing => AssembledModel::Nothing,
            Assembled::Audio(packet) => AssembledModel::Audio(packet@),
            Assembled::Video(frame) => AssembledModel::Video(frame@),
        }
    }
}

/// A viewer's end of a stream.
pub struct Receiver {
    pub video: VideoFrameAssembler,
    pub audio: AudioAssembler,
    pub audio_enabled: bool,
    pub ordered_audio: OrderedAudioPackets,
    pub audio_events: MediaQueue<AudioPlaybackEvent>,
    pub frames: MediaQueue<AssembledVideoFrame>,
    /// Where diagnostics are on, what was seen of each payload.
    pub payload_digests: Option<MediaQueue<PayloadDigestEvent>>,
    pub snapshot: StreamSnapshot,
    /// Whether something is lost that later frames depend on.
    pub recover: bool,
}

/// The contents of a [`Receiver`].
#[verifier::ext_equal]
pub struct ReceiverModel {
    pub video: AssemblerModel,
    pub audio: AudioAssemblerModel,
    pub audio_enabled: bool,
    pub ordered_audio: PlayoutModel,
    pub audio_events: MediaQueueModel<AudioPlaybackEvent>,
    pub frames: MediaQueueModel<AssembledVideoFrame>,
    pub payload_digests: Option<MediaQueueModel<PayloadDigestEvent>>,
    pub snapshot: StreamSnapshotModel,
    pub recover: bool,
}

impl View for Receiver {
    type V = ReceiverModel;

    open spec fn view(&self) -> ReceiverModel {
        ReceiverModel {
            video: self.video@,
            audio: self.audio@,
            audio_enabled: self.audio_enabled,
            ordered_audio: self.ordered_audio@,
            audio_events: self.audio_events@,
            frames: self.frames@,
            payload_digests: match self.payload_digests {
                Some(queue) => Some(queue@),
                None => None,
            },
            snapshot: self.snapshot@,
            recover: self.recover,
        }
    }
}

/// The 32 bytes of the digest of `data`.
pub open spec fn hash_of(data: Seq<u8>) -> [u8; 32] {
    choose|hash: [u8; 32]| hash@ == digest::sha256_of(data)
}

impl ReceiverModel {
    /// Nothing has arrived yet.
    pub open spec fn initial(
        frames_per_second: u16,
        audio_enabled: bool,
        diagnostics: bool,
        rtt: Duration,
    ) -> ReceiverModel {
        ReceiverModel {
            video: AssemblerModel::initial(frames_per_second),
            audio: AudioAssemblerModel::initial(),
            audio_enabled,
            ordered_audio: PlayoutModel::initial(),
            audio_events: MediaQueueModel::initial(AUDIO_EVENT_QUEUE_CAPACITY),
            frames: MediaQueueModel::initial(VIDEO_FRAME_QUEUE_CAPACITY),
            payload_digests: if diagnostics {
                Some(MediaQueueModel::initial(DIGEST_QUEUE_CAPACITY))
            } else {
                None
            },
            snapshot: StreamSnapshotModel {
                audio: AudioTransportModel {
                    receive: AudioReceiveStatistics::zero(),
                    host: AudioStreamStateModel {
                        generation: 0,
                        status: if audio_enabled {
                            AudioStatus::Waiting.spec_number()
                        } else {
                            AudioStatus::NotNegotiated.spec_number()
                        },
                        dropped_packets: 0,
                        detail: Seq::empty(),
                    },
                    video_queue_drops: 0,
                    audio_queue_drops: 0,
                },
                video: VideoAssemblyStats::zero(),
                progress: None,
                rtt,
                keyboard_leds: None,
            },
            recover: false,
        }
    }

    pub open spec fn well_formed(self) -> bool {
        &&& self.video.well_formed()
        &&& self.audio.well_formed()
        &&& self.ordered_audio.well_formed()
        &&& self.audio_events.well_formed()
        &&& self.frames.well_formed()
        &&& self.payload_digests is Some ==> self.payload_digests->0.well_formed()
    }

    /// What a datagram completes. One with the audio magic is audio, and is left
    /// alone where there is none; every other is video.
    pub open spec fn assembled(self, datagram: Seq<u8>, now: Instant, rtt: Duration) -> (
        ReceiverModel,
        Result<AssembledModel, VideoDatagramError>,
    ) {
        if audio::is_audio(datagram) {
            let (audio, packet) = self.audio.pushed(datagram, now);
            if !self.audio_enabled {
                (self, Ok(AssembledModel::Nothing))
            } else {
                (
                    ReceiverModel { audio, ..self },
                    Ok(
                        match packet {
                            Some(packet) => AssembledModel::Audio(packet),
                            None => AssembledModel::Nothing,
                        },
                    ),
                )
            }
        } else {
            match self.video.pushed(datagram, now, rtt) {
                (video, Ok(assembly)) => (
                    ReceiverModel {
                        video,
                        recover: self.recover || assembly.dependency_lost,
                        snapshot: StreamSnapshotModel {
                            progress: assembly.progress,
                            ..self.snapshot
                        },
                        ..self
                    },
                    Ok(
                        match assembly.frame {
                            Some(frame) => AssembledModel::Video(frame),
                            None => AssembledModel::Nothing,
                        },
                    ),
                ),
                (video, Err(error)) => (ReceiverModel { video, ..self }, Err(error)),
            }
        }
    }

    /// With a digest noted, where there is one.
    pub open spec fn noted(self, local: Option<LocalPayloadDigest>) -> ReceiverModel {
        match (local, self.payload_digests) {
            (Some(local), Some(queue)) => ReceiverModel {
                payload_digests: Some(queue.pushed(PayloadDigestEvent::Local(local)).0),
                ..self
            },
            _ => self,
        }
    }

    /// With audio events queued; what falls out of the queue is counted.
    pub open spec fn queued(self, events: Seq<AudioPlaybackEvent>) -> ReceiverModel
        decreases events.len(),
    {
        if events.len() == 0 {
            self
        } else {
            let before = self.queued(events.drop_last());
            let (queue, fallen) = before.audio_events.pushed(events.last());
            ReceiverModel {
                audio_events: queue,
                snapshot: StreamSnapshotModel {
                    audio: AudioTransportModel {
                        audio_queue_drops: if fallen is Some {
                            before.snapshot.audio.audio_queue_drops.saturating_add(1)
                        } else {
                            before.snapshot.audio.audio_queue_drops
                        },
                        ..before.snapshot.audio
                    },
                    ..before.snapshot
                },
                ..before
            }
        }
    }

    /// With a completed audio packet.
    pub open spec fn with_audio(
        self,
        packet: AudioPacket,
        now: Instant,
        elapsed_micros: u64,
        local: Option<LocalPayloadDigest>,
    ) -> ReceiverModel {
        let (ordered_audio, events) = self.ordered_audio.pushed(
            PendingPacket {
                packet,
                received: now,
                assembled_at_micros: elapsed_micros,
                assembled_payload_sha256: match local {
                    Some(local) => Some(local.sha256),
                    None => None,
                },
            },
            now,
        );
        (ReceiverModel { ordered_audio, ..self.noted(local) }).queued(events)
    }

    /// With a completed frame. Where it pushes another out, that one is lost to
    /// what depends on it.
    pub open spec fn with_video(
        self,
        frame: VideoFramePayload,
        local: Option<LocalPayloadDigest>,
    ) -> ReceiverModel {
        let noted = self.noted(local);
        let (frames, fallen) = noted.frames.pushed(
            AssembledVideoFrame {
                frame,
                payload_sha256: match local {
                    Some(local) => Some(local.sha256),
                    None => None,
                },
            },
        );
        if fallen is Some {
            ReceiverModel {
                frames,
                recover: true,
                snapshot: StreamSnapshotModel {
                    audio: AudioTransportModel {
                        video_queue_drops: noted.snapshot.audio.video_queue_drops.saturating_add(1),
                        ..noted.snapshot.audio
                    },
                    ..noted.snapshot
                },
                ..noted
            }
        } else {
            ReceiverModel { frames, ..noted }
        }
    }

    /// With a snapshot of where the assemblers are. Audio of a generation that
    /// the host has not announced yet is active.
    pub open spec fn published(self, rtt: Duration) -> ReceiverModel {
        ReceiverModel {
            snapshot: StreamSnapshotModel {
                video: self.video.stats,
                rtt,
                audio: AudioTransportModel {
                    receive: self.audio.stats,
                    host: if self.audio.stats.generation > self.snapshot.audio.host.generation {
                        AudioStreamStateModel {
                            generation: self.audio.stats.generation,
                            status: AudioStatus::Active.spec_number(),
                            detail: Seq::empty(),
                            ..self.snapshot.audio.host
                        }
                    } else {
                        self.snapshot.audio.host
                    },
                    ..self.snapshot.audio
                },
                ..self.snapshot
            },
            ..self
        }
    }

    /// With a state that the host announced, where it is a valid one of this or
    /// a later generation.
    pub open spec fn announced(self, state: AudioStreamStateModel) -> ReceiverModel {
        if !self.audio_enabled || !is_valid_state(state) || state.generation
            < self.audio.stats.generation {
            self
        } else {
            ReceiverModel {
                audio: self.audio.at_generation(state.generation),
                ordered_audio: self.ordered_audio.in_generation(state.generation),
                snapshot: StreamSnapshotModel {
                    audio: AudioTransportModel { host: state, ..self.snapshot.audio },
                    ..self.snapshot
                },
                ..self
            }
        }
    }

    /// With what is due by time.
    pub open spec fn ticked(self, now: Instant, rtt: Duration) -> ReceiverModel {
        let (ordered_audio, events) = self.ordered_audio.drained(now);
        (ReceiverModel { audio: self.audio.expired(now), ordered_audio, ..self }).queued(
            events,
        ).published(rtt)
    }

    /// What is seen of a payload, where diagnostics are on.
    pub open spec fn digest_of(
        self,
        kind: MediaKind,
        generation: u64,
        sequence: u64,
        payload: Seq<u8>,
        hash_duration_micros: u64,
        elapsed_micros: u64,
    ) -> Option<LocalPayloadDigest> {
        if self.payload_digests is Some {
            Some(
                LocalPayloadDigest {
                    kind,
                    generation,
                    sequence,
                    payload_size: payload.len() as u64,
                    hash_duration_micros,
                    sha256: hash_of(payload),
                    assembled_at_micros: elapsed_micros,
                },
            )
        } else {
            None
        }
    }

    /// What is seen of what a datagram completed, where it completed something and
    /// diagnostics are on.
    pub open spec fn seen_of(
        self,
        assembled: Assembled,
        hash_duration_micros: u64,
        elapsed_micros: u64,
    ) -> Option<LocalPayloadDigest> {
        match assembled {
            Assembled::Nothing => None,
            Assembled::Audio(packet) => self.digest_of(
                MediaKind::Audio,
                packet.generation,
                packet.sequence,
                packet.payload@,
                hash_duration_micros,
                elapsed_micros,
            ),
            Assembled::Video(frame) => self.digest_of(
                MediaKind::Video,
                VIDEO_GENERATION,
                frame.sequence,
                frame.payload@,
                hash_duration_micros,
                elapsed_micros,
            ),
        }
    }

    /// With what a datagram completed, and what was seen of it.
    pub open spec fn delivered(
        self,
        assembled: Assembled,
        local: Option<LocalPayloadDigest>,
        now: Instant,
        rtt: Duration,
        elapsed_micros: u64,
    ) -> ReceiverModel {
        (match assembled {
            Assembled::Nothing => self,
            Assembled::Audio(packet) => self.with_audio(packet, now, elapsed_micros, local),
            Assembled::Video(frame) => self.with_video(frame, local),
        }).published(rtt)
    }
}

pub open spec fn is_valid_state(state: AudioStreamStateModel) -> bool {
    vstd::utf8::encode_utf8(state.detail).len()
        <= crate::protocol::wire::audio_messages::MAX_DETAIL_SIZE && AudioStatus::is_number(
        state.status,
    )
}

impl Receiver {
    /// A receiver of a new stream.
    pub fn new(frames_per_second: u16, audio_enabled: bool, diagnostics: bool, rtt: Duration) -> (
        receiver: Self)
        ensures
            receiver@.well_formed(),
            receiver@ == ReceiverModel::initial(
                frames_per_second,
                audio_enabled,
                diagnostics,
                rtt,
            ),
    {
        let status = if audio_enabled {
            AudioStatus::Waiting.number()
        } else {
            AudioStatus::NotNegotiated.number()
        };
        let receiver = Receiver {
            video: VideoFrameAssembler::new(frames_per_second),
            audio: AudioAssembler::default(),
            audio_enabled,
            ordered_audio: OrderedAudioPackets::default(),
            audio_events: MediaQueue::new(AUDIO_EVENT_QUEUE_CAPACITY),
            frames: MediaQueue::new(VIDEO_FRAME_QUEUE_CAPACITY),
            payload_digests: if diagnostics {
                Some(MediaQueue::new(DIGEST_QUEUE_CAPACITY))
            } else {
                None
            },
            snapshot: StreamSnapshot {
                audio: AudioTransportSnapshot {
                    receive: AudioReceiveStatistics::default(),
                    host: AudioStreamState {
                        generation: 0,
                        status,
                        dropped_packets: 0,
                        detail: String::new(),
                    },
                    video_queue_drops: 0,
                    audio_queue_drops: 0,
                },
                video: VideoAssemblyStats::default(),
                progress: None,
                rtt,
                keyboard_leds: None,
            },
            recover: false,
        };
        assert(receiver.snapshot.audio.host@.detail =~= Seq::<char>::empty());
        receiver
    }

    /// Takes a datagram: what it completed.
    pub fn assemble(&mut self, datagram: &[u8], now: Instant, rtt: Duration) -> (result: Result<
        Assembled,
        VideoDatagramError,
    >)
        requires
            old(self)@.well_formed(),
        ensures
            final(self)@.well_formed(),
            (
                final(self)@,
                match result {
                    Ok(assembled) => Ok::<_, VideoDatagramError>(assembled@),
                    Err(error) => Err(error),
                },
            ) == old(self)@.assembled(datagram@, now, rtt),
    {
        if audio::has_audio_magic(datagram) {
            if !self.audio_enabled {
                return Ok(Assembled::Nothing);
            }
            match self.audio.push(datagram, now) {
                Some(packet) => Ok(Assembled::Audio(packet)),
                None => Ok(Assembled::Nothing),
            }
        } else {
            match self.video.push(datagram, now, rtt) {
                Ok(assembly) => {
                    if assembly.dependency_lost {
                        self.recover = true;
                    }
                    self.snapshot.progress = assembly.progress;
                    match assembly.frame {
                        Some(frame) => Ok(Assembled::Video(frame)),
                        None => Ok(Assembled::Nothing),
                    }
                },
                Err(error) => Err(error),
            }
        }
    }

    fn note(&mut self, local: Option<LocalPayloadDigest>)
        requires
            old(self)@.well_formed(),
        ensures
            final(self)@ == old(self)@.noted(local),
            final(self)@.well_formed(),
    {
        match local {
            Some(local) => {
                let mut digests: Option<MediaQueue<PayloadDigestEvent>> = None;
                std::mem::swap(&mut digests, &mut self.payload_digests);
                self.payload_digests = match digests {
                    Some(mut queue) => {
                        queue.push(PayloadDigestEvent::Local(local));
                        Some(queue)
                    },
                    None => None,
                };
            },
            None => {},
        }
    }

    /// Queues a completed audio packet, and what was seen of it.
    pub fn deliver_audio(
        &mut self,
        packet: AudioPacket,
        now: Instant,
        elapsed_micros: u64,
        local: Option<LocalPayloadDigest>,
    )
        requires
            old(self)@.well_formed(),
        ensures
            final(self)@ == old(self)@.with_audio(packet, now, elapsed_micros, local),
            final(self)@.well_formed(),
    {
        self.note(local);
        let hash = match local {
            Some(local) => Some(local.sha256),
            None => None,
        };
        let events = self.ordered_audio.push(packet, now, elapsed_micros, hash);
        self.queue_audio(events);
    }

    /// Queues a completed frame, and what was seen of it.
    pub fn deliver_video(&mut self, frame: VideoFramePayload, local: Option<LocalPayloadDigest>)
        requires
            old(self)@.well_formed(),
        ensures
            final(self)@ == old(self)@.with_video(frame, local),
            final(self)@.well_formed(),
    {
        self.note(local);
        let payload_sha256 = match local {
            Some(local) => Some(local.sha256),
            None => None,
        };
        if self.frames.push(AssembledVideoFrame { frame, payload_sha256 }).is_some() {
            self.snapshot.audio.video_queue_drops =
            self.snapshot.audio.video_queue_drops.saturating_add(1);
            self.recover = true;
        }
    }

    fn queue_audio(&mut self, events: Vec<AudioPlaybackEvent>)
        requires
            old(self)@.well_formed(),
        ensures
            final(self)@ == old(self)@.queued(events@),
            final(self)@.well_formed(),
    {
        let ghost begin = self@;
        let ghost all = events@;
        let mut rest = events;
        let mut done: Ghost<int> = Ghost(0);
        assert(all.take(0) =~= Seq::<AudioPlaybackEvent>::empty());
        assert(all.skip(0) =~= all);
        while rest.len() > 0
            invariant
                self@.well_formed(),
                0 <= done@ <= all.len(),
                rest@ == all.skip(done@),
                self@ == begin.queued(all.take(done@)),
            decreases rest@.len(),
        {
            let ghost before = self@;
            let event = rest.remove(0);
            if self.audio_events.push(event).is_some() {
                self.snapshot.audio.audio_queue_drops =
                self.snapshot.audio.audio_queue_drops.saturating_add(1);
            }
            proof {
                let next = all.take(done@ + 1);
                assert(next.drop_last() =~= all.take(done@));
                assert(next.last() == event);
                assert(rest@ =~= all.skip(done@ + 1));
                assert(self@ =~= begin.queued(next));
                done@ = done@ + 1;
            }
        }
        assert(all.take(done@) =~= all);
    }

    /// Notes where the assemblers are.
    pub fn publish(&mut self, rtt: Duration)
        requires
            old(self)@.well_formed(),
        ensures
            final(self)@ == old(self)@.published(rtt),
            final(self)@.well_formed(),
    {
        self.snapshot.video = self.video.stats();
        self.snapshot.rtt = rtt;
        self.snapshot.audio.receive = self.audio.statistics();
        if self.snapshot.audio.receive.generation > self.snapshot.audio.host.generation {
            self.snapshot.audio.host.generation = self.snapshot.audio.receive.generation;
            self.snapshot.audio.host.status = AudioStatus::Active.number();
            self.snapshot.audio.host.detail = String::new();
            assert(self.snapshot.audio.host.detail@ =~= Seq::<char>::empty());
        }
    }

    /// What is seen of what a datagram completed, where diagnostics are on.
    /// `hash_duration_micros` is how long its digest takes.
    pub fn digest(
        &self,
        assembled: &Assembled,
        hash_duration_micros: u64,
        elapsed_micros: u64,
    ) -> (local: Option<LocalPayloadDigest>)
        ensures
            local == self@.seen_of(*assembled, hash_duration_micros, elapsed_micros),
    {
        match assembled {
            Assembled::Nothing => None,
            Assembled::Audio(packet) => self.payload_digest(
                MediaKind::Audio,
                packet.generation,
                packet.sequence,
                packet.payload.as_slice(),
                hash_duration_micros,
                elapsed_micros,
            ),
            Assembled::Video(frame) => self.payload_digest(
                MediaKind::Video,
                VIDEO_GENERATION,
                frame.sequence,
                frame.payload.as_slice(),
                hash_duration_micros,
                elapsed_micros,
            ),
        }
    }

    fn payload_digest(
        &self,
        kind: MediaKind,
        generation: u64,
        sequence: u64,
        payload: &[u8],
        hash_duration_micros: u64,
        elapsed_micros: u64,
    ) -> (local: Option<LocalPayloadDigest>)
        ensures
            local == self@.digest_of(
                kind,
                generation,
                sequence,
                payload@,
                hash_duration_micros,
                elapsed_micros,
            ),
    {
        match &self.payload_digests {
            Some(_) => {
                let local = local_payload_digest(
                    kind,
                    generation,
                    sequence,
                    payload,
                    hash_duration_micros,
                    elapsed_micros,
                );
                proof {
                    let hash = hash_of(payload@);
                    assert(local.sha256@ == digest::sha256_of(payload@));
                    assert(hash@ == digest::sha256_of(payload@));
                    assert forall|i: int| 0 <= i < 32 implies local.sha256[i] == hash[i] by {
                        assert(local.sha256@[i] == hash@[i]);
                    }
                    assert(local.sha256 =~= hash);
                }
                Some(local)
            },
            None => None,
        }
    }

    /// Queues what a datagram completed, and what was seen of it.
    pub fn deliver(
        &mut self,
        assembled: Assembled,
        local: Option<LocalPayloadDigest>,
        now: Instant,
        rtt: Duration,
        elapsed_micros: u64,
    )
        requires
            old(self)@.well_formed(),
        ensures
            final(self)@ == old(self)@.delivered(assembled, local, now, rtt, elapsed_micros),
            final(self)@.well_formed(),
    {
        match assembled {
            Assembled::Nothing => {},
            Assembled::Audio(packet) => self.deliver_audio(packet, now, elapsed_micros, local),
            Assembled::Video(frame) => self.deliver_video(frame, local),
        }
        self.publish(rtt);
    }

    /// Takes a datagram and queues what it completed, whose digest takes
    /// `hash_duration_micros`. The text of an error shows what the datagram is like.
    pub fn datagram(
        &mut self,
        datagram: &[u8],
        now: Instant,
        rtt: Duration,
        hash_duration_micros: u64,
        elapsed_micros: u64,
    ) -> (result: Result<(), String>)
        requires
            old(self)@.well_formed(),
        ensures
            final(self)@.well_formed(),
            ({
                let (taken, outcome) = old(self)@.assembled(datagram@, now, rtt);
                match outcome {
                    Err(error) => {
                        &&& result is Err
                        &&& result->Err_0@ == messages::spec_datagram_message(error, datagram@)
                        &&& final(self)@ == taken
                    },
                    Ok(model) => result is Ok && exists|assembled: Assembled|
                        {
                            &&& #[trigger] assembled@ == model
                            &&& final(self)@ == taken.delivered(
                                assembled,
                                taken.seen_of(assembled, hash_duration_micros, elapsed_micros),
                                now,
                                rtt,
                                elapsed_micros,
                            )
                        },
                }
            }),
    {
        let assembled = match self.assemble(datagram, now, rtt) {
            Ok(assembled) => assembled,
            Err(error) => return Err(messages::datagram_message(error, datagram)),
        };
        let local = self.digest(&assembled, hash_duration_micros, elapsed_micros);
        let ghost model = assembled@;
        assert(assembled@ == model);
        self.deliver(assembled, local, now, rtt, elapsed_micros);
        Ok(())
    }

    /// Takes a state that the host announced.
    pub fn state(&mut self, state: AudioStreamState)
        requires
            old(self)@.well_formed(),
        ensures
            final(self)@ == old(self)@.announced(state@),
            final(self)@.well_formed(),
    {
        if !self.audio_enabled || !state.valid() || state.generation
            < self.audio.statistics().generation {
            return;
        }
        self.audio.generation(state.generation);
        self.ordered_audio.generation(state.generation);
        self.snapshot.audio.host = state;
    }

    /// Does what is due by time.
    pub fn tick(&mut self, now: Instant, rtt: Duration)
        requires
            old(self)@.well_formed(),
        ensures
            final(self)@ == old(self)@.ticked(now, rtt),
            final(self)@.well_formed(),
    {
        self.audio.expire(now);
        let events = self.ordered_audio.expire(now);
        self.queue_audio(events);
        self.publish(rtt);
    }

    /// Whether something is lost that later frames depend on; that is said once.
    pub fn take_recover(&mut self) -> (recover: bool)
        ensures
            recover == old(self)@.recover,
            final(self)@ == (ReceiverModel { recover: false, ..old(self)@ }),
    {
        let recover = self.recover;
        self.recover = false;
        recover
    }
}

/// Audio is received whatever becomes of the video: a datagram of audio leaves
/// the assembly of frames and their queue as they are, and is never an error.
pub proof fn law_audio_does_not_touch_video(
    receiver: ReceiverModel,
    datagram: Seq<u8>,
    now: Instant,
    rtt: Duration,
)
    requires
        audio::is_audio(datagram),
    ensures
        receiver.assembled(datagram, now, rtt).1 is Ok,
        receiver.assembled(datagram, now, rtt).0.video == receiver.video,
        receiver.assembled(datagram, now, rtt).0.frames == receiver.frames,
        receiver.assembled(datagram, now, rtt).0.recover == receiver.recover,
{
}

/// A frame that pushes another out of the queue is never lost on the way: it is
/// the newest of the queue, and the loss of the other is noted.
pub proof fn law_a_dropped_frame_asks_for_recovery(
    receiver: ReceiverModel,
    frame: VideoFramePayload,
    local: Option<LocalPayloadDigest>,
)
    requires
        receiver.well_formed(),
        !receiver.frames.closed,
        receiver.frames.items.len() == receiver.frames.capacity,
    ensures
        receiver.with_video(frame, local).recover,
        receiver.with_video(frame, local).frames.items.last().frame == frame,
        receiver.with_video(frame, local).frames.items.len() == receiver.frames.items.len(),
{
}

/// What a datagram is taken for: audio where it starts with "RA", and dropped
/// where no audio was negotiated; video in all other cases. A loss of video asks
/// for recovery, and what asked for it before stays.
pub proof fn law_what_a_datagram_is_taken_for(
    receiver: ReceiverModel,
    datagram: Seq<u8>,
    now: Instant,
    rtt: Duration,
)
    ensures
        ({
            let (after, result) = receiver.assembled(datagram, now, rtt);
            let is_audio = datagram.len() >= 2 && datagram[0] == 82 && datagram[1] == 65;
            &&& is_audio && !receiver.audio_enabled ==> after == receiver && (result matches Ok(
                assembled,
            ) && assembled is Nothing)
            &&& is_audio && receiver.audio_enabled ==> {
                let (audio, packet) = receiver.audio.pushed(datagram, now);
                &&& after.audio == audio
                &&& after.video == receiver.video
                &&& match packet {
                    Some(packet) => result matches Ok(AssembledModel::Audio(taken)) && taken
                        == packet,
                    None => result matches Ok(assembled) && assembled is Nothing,
                }
            }
            &&& !is_audio ==> {
                let (video, outcome) = receiver.video.pushed(datagram, now, rtt);
                &&& after.video == video
                &&& after.audio == receiver.audio
                &&& match outcome {
                    Ok(assembly) => {
                        &&& after.recover <==> receiver.recover || assembly.dependency_lost
                        &&& after.snapshot.progress == assembly.progress
                        &&& match assembly.frame {
                            Some(frame) => result matches Ok(AssembledModel::Video(taken)) && taken
                                == frame,
                            None => result matches Ok(assembled) && assembled is Nothing,
                        }
                    },
                    Err(error) => result matches Err(told) && told == error && after.recover
                        == receiver.recover && after.snapshot == receiver.snapshot,
                }
            }
        }),
{
    audio::law_audio_starts_with_its_magic(datagram);
}

/// A frame that was put together goes to the end of the frames, with its hash
/// where one was taken. Where two wait, the first falls out: it is counted, and
/// recovery is asked for.
pub proof fn law_frames_wait_in_order(
    receiver: ReceiverModel,
    frame: VideoFramePayload,
    local: Option<LocalPayloadDigest>,
)
    requires
        receiver.well_formed(),
        !receiver.frames.closed,
        receiver.snapshot.audio.video_queue_drops < u64::MAX,
    ensures
        ({
            let after = receiver.with_video(frame, local);
            let full = receiver.frames.items.len() == receiver.frames.capacity;
            let fallen: int = if full {
                1
            } else {
                0
            };
            &&& after.frames.items.len() == receiver.frames.items.len() + 1 - fallen
            &&& after.frames.items.last().frame == frame
            &&& after.frames.items.last().payload_sha256 is Some <==> local is Some
            &&& local matches Some(digest) ==> after.frames.items.last().payload_sha256 == Some(
                digest.sha256,
            )
            &&& forall|i: int|
                0 <= i < after.frames.items.len() - 1 ==> #[trigger] after.frames.items[i]
                    == receiver.frames.items[i + fallen]
            &&& after.recover <==> receiver.recover || full
            &&& after.snapshot.audio.video_queue_drops == receiver.snapshot.audio.video_queue_drops
                + fallen
            &&& after.video == receiver.video
            &&& after.audio == receiver.audio
            &&& after.audio_events == receiver.audio_events
        }),
{
}

/// The queues of a new receiver: two frames, five audio events, and 4096 digests
/// where diagnostics are on. The state of the audio says whether it is waited
/// for.
pub proof fn law_a_new_receiver(
    frames_per_second: u16,
    audio_enabled: bool,
    diagnostics: bool,
    rtt: Duration,
)
    ensures
        ({
            let receiver = ReceiverModel::initial(
                frames_per_second,
                audio_enabled,
                diagnostics,
                rtt,
            );
            &&& receiver.frames.capacity == 2 && receiver.frames.items.len() == 0
            &&& receiver.audio_events.capacity == 5 && receiver.audio_events.items.len() == 0
            &&& diagnostics <==> receiver.payload_digests is Some
            &&& receiver.payload_digests matches Some(queue) ==> queue.capacity == 4_096
            &&& receiver.audio_enabled == audio_enabled
            &&& receiver.snapshot.audio.host.status == if audio_enabled {
                1i32
            } else {
                0i32
            }
            &&& receiver.snapshot.rtt == rtt
            &&& !receiver.recover
            &&& frames_per_second > 0 ==> receiver.video.frame_period.nanos * frames_per_second
                <= 1_000_000_000 < (receiver.video.frame_period.nanos + 1) * frames_per_second
            &&& frames_per_second == 0 ==> receiver.video.frame_period.nanos == 100_000_000
        }),
{
    if frames_per_second > 0 {
        let period = 1_000_000_000int / frames_per_second as int;
        assert(period * frames_per_second <= 1_000_000_000 < (period + 1) * frames_per_second) by (
        nonlinear_arith)
            requires
                frames_per_second > 0,
                period == 1_000_000_000int / frames_per_second as int,
        ;
        assert(0 <= period <= 1_000_000_000) by (nonlinear_arith)
            requires
                frames_per_second > 0,
                period == 1_000_000_000int / frames_per_second as int,
        ;
    }
}

/// What is shown: the counts of both assemblers and the round trip, and audio
/// of a newer generation than the host told of as active.
pub proof fn law_what_is_published(receiver: ReceiverModel, rtt: Duration)
    ensures
        ({
            let shown = receiver.published(rtt).snapshot;
            let generation = receiver.audio.stats.generation;
            let told = receiver.snapshot.audio.host;
            &&& shown.video == receiver.video.stats
            &&& shown.rtt == rtt
            &&& shown.audio.receive == receiver.audio.stats
            &&& shown.progress == receiver.snapshot.progress
            &&& shown.keyboard_leds == receiver.snapshot.keyboard_leds
            &&& generation <= told.generation ==> shown.audio.host == told
            &&& generation > told.generation ==> shown.audio.host.generation == generation
                && shown.audio.host.status == 2 && shown.audio.host.detail.len() == 0
                && shown.audio.host.dropped_packets == told.dropped_packets
            &&& shown.audio.video_queue_drops == receiver.snapshot.audio.video_queue_drops
            &&& shown.audio.audio_queue_drops == receiver.snapshot.audio.audio_queue_drops
            &&& receiver.published(rtt).frames == receiver.frames
            &&& receiver.published(rtt).audio_events == receiver.audio_events
        }),
{
}

/// A state of the audio that the host tells is taken where audio was negotiated,
/// it can be read and it is not of an older generation; a newer one starts the
/// audio anew.
pub proof fn law_states_of_the_audio(receiver: ReceiverModel, state: AudioStreamStateModel)
    ensures
        ({
            let after = receiver.announced(state);
            let taken = receiver.audio_enabled && is_valid_state(state) && state.generation
                >= receiver.audio.stats.generation;
            &&& !taken ==> after == receiver
            &&& taken ==> {
                &&& after.snapshot.audio.host == state
                &&& after.audio.stats.generation == state.generation
                &&& after.ordered_audio.generation >= state.generation
                &&& state.generation > receiver.audio.stats.generation ==> after.audio.partial.len()
                    == 0
                &&& state.generation > receiver.ordered_audio.generation
                    ==> after.ordered_audio.pending.len() == 0
                &&& after.video == receiver.video
                &&& after.frames == receiver.frames
            }
        }),
{
}

/// A digest that is taken is of the payload that was put together, under its
/// kind, generation and sequence. Video is of the first generation.
pub proof fn law_digests_of_what_was_put_together(
    receiver: ReceiverModel,
    assembled: Assembled,
    hash_duration_micros: u64,
    elapsed_micros: u64,
)
    ensures
        ({
            let seen = receiver.seen_of(assembled, hash_duration_micros, elapsed_micros);
            &&& assembled is Nothing || receiver.payload_digests is None <==> seen is None
            &&& seen matches Some(local) ==> {
                &&& local.hash_duration_micros == hash_duration_micros
                &&& local.assembled_at_micros == elapsed_micros
                &&& match assembled {
                    Assembled::Audio(packet) => local.kind is Audio && local.generation
                        == packet.generation && local.sequence == packet.sequence
                        && local.payload_size == packet.payload@.len() as u64 && local.sha256
                        == hash_of(packet.payload@),
                    Assembled::Video(frame) => local.kind is Video && local.generation == 1
                        && local.sequence == frame.sequence && local.payload_size
                        == frame.payload@.len() as u64 && local.sha256 == hash_of(frame.payload@),
                    Assembled::Nothing => false,
                }
            }
        }),
{
}

/// Which states of the audio are taken: those with a known status and a detail
/// of at most 256 bytes.
pub proof fn law_valid_states_of_the_audio(state: AudioStreamStateModel)
    ensures
        is_valid_state(state) <==> vstd::utf8::encode_utf8(state.detail).len() <= 256
            && AudioStatus::is_number(state.status),
{
}

/// The digest that is noted of some data is its SHA-256.
pub proof fn law_noted_digests(data: Seq<u8>, hash: [u8; 32])
    requires
        hash@ == digest::sha256_of(data),
    ensures
        hash_of(data)@ == hash@,
{
}

} // verus!
