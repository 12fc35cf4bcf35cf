//! What a stream's audio decoder is asked to do, and what its failures mean.

use crate::player::audio_ordering::AudioPlaybackEvent;
use crate::player::audio_planning;
use crate::player::audio_planning::{
    AudioDecodeAction, EncodedAudioDecodeInput, MAX_CONCEALED_AUDIO_PACKETS,
};
use crate::player::audio_playback::{DecodedAudioEvent, DecodedAudioSamples};
use crate::player::frame_decoding;
use crate::player::frame_decoding::decoder_input_matches;
use crate::protocol::audio::PACKET_DURATION_MICROS;
use crate::time::{Duration, Instant};
use vstd::prelude::*;

verus! {

/// The samples of all channels in one packet.
pub const SAMPLES_PER_PACKET: usize = 960;

/// Where a stream's decoder is. The sequence that is expected moves on once a
/// packet is decoded.
#[derive(Clone, Copy, Debug, PartialEq, Eq, Structural)]
pub struct StreamAudioDecoder {
    pub generation: u64,
    pub expected: Option<u64>,
    pub failed_generation: Option<u64>,
}

impl StreamAudioDecoder {
    pub open spec fn initial() -> StreamAudioDecoder {
        StreamAudioDecoder { generation: 0, expected: None, failed_generation: None }
    }

    pub open spec fn in_generation(self, generation: u64) -> StreamAudioDecoder {
        if generation <= self.generation {
            self
        } else {
            StreamAudioDecoder { generation, expected: None, failed_generation: None }
        }
    }

    /// A new generation starts with a reset.
    pub open spec fn opening(self, generation: u64) -> Seq<AudioDecodeAction> {
        if generation <= self.generation {
            Seq::empty()
        } else {
            seq![AudioDecodeAction::Reset { generation }]
        }
    }

    pub open spec fn skips(self, input: EncodedAudioDecodeInput) -> bool {
        self.failed_generation == Some(input.packet.generation) || match self.expected {
            Some(expected) => input.packet.sequence < expected,
            None => false,
        }
    }

    /// What is done about the packets between the expected one and `input`.
    pub open spec fn gap(self, input: EncodedAudioDecodeInput) -> Seq<AudioDecodeAction> {
        match self.expected {
            Some(expected) if input.packet.sequence > expected => {
                let packets = audio_planning::concealed(
                    (input.packet.sequence - expected) as u64,
                );
                seq![
                    AudioDecodeAction::Reset { generation: input.packet.generation },
                    AudioDecodeAction::Conceal {
                        generation: input.packet.generation,
                        sequence: expected,
                        captured_at_micros: input.packet.captured_at_micros.saturating_sub(
                            (packets * PACKET_DURATION_MICROS) as u64,
                        ),
                        packets,
                        timing: Some(
                            (input.assembled_at, input.released_at, input.assembled_at_micros),
                        ),
                    },
                ]
            },
            _ => Seq::empty(),
        }
    }

    pub open spec fn on_packet(self, input: EncodedAudioDecodeInput) -> (
        StreamAudioDecoder,
        Seq<AudioDecodeAction>,
    ) {
        let generation = input.packet.generation;
        let next = self.in_generation(generation);
        if next.skips(input) {
            (next, self.opening(generation))
        } else {
            (
                next,
                self.opening(generation) + next.gap(input) + seq![AudioDecodeAction::Decode(input)],
            )
        }
    }

    pub open spec fn on_missing(
        self,
        generation: u64,
        sequence: u64,
        captured_at_micros: u64,
        missing_packets: u64,
    ) -> (StreamAudioDecoder, Seq<AudioDecodeAction>) {
        (
            StreamAudioDecoder {
                expected: sequence.checked_add(missing_packets),
                ..self.in_generation(generation)
            },
            seq![
                AudioDecodeAction::Reset { generation },
                AudioDecodeAction::Conceal {
                    generation,
                    sequence,
                    captured_at_micros,
                    packets: audio_planning::concealed(missing_packets),
                    timing: None,
                },
            ],
        )
    }

    pub open spec fn after(self, event: AudioPlaybackEvent) -> (
        StreamAudioDecoder,
        Seq<AudioDecodeAction>,
    ) {
        match event {
            AudioPlaybackEvent::Packet {
                packet,
                assembled_at,
                released_at,
                assembled_at_micros,
                assembled_payload_sha256,
            } => self.on_packet(
                EncodedAudioDecodeInput {
                    packet,
                    assembled_at,
                    released_at,
                    assembled_at_micros,
                    assembled_payload_sha256,
                },
            ),
            AudioPlaybackEvent::Missing {
                generation,
                sequence,
                captured_at_micros,
                missing_packets,
            } => self.on_missing(generation, sequence, captured_at_micros, missing_packets),
        }
    }
}

impl Default for StreamAudioDecoder {
    fn default() -> (decoder: Self)
        ensures
            decoder == StreamAudioDecoder::initial(),
    {
        StreamAudioDecoder { generation: 0, expected: None, failed_generation: None }
    }
}

fn bounded(missing: u64) -> (packets: u64)
    ensures
        packets == audio_planning::concealed(missing),
{
    if missing < MAX_CONCEALED_AUDIO_PACKETS {
        missing
    } else {
        MAX_CONCEALED_AUDIO_PACKETS
    }
}

impl StreamAudioDecoder {
    /// What the decoder has to do for an event.
    pub fn event(&mut self, event: AudioPlaybackEvent) -> (actions: Vec<AudioDecodeAction>)
        ensures
            (*final(self), actions@) == old(self).after(event),
    {
        match event {
            AudioPlaybackEvent::Packet {
                packet,
                assembled_at,
                released_at,
                assembled_at_micros,
                assembled_payload_sha256,
            } => self.packet(
                EncodedAudioDecodeInput {
                    packet,
                    assembled_at,
                    released_at,
                    assembled_at_micros,
                    assembled_payload_sha256,
                },
            ),
            AudioPlaybackEvent::Missing {
                generation,
                sequence,
                captured_at_micros,
                missing_packets,
            } => {
                let mut actions = self.prepare_generation(generation);
                if actions.len() == 0 {
                    actions.push(AudioDecodeAction::Reset { generation });
                }
                actions.push(
                    AudioDecodeAction::Conceal {
                        generation,
                        sequence,
                        captured_at_micros,
                        packets: bounded(missing_packets),
                        timing: None,
                    },
                );
                self.expected = sequence.checked_add(missing_packets);
                assert(actions@ =~= old(self).after(event).1);
                actions
            },
        }
    }

    fn packet(&mut self, input: EncodedAudioDecodeInput) -> (actions: Vec<AudioDecodeAction>)
        ensures
            (*final(self), actions@) == old(self).on_packet(input),
    {
        let generation = input.packet.generation;
        let sequence = input.packet.sequence;
        let mut actions = self.prepare_generation(generation);
        let failed = match self.failed_generation {
            Some(failed) => failed == generation,
            None => false,
        };
        let late = match self.expected {
            Some(expected) => sequence < expected,
            None => false,
        };
        if failed || late {
            return actions;
        }
        let ghost opening = actions@;
        let ghost next = *self;
        match self.expected {
            Some(expected) => {
                if sequence > expected {
                    let packets = bounded(sequence - expected);
                    actions.push(AudioDecodeAction::Reset { generation });
                    actions.push(
                        AudioDecodeAction::Conceal {
                            generation,
                            sequence: expected,
                            captured_at_micros: input.packet.captured_at_micros.saturating_sub(
                                packets * PACKET_DURATION_MICROS,
                            ),
                            packets,
                            timing: Some(
                                (input.assembled_at, input.released_at, input.assembled_at_micros),
                            ),
                        },
                    );
                }
            },
            None => {},
        }
        assert(actions@ =~= opening + next.gap(input));
        actions.push(AudioDecodeAction::Decode(input));
        assert(actions@ =~= opening + next.gap(input) + seq![AudioDecodeAction::Decode(input)]);
        actions
    }

    fn prepare_generation(&mut self, generation: u64) -> (actions: Vec<AudioDecodeAction>)
        ensures
            *final(self) == old(self).in_generation(generation),
            actions@ == old(self).opening(generation),
    {
        let mut actions: Vec<AudioDecodeAction> = Vec::new();
        if generation > self.generation {
            self.generation = generation;
            self.expected = None;
            self.failed_generation = None;
            actions.push(AudioDecodeAction::Reset { generation });
        }
        assert(actions@ =~= old(self).opening(generation));
        actions
    }

    /// A packet is decoded.
    pub fn decoded(&mut self, sequence: u64)
        ensures
            *final(self) == (StreamAudioDecoder {
                expected: sequence.checked_add(1),
                ..*old(self)
            }),
    {
        self.expected = sequence.checked_add(1);
    }

    /// A packet of `generation` could not be decoded: the rest of the generation
    /// is left alone.
    pub fn failed(&mut self, generation: u64)
        ensures
            *final(self) == (StreamAudioDecoder {
                failed_generation: Some(generation),
                ..*old(self)
            }),
    {
        self.failed_generation = Some(generation);
    }
}

/// What is known of a packet that is being decoded, once its payload is with the
/// decoder.
#[derive(Clone, Copy, Debug, PartialEq, Eq, Structural)]
pub struct PacketInDecoding {
    pub generation: u64,
    pub sequence: u64,
    pub captured_at_micros: u64,
    pub assembled_at: Instant,
    pub released_at: Instant,
    pub assembled_at_micros: u64,
    pub encoded_bytes: usize,
    pub hash_duration: Duration,
    pub matched: Option<bool>,
}

/// Notes a packet before its payload goes to the decoder. `hash_duration` is how
/// long the comparison of the digests takes, where there is one.
pub fn begin_decoding(input: &EncodedAudioDecodeInput, hash_duration: Duration) -> (packet:
    PacketInDecoding)
    ensures
        packet == (PacketInDecoding {
            generation: input.packet.generation,
            sequence: input.packet.sequence,
            captured_at_micros: input.packet.captured_at_micros,
            assembled_at: input.assembled_at,
            released_at: input.released_at,
            assembled_at_micros: input.assembled_at_micros,
            encoded_bytes: input.packet.payload@.len() as usize,
            hash_duration: if input.assembled_payload_sha256 is Some {
                hash_duration
            } else {
                Duration { nanos: 0 }
            },
            matched: frame_decoding::match_of(
                input.assembled_payload_sha256,
                input.packet.payload@,
            ),
        }),
{
    PacketInDecoding {
        generation: input.packet.generation,
        sequence: input.packet.sequence,
        captured_at_micros: input.packet.captured_at_micros,
        assembled_at: input.assembled_at,
        released_at: input.released_at,
        assembled_at_micros: input.assembled_at_micros,
        encoded_bytes: input.packet.payload.len(),
        hash_duration: if input.assembled_payload_sha256.is_some() {
            hash_duration
        } else {
            Duration::from_nanos(0)
        },
        matched: decoder_input_matches(
            input.assembled_payload_sha256,
            input.packet.payload.as_slice(),
        ),
    }
}

/// A time that only diagnostics ask for.
pub open spec fn measured(diagnostics: bool, from: Instant, to: Instant) -> Option<Duration> {
    if diagnostics {
        Some(to.spec_since(from))
    } else {
        None
    }
}

fn measure(diagnostics: bool, from: Instant, to: Instant) -> (duration: Option<Duration>)
    ensures
        duration == measured(diagnostics, from, to),
{
    if diagnostics {
        Some(to.saturating_duration_since(from))
    } else {
        None
    }
}

impl StreamAudioDecoder {
    /// The samples of a decoded packet.
    pub open spec fn samples_of<S>(
        diagnostics: bool,
        packet: PacketInDecoding,
        decode_started: Instant,
        decode_finished: Instant,
        samples: S,
    ) -> DecodedAudioSamples<S> {
        DecodedAudioSamples {
            generation: packet.generation,
            sequence: packet.sequence,
            diagnostics,
            assembled_at: packet.assembled_at,
            assembled_at_micros: packet.assembled_at_micros,
            decoded_at: decode_finished,
            ordered_playout_duration: measured(
                diagnostics,
                packet.assembled_at,
                packet.released_at,
            ),
            decoder_queue_duration: measured(diagnostics, packet.released_at, decode_started),
            decode_duration: decode_finished.spec_since(decode_started),
            encoded_bytes: packet.encoded_bytes,
            concealed_packets: 0,
            decoder_input_hash_duration: packet.hash_duration,
            assembly_to_decoder_matched: packet.matched,
            captured_at_micros: packet.captured_at_micros,
            samples,
        }
    }

    /// Takes what the decoder made of a packet: its samples, or why it failed,
    /// which ends its generation.
    pub fn finish<S>(
        &mut self,
        diagnostics: bool,
        packet: PacketInDecoding,
        decode_started: Instant,
        decode_finished: Instant,
        outcome: Result<S, String>,
    ) -> (event: DecodedAudioEvent<S>)
        ensures
            match outcome {
                Ok(samples) => {
                    &&& event == DecodedAudioEvent::Samples(
                        Self::samples_of(
                            diagnostics,
                            packet,
                            decode_started,
                            decode_finished,
                            samples,
                        ),
                    )
                    &&& *final(self) == (StreamAudioDecoder {
                        expected: packet.sequence.checked_add(1),
                        ..*old(self)
                    })
                },
                Err(detail) => {
                    &&& event == DecodedAudioEvent::<S>::Failed {
                        generation: packet.generation,
                        detail,
                    }
                    &&& *final(self) == (StreamAudioDecoder {
                        failed_generation: Some(packet.generation),
                        ..*old(self)
                    })
                },
            },
    {
        match outcome {
            Ok(samples) => {
                self.decoded(packet.sequence);
                DecodedAudioEvent::Samples(
                    DecodedAudioSamples {
                        generation: packet.generation,
                        sequence: packet.sequence,
                        diagnostics,
                        assembled_at: packet.assembled_at,
                        assembled_at_micros: packet.assembled_at_micros,
                        decoded_at: decode_finished,
                        ordered_playout_duration: measure(
                            diagnostics,
                            packet.assembled_at,
                            packet.released_at,
                        ),
                        decoder_queue_duration: measure(
                            diagnostics,
                            packet.released_at,
                            decode_started,
                        ),
                        decode_duration: decode_finished.saturating_duration_since(decode_started),
                        encoded_bytes: packet.encoded_bytes,
                        concealed_packets: 0,
                        decoder_input_hash_duration: packet.hash_duration,
                        assembly_to_decoder_matched: packet.matched,
                        captured_at_micros: packet.captured_at_micros,
                        samples,
                    },
                )
            },
            Err(detail) => {
                self.failed(packet.generation);
                DecodedAudioEvent::Failed { generation: packet.generation, detail }
            },
        }
    }
}

/// The silence that stands for lost packets. Where they were found missing by a
/// packet after them, its times are theirs.
pub fn conceal<S>(
    diagnostics: bool,
    generation: u64,
    sequence: u64,
    captured_at_micros: u64,
    packets: u64,
    timing: Option<(Instant, Instant, u64)>,
    now: Instant,
    silence: S,
) -> (samples: DecodedAudioSamples<S>)
    ensures
        samples == (DecodedAudioSamples {
            generation,
            sequence,
            diagnostics,
            assembled_at: match timing {
                Some((assembled_at, _, _)) => assembled_at,
                None => now,
            },
            assembled_at_micros: match timing {
                Some((_, _, assembled_at_micros)) => assembled_at_micros,
                None => 0,
            },
            decoded_at: now,
            ordered_playout_duration: match timing {
                Some((assembled_at, released_at, _)) => measured(
                    diagnostics,
                    assembled_at,
                    released_at,
                ),
                None => None,
            },
            decoder_queue_duration: None,
            decode_duration: Duration { nanos: 0 },
            encoded_bytes: 0,
            concealed_packets: packets,
            decoder_input_hash_duration: Duration { nanos: 0 },
            assembly_to_decoder_matched: None,
            captured_at_micros,
            samples: silence,
        }),
{
    let (assembled_at, ordered_playout_duration, assembled_at_micros): (
        Instant,
        Option<Duration>,
        u64,
    ) = match timing {
        Some((assembled_at, released_at, micros)) => (
            assembled_at,
            measure(diagnostics, assembled_at, released_at),
            micros,
        ),
        None => (now, None, 0),
    };
    DecodedAudioSamples {
        generation,
        sequence,
        diagnostics,
        assembled_at,
        assembled_at_micros,
        decoded_at: now,
        ordered_playout_duration,
        decoder_queue_duration: None,
        decode_duration: Duration::from_nanos(0),
        encoded_bytes: 0,
        concealed_packets: packets,
        decoder_input_hash_duration: Duration::from_nanos(0),
        assembly_to_decoder_matched: None,
        captured_at_micros,
        samples: silence,
    }
}

/// How many samples of silence stand for concealed packets.
pub fn silence_samples(packets: u64) -> (samples: usize)
    requires
        packets <= MAX_CONCEALED_AUDIO_PACKETS,
    ensures
        samples == packets * SAMPLES_PER_PACKET,
{
    packets as usize * SAMPLES_PER_PACKET
}

/// A generation whose decoder failed gives nothing more to decode, until another
/// begins.
pub proof fn law_failure_is_contained(decoder: StreamAudioDecoder, input: EncodedAudioDecodeInput)
    requires
        decoder.failed_generation == Some(decoder.generation),
        input.packet.generation == decoder.generation,
    ensures
        decoder.on_packet(input) == (decoder, Seq::<AudioDecodeAction>::empty()),
{
    assert(decoder.on_packet(input).1 =~= Seq::<AudioDecodeAction>::empty());
}

/// What is done with a packet: a new generation starts the decoder anew, a gap
/// starts it anew and is concealed, and the packet itself is decoded, last and
/// unchanged. One that was passed, or of a generation that failed, is not.
pub proof fn law_packets_of_a_stream_are_decoded(
    decoder: StreamAudioDecoder,
    input: EncodedAudioDecodeInput,
)
    requires
        input.packet.generation >= decoder.generation,
    ensures
        ({
            let (next, actions) = decoder.on_packet(input);
            let is_new = input.packet.generation > decoder.generation;
            let passed = !is_new && (decoder.failed_generation == Some(decoder.generation) || (
            decoder.expected matches Some(expected) && input.packet.sequence < expected));
            let skipped = match decoder.expected {
                Some(expected) if !is_new => input.packet.sequence - expected,
                _ => 0,
            };
            &&& next.generation == input.packet.generation
            &&& passed ==> actions.len() == 0 && next == decoder
            &&& !passed ==> actions.len() > 0 && actions.last() == AudioDecodeAction::Decode(input)
            &&& is_new ==> actions.len() == 2 && actions[0] == (AudioDecodeAction::Reset {
                generation: input.packet.generation,
            }) && next.expected is None && next.failed_generation is None
            &&& !is_new && !passed && skipped <= 0 ==> actions.len() == 1
            &&& !is_new && !passed && skipped > 0 ==> {
                &&& actions.len() == 3
                &&& actions[0] == (AudioDecodeAction::Reset {
                    generation: input.packet.generation,
                })
                &&& actions[1] matches AudioDecodeAction::Conceal {
                    generation,
                    sequence,
                    captured_at_micros,
                    packets,
                    timing,
                }
                &&& generation == input.packet.generation
                &&& decoder.expected == Some(sequence)
                &&& packets == if skipped < 4 {
                    skipped
                } else {
                    4
                }
                &&& 10_000 * packets <= input.packet.captured_at_micros ==> captured_at_micros
                    == input.packet.captured_at_micros - 10_000 * packets
                &&& timing == Some(
                    (input.assembled_at, input.released_at, input.assembled_at_micros),
                )
            }
        }),
{
    assert(Seq::<AudioDecodeAction>::empty() + Seq::<AudioDecodeAction>::empty() =~= Seq::<
        AudioDecodeAction,
    >::empty());
}

/// What is told of a decoded packet: what the packet told, and the times that
/// it took, those of waiting only where diagnostics are on.
pub proof fn law_decoded_packets_tell_their_times<S>(
    diagnostics: bool,
    packet: PacketInDecoding,
    decode_started: Instant,
    decode_finished: Instant,
    samples: S,
)
    requires
        packet.assembled_at.nanos <= packet.released_at.nanos,
        packet.released_at.nanos <= decode_started.nanos,
        decode_started.nanos <= decode_finished.nanos,
    ensures
        ({
            let told = StreamAudioDecoder::samples_of(
                diagnostics,
                packet,
                decode_started,
                decode_finished,
                samples,
            );
            &&& told.generation == packet.generation
            &&& told.sequence == packet.sequence
            &&& told.captured_at_micros == packet.captured_at_micros
            &&& told.assembled_at == packet.assembled_at
            &&& told.assembled_at_micros == packet.assembled_at_micros
            &&& told.encoded_bytes == packet.encoded_bytes
            &&& told.diagnostics == diagnostics
            &&& told.decoded_at == decode_finished
            &&& told.decode_duration.nanos == decode_finished.nanos - decode_started.nanos
            &&& told.concealed_packets == 0
            &&& told.samples == samples
            &&& diagnostics ==> (told.ordered_playout_duration matches Some(waited) && waited.nanos
                == packet.released_at.nanos - packet.assembled_at.nanos)
            &&& diagnostics ==> (told.decoder_queue_duration matches Some(queued) && queued.nanos
                == decode_started.nanos - packet.released_at.nanos)
            &&& !diagnostics ==> told.ordered_playout_duration is None
                && told.decoder_queue_duration is None
        }),
{
}

} // verus!
