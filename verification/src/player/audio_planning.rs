//! What an audio decoder is asked to do, packet by packet.

use crate::player::audio_ordering::AudioPlaybackEvent;
use crate::protocol::audio::{AudioPacket, PACKET_DURATION_MICROS};
use crate::time::Instant;
use vstd::prelude::*;

verus! {

/// The most packets that are concealed for one gap.
pub const MAX_CONCEALED_AUDIO_PACKETS: u64 = 4;

/// A packet on its way to the decoder.
#[derive(Clone, Debug, PartialEq)]
pub struct EncodedAudioDecodeInput {
    pub packet: AudioPacket,
    pub assembled_at: Instant,
    pub released_at: Instant,
    pub assembled_at_micros: u64,
    pub assembled_payload_sha256: Option<[u8; 32]>,
}

#[derive(Clone, Debug, PartialEq)]
pub enum AudioDecodeAction {
    Reset { generation: u64 },
    Conceal {
        generation: u64,
        sequence: u64,
        captured_at_micros: u64,
        packets: u64,
        timing: Option<(Instant, Instant, u64)>,
    },
    Decode(EncodedAudioDecodeInput),
}

#[derive(Debug)]
pub struct AudioDecodePlanner {
    generation: u64,
    expected_sequence: Option<u64>,
    failed_generation: Option<u64>,
}

/// What a planner remembers: the newest generation, the sequence that comes
/// next in it, and the generation whose decoder failed.
pub struct PlannerModel {
    pub generation: u64,
    pub expected_sequence: Option<u64>,
    pub failed_generation: Option<u64>,
}

impl View for AudioDecodePlanner {
    type V = PlannerModel;

    closed spec fn view(&self) -> PlannerModel {
        PlannerModel {
            generation: self.generation,
            expected_sequence: self.expected_sequence,
            failed_generation: self.failed_generation,
        }
    }
}

/// At most what is concealed for a gap.
pub open spec fn concealed(missing: u64) -> u64 {
    if missing < MAX_CONCEALED_AUDIO_PACKETS {
        missing
    } else {
        MAX_CONCEALED_AUDIO_PACKETS
    }
}

impl PlannerModel {
    pub open spec fn initial() -> PlannerModel {
        PlannerModel { generation: 0, expected_sequence: None, failed_generation: None }
    }

    /// The planner that has come to `generation`.
    pub open spec fn in_generation(self, generation: u64) -> PlannerModel {
        if generation <= self.generation {
            self
        } else {
            PlannerModel { generation, expected_sequence: None, failed_generation: None }
        }
    }

    /// A new generation starts with a reset.
    pub open spec fn opening(self, generation: u64) -> Seq<AudioDecodeAction> {
        if generation <= self.generation {
            Seq::empty()
        } else {
            seq![AudioDecodeAction::Reset { generation }]
        }
    }

    /// What is done about the packets between the expected one and `input`.
    pub open spec fn gap(self, input: EncodedAudioDecodeInput) -> Seq<AudioDecodeAction> {
        match self.expected_sequence {
            Some(expected) if input.packet.sequence > expected => {
                let packets = concealed((input.packet.sequence - expected) as u64);
                seq![
                    AudioDecodeAction::Reset { generation: input.packet.generation },
                    AudioDecodeAction::Conceal {
                        generation: input.packet.generation,
                        sequence: expected,
                        captured_at_micros: input.packet.captured_at_micros.saturating_sub(
                            (packets * PACKET_DURATION_MICROS) as u64,
                        ),
                        packets,
                        timing: Some(
                            (input.assembled_at, input.released_at, input.assembled_at_micros),
                        ),
                    },
                ]
            },
            _ => Seq::empty(),
        }
    }

    pub open spec fn on_packet(self, input: EncodedAudioDecodeInput) -> (
        PlannerModel,
        Seq<AudioDecodeAction>,
    ) {
        let generation = input.packet.generation;
        let sequence = input.packet.sequence;
        let next = self.in_generation(generation);
        if generation < self.generation {
            (self, Seq::empty())
        } else if next.failed_generation == Some(generation) || match next.expected_sequence {
            Some(expected) => sequence < expected,
            None => false,
        } {
            (next, self.opening(generation))
        } else {
            (
                PlannerModel { expected_sequence: sequence.checked_add(1), ..next },
                self.opening(generation) + next.gap(input) + seq![AudioDecodeAction::Decode(input)],
            )
        }
    }

    pub open spec fn on_missing(
        self,
        generation: u64,
        sequence: u64,
        captured_at_micros: u64,
        missing_packets: u64,
    ) -> (PlannerModel, Seq<AudioDecodeAction>) {
        if generation < self.generation || self.failed_generation == Some(generation) {
            (self, Seq::empty())
        } else {
            (
                PlannerModel {
                    expected_sequence: sequence.checked_add(missing_packets),
                    ..self.in_generation(generation)
                },
                seq![
                    AudioDecodeAction::Reset { generation },
                    AudioDecodeAction::Conceal {
                        generation,
                        sequence,
                        captured_at_micros,
                        packets: concealed(missing_packets),
                        timing: None,
                    },
                ],
            )
        }
    }

    pub open spec fn planned(self, event: AudioPlaybackEvent) -> (
        PlannerModel,
        Seq<AudioDecodeAction>,
    ) {
        match event {
            AudioPlaybackEvent::Packet {
                packet,
                assembled_at,
                released_at,
                assembled_at_micros,
                assembled_payload_sha256,
            } => self.on_packet(
                EncodedAudioDecodeInput {
                    packet,
                    assembled_at,
                    released_at,
                    assembled_at_micros,
                    assembled_payload_sha256,
                },
            ),
            AudioPlaybackEvent::Missing {
                generation,
                sequence,
                captured_at_micros,
                missing_packets,
            } => self.on_missing(generation, sequence, captured_at_micros, missing_packets),
        }
    }
}

impl Default for AudioDecodePlanner {
    fn default() -> (planner: Self)
        ensures
            planner@ == PlannerModel::initial(),
    {
        AudioDecodePlanner { generation: 0, expected_sequence: None, failed_generation: None }
    }
}

impl AudioDecodePlanner {
    /// What the decoder has to do for an event.
    pub fn plan(&mut self, event: AudioPlaybackEvent) -> (actions: Vec<AudioDecodeAction>)
        ensures
            (final(self)@, actions@) == old(self)@.planned(event),
    {
        match event {
            AudioPlaybackEvent::Packet {
                packet,
                assembled_at,
                released_at,
                assembled_at_micros,
                assembled_payload_sha256,
            } => self.packet(
                EncodedAudioDecodeInput {
                    packet,
                    assembled_at,
                    released_at,
                    assembled_at_micros,
                    assembled_payload_sha256,
                },
            ),
            AudioPlaybackEvent::Missing {
                generation,
                sequence,
                captured_at_micros,
                missing_packets,
            } => self.missing(generation, sequence, captured_at_micros, missing_packets),
        }
    }

    /// Nothing more is decoded of a generation whose decoder failed.
    pub fn decoder_failed(&mut self, generation: u64)
        ensures
            final(self)@ == if generation == old(self)@.generation {
                PlannerModel { failed_generation: Some(generation), ..old(self)@ }
            } else {
                old(self)@
            },
    {
        if generation == self.generation {
            self.failed_generation = Some(generation);
        }
    }

    fn packet(&mut self, input: EncodedAudioDecodeInput) -> (actions: Vec<AudioDecodeAction>)
        ensures
            (final(self)@, actions@) == old(self)@.on_packet(input),
    {
        let generation = input.packet.generation;
        let sequence = input.packet.sequence;
        if generation < self.generation {
            let actions: Vec<AudioDecodeAction> = Vec::new();
            assert(actions@ =~= Seq::<AudioDecodeAction>::empty());
            return actions;
        }
        let mut actions = self.prepare_generation(generation);
        let failed = match self.failed_generation {
            Some(failed) => failed == generation,
            None => false,
        };
        let late = match self.expected_sequence {
            Some(expected) => sequence < expected,
            None => false,
        };
        if failed || late {
            return actions;
        }
        let ghost opening = actions@;
        let ghost next = self@;
        match self.expected_sequence {
            Some(expected) => {
                if sequence > expected {
                    let packets = bounded_concealment(sequence - expected);
                    actions.push(AudioDecodeAction::Reset { generation });
                    actions.push(
                        AudioDecodeAction::Conceal {
                            generation,
                            sequence: expected,
                            captured_at_micros: input.packet.captured_at_micros.saturating_sub(
                                packets * PACKET_DURATION_MICROS,
                            ),
                            packets,
                            timing: Some(
                                (input.assembled_at, input.released_at, input.assembled_at_micros),
                            ),
                        },
                    );
                }
            },
            None => {},
        }
        assert(actions@ =~= opening + next.gap(input));
        self.expected_sequence = sequence.checked_add(1);
        actions.push(AudioDecodeAction::Decode(input));
        assert(actions@ =~= opening + next.gap(input) + seq![AudioDecodeAction::Decode(input)]);
        actions
    }

    fn missing(
        &mut self,
        generation: u64,
        sequence: u64,
        captured_at_micros: u64,
        missing_packets: u64,
    ) -> (actions: Vec<AudioDecodeAction>)
        ensures
            (final(self)@, actions@) == old(self)@.on_missing(
                generation,
                sequence,
                captured_at_micros,
                missing_packets,
            ),
    {
        let failed = match self.failed_generation {
            Some(failed) => failed == generation,
            None => false,
        };
        if generation < self.generation || failed {
            let actions: Vec<AudioDecodeAction> = Vec::new();
            assert(actions@ =~= Seq::<AudioDecodeAction>::empty());
            return actions;
        }
        let mut actions = self.prepare_generation(generation);
        if actions.len() == 0 {
            actions.push(AudioDecodeAction::Reset { generation });
        }
        actions.push(
            AudioDecodeAction::Conceal {
                generation,
                sequence,
                captured_at_micros,
                packets: bounded_concealment(missing_packets),
                timing: None,
            },
        );
        self.expected_sequence = sequence.checked_add(missing_packets);
        assert(actions@ =~= old(self)@.on_missing(
            generation,
            sequence,
            captured_at_micros,
            missing_packets,
        ).1);
        actions
    }

    fn prepare_generation(&mut self, generation: u64) -> (actions: Vec<AudioDecodeAction>)
        ensures
            final(self)@ == old(self)@.in_generation(generation),
            actions@ == old(self)@.opening(generation),
    {
        let mut actions: Vec<AudioDecodeAction> = Vec::new();
        if generation > self.generation {
            self.generation = generation;
            self.expected_sequence = None;
            self.failed_generation = None;
            actions.push(AudioDecodeAction::Reset { generation });
        }
        assert(actions@ =~= old(self)@.opening(generation));
        actions
    }
}

fn bounded_concealment(missing: u64) -> (packets: u64)
    ensures
        packets == concealed(missing),
{
    if missing < MAX_CONCEALED_AUDIO_PACKETS {
        missing
    } else {
        MAX_CONCEALED_AUDIO_PACKETS
    }
}

/// The generation that an event belongs to.
pub open spec fn event_generation(event: AudioPlaybackEvent) -> u64 {
    match event {
        AudioPlaybackEvent::Packet { packet, .. } => packet.generation,
        AudioPlaybackEvent::Missing { generation, .. } => generation,
    }
}

/// Nothing is done for an event of a generation that has passed, nor for one of
/// the generation whose decoder failed.
pub proof fn law_stale_generations_are_discarded(planner: PlannerModel, event: AudioPlaybackEvent)
    requires
        event_generation(event) < planner.generation || (event_generation(event)
            == planner.generation && planner.failed_generation == Some(planner.generation)),
    ensures
        planner.planned(event).0 == planner,
        planner.planned(event).1 == Seq::<AudioDecodeAction>::empty(),
{
    assert(planner.planned(event).1 =~= Seq::<AudioDecodeAction>::empty());
}

/// Every action is for the generation of the event, and no gap is concealed with
/// more than the allowed packets.
pub proof fn law_concealment_is_bounded(planner: PlannerModel, event: AudioPlaybackEvent)
    ensures
        forall|i: int|
            0 <= i < planner.planned(event).1.len() ==> match #[trigger] planner.planned(event).1[i] {
                AudioDecodeAction::Reset { generation } => generation == event_generation(event),
                AudioDecodeAction::Conceal { generation, packets, .. } => generation
                    == event_generation(event) && packets <= MAX_CONCEALED_AUDIO_PACKETS,
                AudioDecodeAction::Decode(input) => input.packet.generation == event_generation(
                    event,
                ),
            },
{
}

/// What is done with a packet that is in order: a new generation starts the
/// decoder anew, a gap starts it anew and is concealed, and the packet itself is
/// decoded, last and unchanged. The next packet is expected after it.
pub proof fn law_packets_are_decoded(planner: PlannerModel, input: EncodedAudioDecodeInput)
    requires
        input.packet.generation >= planner.generation,
        input.packet.generation == planner.generation ==> planner.failed_generation != Some(
            planner.generation,
        ),
        input.packet.generation == planner.generation ==> (
        planner.expected_sequence matches Some(expected) ==> expected <= input.packet.sequence),
        input.packet.sequence < u64::MAX,
    ensures
        ({
            let (next, actions) = planner.on_packet(input);
            let is_new = input.packet.generation > planner.generation;
            let skipped = if is_new {
                0
            } else {
                match planner.expected_sequence {
                    Some(expected) => input.packet.sequence - expected,
                    None => 0,
                }
            };
            &&& next.generation == input.packet.generation
            &&& next.expected_sequence == Some((input.packet.sequence + 1) as u64)
            &&& actions.len() > 0
            &&& actions.last() == AudioDecodeAction::Decode(input)
            &&& is_new ==> actions.len() == 2 && actions[0] == (AudioDecodeAction::Reset {
                generation: input.packet.generation,
            })
            &&& !is_new && skipped == 0 ==> actions.len() == 1
            &&& !is_new && skipped > 0 ==> {
                &&& actions.len() == 3
                &&& actions[0] == (AudioDecodeAction::Reset {
                    generation: input.packet.generation,
                })
                &&& actions[1] matches AudioDecodeAction::Conceal {
                    generation,
                    sequence,
                    captured_at_micros,
                    packets,
                    timing,
                }
                &&& generation == input.packet.generation
                &&& planner.expected_sequence == Some(sequence)
                &&& packets == if skipped < 4 {
                    skipped
                } else {
                    4
                }
                &&& 10_000 * packets <= input.packet.captured_at_micros ==> captured_at_micros
                    == input.packet.captured_at_micros - 10_000 * packets
                &&& timing == Some(
                    (input.assembled_at, input.released_at, input.assembled_at_micros),
                )
            }
        }),
{
    assert(Seq::<AudioDecodeAction>::empty() + Seq::<AudioDecodeAction>::empty() =~= Seq::<
        AudioDecodeAction,
    >::empty());
}

/// A packet that comes when a later one was expected is not decoded.
pub proof fn law_passed_packets_are_not_decoded(
    planner: PlannerModel,
    input: EncodedAudioDecodeInput,
)
    requires
        input.packet.generation == planner.generation,
        planner.expected_sequence matches Some(expected) && input.packet.sequence < expected,
    ensures
        planner.on_packet(input).0 == planner,
        planner.on_packet(input).1.len() == 0,
{
}

/// What is done for packets that are missing: the decoder starts anew, and at
/// most four of them are concealed from the first on, with their time. The packet
/// after them is expected next.
pub proof fn law_missing_packets_are_concealed(
    planner: PlannerModel,
    generation: u64,
    sequence: u64,
    captured_at_micros: u64,
    missing_packets: u64,
)
    requires
        generation >= planner.generation,
        planner.failed_generation != Some(generation),
        sequence + missing_packets <= u64::MAX,
    ensures
        ({
            let (next, actions) = planner.on_missing(
                generation,
                sequence,
                captured_at_micros,
                missing_packets,
            );
            &&& next.generation == generation
            &&& next.expected_sequence == Some((sequence + missing_packets) as u64)
            &&& actions.len() == 2
            &&& actions[0] == (AudioDecodeAction::Reset { generation })
            &&& actions[1] matches AudioDecodeAction::Conceal {
                generation: of,
                sequence: from,
                captured_at_micros: at,
                packets,
                timing,
            }
            &&& of == generation
            &&& from == sequence
            &&& at == captured_at_micros
            &&& packets == if missing_packets < 4 {
                missing_packets
            } else {
                4
            }
            &&& timing is None
        }),
{
}

} // verus!
