//! Assembly of audio packets from their datagrams, four packets at a time.

use crate::bytes::same;
use crate::protocol::audio::{AudioPacket, AudioPacketModel, Header};
use crate::protocol::audio::HEADER_SIZE;
use crate::time::{Duration, Instant};
use std::collections::{BTreeMap, BTreeSet};
use vstd::prelude::*;

verus! {

/// How long the fragments of a packet are waited for: 40 ms.
pub const AUDIO_WAIT_NANOS: u128 = 40_000_000;

/// Packets that are put together at the same time, and sequences that are
/// looked back on, at most.
pub const AUDIO_QUEUE_PACKETS: usize = 4;

/// How long the fragments of a packet are waited for.
pub fn audio_wait() -> (wait: Duration)
    ensures
        wait == (Duration { nanos: AUDIO_WAIT_NANOS }),
{
    Duration { nanos: AUDIO_WAIT_NANOS }
}

/// Counts over the life of an assembler. Each stops at the greatest integer.
#[derive(Clone, Copy, Debug, PartialEq, Eq, Structural)]
pub struct AudioReceiveStatistics {
    pub generation: u64,
    pub received_fragments: u64,
    pub completed_packets: u64,
    pub payload_bytes: u64,
    pub expired_packets: u64,
    pub overflow_packets: u64,
    pub late_fragments: u64,
    pub duplicate_fragments: u64,
    pub malformed_fragments: u64,
    pub missing_packets: u64,
}

impl AudioReceiveStatistics {
    pub open spec fn zero() -> AudioReceiveStatistics {
        AudioReceiveStatistics {
            generation: 0,
            received_fragments: 0,
            completed_packets: 0,
            payload_bytes: 0,
            expired_packets: 0,
            overflow_packets: 0,
            late_fragments: 0,
            duplicate_fragments: 0,
            malformed_fragments: 0,
            missing_packets: 0,
        }
    }
}

impl Default for AudioReceiveStatistics {
    fn default() -> (statistics: Self)
        ensures
            statistics == AudioReceiveStatistics::zero(),
    {
        AudioReceiveStatistics {
            generation: 0,
            received_fragments: 0,
            completed_packets: 0,
            payload_bytes: 0,
            expired_packets: 0,
            overflow_packets: 0,
            late_fragments: 0,
            duplicate_fragments: 0,
            malformed_fragments: 0,
            missing_packets: 0,
        }
    }
}

/// A packet of which some fragments have come.
struct Partial {
    header: Header,
    started: Instant,
    pieces: Vec<Option<(usize, usize)>>,
    data: Vec<u8>,
}

/// The contents of a partial packet: for each fragment that has come where it
/// stands and how long it is, and the bytes.
#[verifier::ext_equal]
pub struct PartialModel {
    pub header: Header,
    pub started: Instant,
    pub pieces: Seq<Option<(usize, usize)>>,
    pub data: Seq<u8>,
}

impl Partial {
    spec fn model(self) -> PartialModel {
        PartialModel {
            header: self.header,
            started: self.started,
            pieces: self.pieces@,
            data: self.data@,
        }
    }
}

/// Two headers tell the same of their packet.
pub open spec fn same_packet(left: Header, right: Header) -> bool {
    &&& left.captured_at_micros == right.captured_at_micros
    &&& left.packet_size == right.packet_size
    &&& left.fragment_count == right.fragment_count
    &&& left.decoded_samples == right.decoded_samples
    &&& left.skip_start_samples == right.skip_start_samples
    &&& left.skip_end_samples == right.skip_end_samples
}

/// A piece covers some byte of `offset..end`.
pub open spec fn overlaps(piece: Option<(usize, usize)>, offset: int, end: int) -> bool {
    piece matches Some((start, length)) && offset < start + length && start < end
}

pub open spec fn any_overlap(
    pieces: Seq<Option<(usize, usize)>>,
    offset: int,
    end: int,
) -> bool {
    exists|i: int| 0 <= i < pieces.len() && overlaps(#[trigger] pieces[i], offset, end)
}

pub open spec fn all_there(pieces: Seq<Option<(usize, usize)>>) -> bool {
    forall|i: int| 0 <= i < pieces.len() ==> (#[trigger] pieces[i]) is Some
}

/// The pieces follow one another from the start: the number of bytes they cover.
pub open spec fn gapless(pieces: Seq<Option<(usize, usize)>>) -> Option<nat>
    decreases pieces.len(),
{
    if pieces.len() == 0 {
        Some(0)
    } else {
        match gapless(pieces.drop_last()) {
            Some(covered) => match pieces.last() {
                Some((offset, length)) => if offset == covered {
                    Some((covered + length) as nat)
                } else {
                    None
                },
                None => None,
            },
            None => None,
        }
    }
}

/// `payload` over the bytes of `data` from `offset` on.
pub open spec fn overlaid(data: Seq<u8>, offset: int, payload: Seq<u8>) -> Seq<u8> {
    Seq::new(
        data.len(),
        |i: int|
            if offset <= i < offset + payload.len() {
                payload[i - offset]
            } else {
                data[i]
            },
    )
}

impl PartialModel {
    pub open spec fn well_formed(self) -> bool {
        &&& self.header.well_formed()
        &&& self.pieces.len() == self.header.fragment_count
        &&& self.data.len() == self.header.packet_size
        &&& forall|i: int|
            0 <= i < self.pieces.len() ==> (#[trigger] self.pieces[i] matches Some((start, length))
                ==> start + length <= self.header.packet_size)
    }

    pub open spec fn opened(header: Header, now: Instant) -> PartialModel {
        PartialModel {
            header,
            started: now,
            pieces: Seq::new(header.fragment_count as nat, |i: int| None),
            data: Seq::new(header.packet_size as nat, |i: int| 0u8),
        }
    }

    pub open spec fn is_over(self, now: Instant) -> bool {
        now.spec_since(self.started).nanos >= AUDIO_WAIT_NANOS
    }
}

/// The state of an assembler: the partial packets in the order of their
/// sequences, the sequences that are over with whether they were completed,
/// and the sequences in the window of which nothing has come.
#[verifier::ext_equal]
pub struct AudioAssemblerModel {
    pub partial: Seq<PartialModel>,
    pub retired: Map<u64, bool>,
    pub missing: Set<u64>,
    pub newest: Option<u64>,
    pub stats: AudioReceiveStatistics,
}

/// Where the packet `sequence` stands or would stand.
pub open spec fn place_of(partial: Seq<PartialModel>, sequence: u64) -> int
    decreases partial.len(),
{
    if partial.len() == 0 || partial.last().header.sequence < sequence {
        partial.len() as int
    } else {
        place_of(partial.drop_last(), sequence)
    }
}

pub open spec fn is_open(partial: Seq<PartialModel>, sequence: u64) -> bool {
    let place = place_of(partial, sequence);
    0 <= place < partial.len() && partial[place].header.sequence == sequence
}

pub open spec fn in_order(partial: Seq<PartialModel>) -> bool {
    forall|i: int, j: int|
        #![trigger partial[i], partial[j]]
        0 <= i < j < partial.len() ==> partial[i].header.sequence < partial[j].header.sequence
}

/// The sequence is among the last four up to `newest`.
pub open spec fn in_window(newest: u64, sequence: u64) -> bool {
    newest.saturating_sub(sequence) < AUDIO_QUEUE_PACKETS
}

pub open spec fn window(newest: u64) -> Set<u64> {
    Set::new(|sequence: u64| in_window(newest, sequence))
}

/// The sequences from `start` up to `end`, without `end`.
pub open spec fn between(start: u64, end: u64) -> Set<u64> {
    Set::new(|sequence: u64| start <= sequence < end)
}

impl AudioAssemblerModel {
    pub open spec fn well_formed(self) -> bool {
        &&& self.partial.len() <= AUDIO_QUEUE_PACKETS
        &&& forall|i: int|
            0 <= i < self.partial.len() ==> (#[trigger] self.partial[i]).well_formed()
        &&& in_order(self.partial)
        &&& self.missing.finite()
        &&& match self.newest {
            Some(newest) => {
                &&& forall|i: int|
                    0 <= i < self.partial.len() ==> (#[trigger] self.partial[i]).header.sequence
                        <= newest
                &&& forall|k: u64| #[trigger] self.retired.dom().contains(k) ==> k <= newest
                &&& forall|k: u64| #[trigger] self.missing.contains(k) ==> k <= newest
            },
            None => {
                &&& self.partial.len() == 0
                &&& self.retired == Map::<u64, bool>::empty()
                &&& self.missing == Set::<u64>::empty()
            },
        }
    }

    pub open spec fn initial() -> AudioAssemblerModel {
        AudioAssemblerModel {
            partial: Seq::empty(),
            retired: Map::empty(),
            missing: Set::empty(),
            newest: None,
            stats: AudioReceiveStatistics::zero(),
        }
    }

    /// A new generation forgets everything of the one before.
    pub open spec fn at_generation(self, generation: u64) -> AudioAssemblerModel {
        if generation <= self.stats.generation {
            self
        } else {
            AudioAssemblerModel {
                partial: Seq::empty(),
                retired: Map::empty(),
                missing: Set::empty(),
                newest: None,
                stats: AudioReceiveStatistics {
                    generation,
                    expired_packets: self.stats.expired_packets.saturating_add(
                        self.partial.len() as u64,
                    ),
                    missing_packets: self.stats.missing_packets.saturating_add(
                        self.missing.len() as u64,
                    ),
                    ..self.stats
                },
            }
        }
    }

    /// Forgets what fell out of the window; a sequence of which nothing came by
    /// then is missing.
    pub open spec fn trimmed(self) -> AudioAssemblerModel {
        match self.newest {
            Some(newest) => {
                let kept = self.missing.intersect(window(newest));
                AudioAssemblerModel {
                    retired: self.retired.restrict(window(newest)),
                    missing: kept,
                    stats: AudioReceiveStatistics {
                        missing_packets: self.stats.missing_packets.saturating_add(
                            (self.missing.len() - kept.len()) as u64,
                        ),
                        ..self.stats
                    },
                    ..self
                }
            },
            None => self,
        }
    }

    /// Gives up the packets that were waited for long enough.
    pub open spec fn timed_out(self, now: Instant) -> AudioAssemblerModel
        decreases self.partial.len(),
    {
        if self.partial.len() == 0 {
            self
        } else {
            let last = self.partial.last();
            let before = AudioAssemblerModel {
                partial: self.partial.drop_last(),
                ..self
            }.timed_out(now);
            if last.is_over(now) {
                AudioAssemblerModel {
                    retired: before.retired.insert(last.header.sequence, false),
                    stats: AudioReceiveStatistics {
                        expired_packets: before.stats.expired_packets.saturating_add(1),
                        ..before.stats
                    },
                    ..before
                }
            } else {
                AudioAssemblerModel { partial: before.partial.push(last), ..before }
            }
        }
    }

    pub open spec fn expired(self, now: Instant) -> AudioAssemblerModel {
        self.timed_out(now).trimmed()
    }

    pub open spec fn count_late(self) -> AudioAssemblerModel {
        AudioAssemblerModel {
            stats: AudioReceiveStatistics {
                late_fragments: self.stats.late_fragments.saturating_add(1),
                ..self.stats
            },
            ..self
        }
    }

    pub open spec fn count_duplicate(self) -> AudioAssemblerModel {
        AudioAssemblerModel {
            stats: AudioReceiveStatistics {
                duplicate_fragments: self.stats.duplicate_fragments.saturating_add(1),
                ..self.stats
            },
            ..self
        }
    }

    pub open spec fn count_malformed(self) -> AudioAssemblerModel {
        AudioAssemblerModel {
            stats: AudioReceiveStatistics {
                malformed_fragments: self.stats.malformed_fragments.saturating_add(1),
                ..self.stats
            },
            ..self
        }
    }

    pub open spec fn count_received(self) -> AudioAssemblerModel {
        AudioAssemblerModel {
            stats: AudioReceiveStatistics {
                received_fragments: self.stats.received_fragments.saturating_add(1),
                ..self.stats
            },
            ..self
        }
    }

    /// The sequence that comes next.
    pub open spec fn expected(self) -> u64 {
        match self.newest {
            Some(newest) => newest.saturating_add(1),
            None => 0,
        }
    }

    /// A fragment of `sequence` has come: the sequences that it skips are
    /// awaited in the window and missing before it.
    pub open spec fn announced(self, sequence: u64) -> AudioAssemblerModel {
        let expected = self.expected();
        let reach = sequence.saturating_sub(3);
        let start = if reach >= expected {
            reach
        } else {
            expected
        };
        let skipping = sequence > expected;
        AudioAssemblerModel {
            newest: Some(
                match self.newest {
                    Some(newest) if newest >= sequence => newest,
                    _ => sequence,
                },
            ),
            missing: if skipping {
                self.missing.union(between(start, sequence)).remove(sequence)
            } else {
                self.missing.remove(sequence)
            },
            stats: AudioReceiveStatistics {
                missing_packets: if skipping {
                    self.stats.missing_packets.saturating_add((start - expected) as u64)
                } else {
                    self.stats.missing_packets
                },
                ..self.stats
            },
            ..self
        }.trimmed()
    }

    /// Opens the packet of `header` unless it is open; the oldest makes room.
    pub open spec fn opened(self, header: Header, now: Instant) -> AudioAssemblerModel {
        if is_open(self.partial, header.sequence) {
            self
        } else {
            let full = self.partial.len() == AUDIO_QUEUE_PACKETS;
            let roomy = if full {
                self.partial.skip(1)
            } else {
                self.partial
            };
            AudioAssemblerModel {
                partial: roomy.insert(
                    place_of(roomy, header.sequence),
                    PartialModel::opened(header, now),
                ),
                stats: AudioReceiveStatistics {
                    overflow_packets: if full {
                        self.stats.overflow_packets.saturating_add(1)
                    } else {
                        self.stats.overflow_packets
                    },
                    ..self.stats
                },
                ..self
            }
        }
    }

    /// The packet at `place` is over.
    pub open spec fn closed(self, place: int, completed: bool) -> AudioAssemblerModel {
        AudioAssemblerModel {
            partial: self.partial.remove(place),
            retired: self.retired.insert(self.partial[place].header.sequence, completed),
            ..self
        }
    }

    /// Puts a fragment into its open packet.
    pub open spec fn accepted(self, header: Header, payload: Seq<u8>) -> (
        AudioAssemblerModel,
        Option<AudioPacketModel>,
    ) {
        let place = place_of(self.partial, header.sequence);
        let packet = self.partial[place];
        let offset = header.offset as int;
        let end = offset + payload.len();
        if !same_packet(packet.header, header) {
            (self.closed(place, false).count_malformed(), None)
        } else {
            match packet.pieces[header.fragment_index as int] {
                Some((start, length)) => if start == offset && length == payload.len()
                    && packet.data.subrange(offset, end) == payload {
                    (self.count_duplicate(), None)
                } else {
                    (self.closed(place, false).count_malformed(), None)
                },
                None => if any_overlap(packet.pieces, offset, end) {
                    (self.closed(place, false).count_malformed(), None)
                } else {
                    let grown = PartialModel {
                        pieces: packet.pieces.update(
                            header.fragment_index as int,
                            Some((header.offset as usize, payload.len() as usize)),
                        ),
                        data: overlaid(packet.data, offset, payload),
                        ..packet
                    };
                    if !all_there(grown.pieces) {
                        (
                            AudioAssemblerModel {
                                partial: self.partial.update(place, grown),
                                ..self
                            },
                            None,
                        )
                    } else if gapless(grown.pieces) != Some(header.packet_size as nat) {
                        (self.closed(place, false).count_malformed(), None)
                    } else {
                        (self.closed(place, true).count_completed(grown.data.len()), Some(
                            AudioPacketModel {
                                generation: header.generation,
                                sequence: header.sequence,
                                captured_at_micros: header.captured_at_micros,
                                decoded_samples: header.decoded_samples,
                                skip_start_samples: header.skip_start_samples,
                                skip_end_samples: header.skip_end_samples,
                                payload: grown.data,
                            },
                        ))
                    }
                },
            }
        }
    }

    pub open spec fn count_completed(self, size: nat) -> AudioAssemblerModel {
        AudioAssemblerModel {
            stats: AudioReceiveStatistics {
                completed_packets: self.stats.completed_packets.saturating_add(1),
                payload_bytes: self.stats.payload_bytes.saturating_add(size as u64),
                ..self.stats
            },
            ..self
        }
    }

    /// The state after a datagram, and the packet that it completes.
    pub open spec fn pushed(self, datagram: Seq<u8>, now: Instant) -> (
        AudioAssemblerModel,
        Option<AudioPacketModel>,
    ) {
        let fresh = self.expired(now);
        if !Header::is_fragment(datagram) {
            (fresh.count_malformed(), None)
        } else {
            let header = Header::spelled(datagram);
            let payload = datagram.skip(HEADER_SIZE as int);
            let received = fresh.count_received();
            if header.generation < received.stats.generation {
                (received.count_late(), None)
            } else {
                let current = received.at_generation(header.generation);
                if current.retired.dom().contains(header.sequence) {
                    if current.retired[header.sequence] {
                        (current.count_duplicate(), None)
                    } else {
                        (current.count_late(), None)
                    }
                } else if current.newest matches Some(newest) && !in_window(
                    newest,
                    header.sequence,
                ) {
                    (current.count_late(), None)
                } else {
                    current.announced(header.sequence).opened(header, now).accepted(
                        header,
                        payload,
                    )
                }
            }
        }
    }
}

/// Puts audio packets together from their datagrams.
pub struct AudioAssembler {
    partial: Vec<Partial>,
    /// Retired sequence, and whether it was completed rather than discarded.
    retired: BTreeMap<u64, bool>,
    missing: BTreeSet<u64>,
    newest: Option<u64>,
    stats: AudioReceiveStatistics,
}

spec fn partial_models(partial: Seq<Partial>) -> Seq<PartialModel> {
    partial.map_values(|packet: Partial| packet.model())
}

impl View for AudioAssembler {
    type V = AudioAssemblerModel;

    closed spec fn view(&self) -> AudioAssemblerModel {
        AudioAssemblerModel {
            partial: partial_models(self.partial@),
            retired: self.retired@,
            missing: self.missing@,
            newest: self.newest,
            stats: self.stats,
        }
    }
}

pub proof fn lemma_place_of(partial: Seq<PartialModel>, sequence: u64)
    requires
        in_order(partial),
    ensures
        0 <= place_of(partial, sequence) <= partial.len(),
        forall|i: int|
            0 <= i < place_of(partial, sequence) ==> (#[trigger] partial[i]).header.sequence
                < sequence,
        forall|i: int|
            place_of(partial, sequence) <= i < partial.len() ==> (
            #[trigger] partial[i]).header.sequence >= sequence,
    decreases partial.len(),
{
    if partial.len() > 0 && partial.last().header.sequence >= sequence {
        let shorter = partial.drop_last();
        assert(in_order(shorter)) by {
            assert forall|i: int, j: int|
                #![trigger shorter[i], shorter[j]]
                0 <= i < j < shorter.len() implies shorter[i].header.sequence
                < shorter[j].header.sequence by {
                assert(partial[i].header.sequence < partial[j].header.sequence);
            }
        }
        lemma_place_of(shorter, sequence);
        assert forall|i: int| 0 <= i < place_of(partial, sequence) implies (
        #[trigger] partial[i]).header.sequence < sequence by {
            assert(shorter[i].header.sequence < sequence);
        }
        assert forall|i: int| place_of(partial, sequence) <= i < partial.len() implies (
        #[trigger] partial[i]).header.sequence >= sequence by {
            if i < shorter.len() {
                assert(shorter[i].header.sequence >= sequence);
            }
        }
    } else if partial.len() > 0 {
        assert forall|i: int| 0 <= i < partial.len() implies (
        #[trigger] partial[i]).header.sequence < sequence by {
            if i < partial.len() - 1 {
                assert(partial[i].header.sequence < partial[partial.len() - 1].header.sequence);
            }
        }
    }
}

/// A packet that is there is found.
pub proof fn lemma_found(partial: Seq<PartialModel>, index: int)
    requires
        in_order(partial),
        0 <= index < partial.len(),
    ensures
        place_of(partial, partial[index].header.sequence) == index,
{
    let sequence = partial[index].header.sequence;
    lemma_place_of(partial, sequence);
    let place = place_of(partial, sequence);
    if place < index {
        assert(partial[place].header.sequence < partial[index].header.sequence);
    }
}

/// Taking a packet out leaves the rest in order.
pub proof fn lemma_remove(partial: Seq<PartialModel>, place: int)
    requires
        in_order(partial),
        0 <= place < partial.len(),
    ensures
        in_order(partial.remove(place)),
        forall|i: int|
            0 <= i < partial.len() - 1 ==> (#[trigger] partial.remove(place)[i]) == partial[if i
                < place {
                i
            } else {
                i + 1
            }],
{
    let after = partial.remove(place);
    assert forall|i: int, j: int|
        #![trigger after[i], after[j]]
        0 <= i < j < after.len() implies after[i].header.sequence < after[j].header.sequence by {
        let a = if i < place {
            i
        } else {
            i + 1
        };
        let b = if j < place {
            j
        } else {
            j + 1
        };
        assert(after[i] == partial[a]);
        assert(after[j] == partial[b]);
    }
}

/// A packet that is put in its place is open, and the order stays.
pub proof fn lemma_insert(partial: Seq<PartialModel>, packet: PartialModel)
    requires
        in_order(partial),
        !is_open(partial, packet.header.sequence),
    ensures
        ({
            let place = place_of(partial, packet.header.sequence);
            let after = partial.insert(place, packet);
            &&& 0 <= place <= partial.len()
            &&& in_order(after)
            &&& place_of(after, packet.header.sequence) == place
        }),
{
    let sequence = packet.header.sequence;
    let place = place_of(partial, sequence);
    lemma_place_of(partial, sequence);
    let after = partial.insert(place, packet);
    assert forall|i: int, j: int|
        #![trigger after[i], after[j]]
        0 <= i < j < after.len() implies after[i].header.sequence < after[j].header.sequence by {
        let a = if i < place {
            i
        } else {
            i - 1
        };
        let b = if j < place {
            j
        } else {
            j - 1
        };
        if i != place {
            assert(after[i] == partial[a]);
        }
        if j != place {
            assert(after[j] == partial[b]);
        }
        if i == place {
            assert(partial[b].header.sequence >= sequence);
            if b > place {
                assert(partial[place].header.sequence < partial[b].header.sequence);
            }
        } else if j == place {
            assert(partial[a].header.sequence < sequence);
        }
    }
    assert(after[place] == packet);
    lemma_found(after, place);
}

/// Giving up packets leaves the rest in order, and adds only their sequences to
/// those that are over.
pub proof fn lemma_timed_out(state: AudioAssemblerModel, now: Instant)
    requires
        in_order(state.partial),
    ensures
        ({
            let after = state.timed_out(now);
            &&& in_order(after.partial)
            &&& after.partial.len() <= state.partial.len()
            &&& forall|packet: PartialModel| #[trigger]
                after.partial.contains(packet) ==> state.partial.contains(packet)
            &&& after.missing == state.missing
            &&& after.newest == state.newest
            &&& after.stats.generation == state.stats.generation
            &&& forall|k: u64| #[trigger]
                after.retired.dom().contains(k)
                    ==> state.retired.dom().contains(k) || exists|i: int|
                    0 <= i < state.partial.len() && (#[trigger] state.partial[i]).header.sequence
                        == k
        }),
    decreases state.partial.len(),
{
    if state.partial.len() > 0 {
        let shorter = AudioAssemblerModel { partial: state.partial.drop_last(), ..state };
        assert(in_order(shorter.partial)) by {
            assert forall|i: int, j: int|
                #![trigger shorter.partial[i], shorter.partial[j]]
                0 <= i < j < shorter.partial.len() implies shorter.partial[i].header.sequence
                < shorter.partial[j].header.sequence by {
                assert(state.partial[i].header.sequence < state.partial[j].header.sequence);
            }
        }
        lemma_timed_out(shorter, now);
        let before = shorter.timed_out(now);
        let after = state.timed_out(now);
        let last = state.partial.last();
        assert(state.partial[state.partial.len() - 1] == last);
        assert forall|packet: PartialModel| #[trigger]
            after.partial.contains(packet) implies state.partial.contains(packet) by {
            let i = choose|i: int| 0 <= i < after.partial.len() && after.partial[i] == packet;
            if i < before.partial.len() {
                assert(before.partial[i] == packet);
                assert(before.partial.contains(packet));
                let j = choose|j: int|
                    0 <= j < shorter.partial.len() && shorter.partial[j] == packet;
                assert(state.partial[j] == packet);
            }
        }
        assert forall|i: int, j: int|
            #![trigger after.partial[i], after.partial[j]]
            0 <= i < j < after.partial.len() implies after.partial[i].header.sequence
            < after.partial[j].header.sequence by {
            assert(after.partial[i] == before.partial[i]);
            if j == before.partial.len() {
                assert(before.partial.contains(before.partial[i]));
                let k = choose|k: int|
                    0 <= k < shorter.partial.len() && shorter.partial[k] == before.partial[i];
                assert(state.partial[k].header.sequence < state.partial[state.partial.len()
                    - 1].header.sequence);
            } else {
                assert(after.partial[j] == before.partial[j]);
            }
        }
        assert forall|k: u64| #[trigger] after.retired.dom().contains(k) implies state.retired.dom().contains(
            k,
        ) || exists|i: int|
            0 <= i < state.partial.len() && (#[trigger] state.partial[i]).header.sequence == k by {
            if before.retired.dom().contains(k) && !state.retired.dom().contains(k) {
                let i = choose|i: int|
                    0 <= i < shorter.partial.len() && (
                    #[trigger] shorter.partial[i]).header.sequence == k;
                assert(state.partial[i].header.sequence == k);
            }
        }
    }
}

pub proof fn lemma_timed_out_well_formed(state: AudioAssemblerModel, now: Instant)
    requires
        state.well_formed(),
    ensures
        state.timed_out(now).well_formed(),
{
    lemma_timed_out(state, now);
    let after = state.timed_out(now);
    assert forall|i: int| 0 <= i < after.partial.len() implies (
    #[trigger] after.partial[i]).well_formed() && (state.newest matches Some(newest)
        ==> after.partial[i].header.sequence <= newest) by {
        assert(after.partial.contains(after.partial[i]));
        let j = choose|j: int| 0 <= j < state.partial.len() && state.partial[j] == after.partial[i];
        assert(state.partial[j].well_formed());
    }
    if state.newest is None {
        assert(after.retired =~= Map::<u64, bool>::empty());
    }
}

pub proof fn lemma_trimmed_well_formed(state: AudioAssemblerModel)
    requires
        state.well_formed(),
    ensures
        state.trimmed().well_formed(),
{
}

fn empty_pieces(count: usize) -> (pieces: Vec<Option<(usize, usize)>>)
    ensures
        pieces@ == Seq::new(count as nat, |i: int| None::<(usize, usize)>),
{
    let mut pieces: Vec<Option<(usize, usize)>> = Vec::with_capacity(count);
    let mut index: usize = 0;
    while index < count
        invariant
            index <= count,
            pieces@.len() == index,
            forall|i: int| 0 <= i < index ==> (#[trigger] pieces@[i]) is None,
        decreases count - index,
    {
        pieces.push(None);
        index = index + 1;
    }
    assert(pieces@ =~= Seq::new(count as nat, |i: int| None::<(usize, usize)>));
    pieces
}

fn zeros(count: usize) -> (data: Vec<u8>)
    ensures
        data@ == Seq::new(count as nat, |i: int| 0u8),
{
    let mut data: Vec<u8> = Vec::with_capacity(count);
    let mut index: usize = 0;
    while index < count
        invariant
            index <= count,
            data@.len() == index,
            forall|i: int| 0 <= i < index ==> (#[trigger] data@[i]) == 0,
        decreases count - index,
    {
        data.push(0);
        index = index + 1;
    }
    assert(data@ =~= Seq::new(count as nat, |i: int| 0u8));
    data
}

fn find_overlap(pieces: &Vec<Option<(usize, usize)>>, offset: usize, end: usize) -> (found: bool)
    requires
        forall|i: int|
            0 <= i < pieces@.len() ==> (#[trigger] pieces@[i] matches Some((start, length))
                ==> start + length <= usize::MAX),
    ensures
        found == any_overlap(pieces@, offset as int, end as int),
{
    let mut index: usize = 0;
    while index < pieces.len()
        invariant
            index <= pieces@.len(),
            forall|i: int|
                0 <= i < pieces@.len() ==> (#[trigger] pieces@[i] matches Some((start, length))
                    ==> start + length <= usize::MAX),
            forall|i: int|
                0 <= i < index ==> !overlaps(#[trigger] pieces@[i], offset as int, end as int),
        decreases pieces@.len() - index,
    {
        match pieces[index] {
            Some((start, length)) => {
                if offset < start + length && start < end {
                    assert(overlaps(pieces@[index as int], offset as int, end as int));
                    return true;
                }
            },
            None => {},
        }
        index = index + 1;
    }
    false
}

fn have_all(pieces: &Vec<Option<(usize, usize)>>) -> (result: bool)
    ensures
        result == all_there(pieces@),
{
    let mut index: usize = 0;
    while index < pieces.len()
        invariant
            index <= pieces@.len(),
            forall|i: int| 0 <= i < index ==> (#[trigger] pieces@[i]) is Some,
        decreases pieces@.len() - index,
    {
        if pieces[index].is_none() {
            assert(pieces@[index as int] is None);
            return false;
        }
        index = index + 1;
    }
    true
}

proof fn lemma_gap_stays(pieces: Seq<Option<(usize, usize)>>, count: int)
    requires
        0 <= count <= pieces.len(),
        gapless(pieces.take(count)) is None,
    ensures
        gapless(pieces) is None,
    decreases pieces.len(),
{
    if count == pieces.len() {
        assert(pieces.take(count) =~= pieces);
    } else {
        assert(pieces.drop_last().take(count) =~= pieces.take(count));
        lemma_gap_stays(pieces.drop_last(), count);
    }
}

/// The number of bytes that the pieces cover one after the other.
fn covered_bytes(pieces: &Vec<Option<(usize, usize)>>, limit: usize) -> (covered: Option<usize>)
    requires
        forall|i: int|
            0 <= i < pieces@.len() ==> (#[trigger] pieces@[i] matches Some((start, length))
                ==> start + length <= limit),
    ensures
        match covered {
            Some(covered) => gapless(pieces@) == Some(covered as nat),
            None => gapless(pieces@) is None,
        },
{
    let mut covered: usize = 0;
    let mut index: usize = 0;
    while index < pieces.len()
        invariant
            index <= pieces@.len(),
            forall|i: int|
                0 <= i < pieces@.len() ==> (#[trigger] pieces@[i] matches Some((start, length))
                    ==> start + length <= limit),
            gapless(pieces@.take(index as int)) == Some(covered as nat),
        decreases pieces@.len() - index,
    {
        let ghost next = pieces@.take(index + 1);
        assert(next.drop_last() =~= pieces@.take(index as int));
        assert(next.last() == pieces@[index as int]);
        match pieces[index] {
            Some((offset, length)) => {
                if offset != covered {
                    proof {
                        lemma_gap_stays(pieces@, index + 1);
                    }
                    return None;
                }
                covered = covered + length;
            },
            None => {
                proof {
                    lemma_gap_stays(pieces@, index + 1);
                }
                return None;
            },
        }
        index = index + 1;
    }
    assert(pieces@.take(index as int) =~= pieces@);
    Some(covered)
}

/// Writes `payload` over `data` from `offset` on.
fn overlay(data: &mut Vec<u8>, offset: usize, payload: &[u8])
    requires
        offset + payload@.len() <= old(data)@.len(),
    ensures
        final(data)@ == overlaid(old(data)@, offset as int, payload@),
{
    let ghost before = data@;
    let total: usize = data.len();
    let mut index: usize = 0;
    while index < payload.len()
        invariant
            index <= payload@.len(),
            total == before.len(),
            offset + payload@.len() <= total,
            data@ == overlaid(before, offset as int, payload@.take(index as int)),
        decreases payload@.len() - index,
    {
        data.set(offset + index, payload[index]);
        index = index + 1;
        assert(data@ =~= overlaid(before, offset as int, payload@.take(index as int)));
    }
    assert(payload@.take(index as int) =~= payload@);
}

fn tells_the_same(left: Header, right: Header) -> (result: bool)
    ensures
        result == same_packet(left, right),
{
    left.captured_at_micros == right.captured_at_micros && left.packet_size == right.packet_size
        && left.fragment_count == right.fragment_count && left.decoded_samples
        == right.decoded_samples && left.skip_start_samples == right.skip_start_samples
        && left.skip_end_samples == right.skip_end_samples
}

impl Default for AudioAssembler {
    fn default() -> (assembler: Self)
        ensures
            assembler@ == AudioAssemblerModel::initial(),
            assembler@.well_formed(),
    {
        let assembler = AudioAssembler {
            partial: Vec::new(),
            retired: BTreeMap::new(),
            missing: BTreeSet::new(),
            newest: None,
            stats: AudioReceiveStatistics::default(),
        };
        assert(partial_models(assembler.partial@) =~= Seq::empty());
        assembler
    }
}

impl AudioAssembler {
    pub fn statistics(&self) -> (statistics: AudioReceiveStatistics)
        ensures
            statistics == self@.stats,
    {
        self.stats
    }

    /// The sequences of the packets that are being put together.
    pub fn partial_sequences(&self) -> (sequences: Vec<u64>)
        ensures
            sequences@ == self@.partial.map_values(|packet: PartialModel| packet.header.sequence),
    {
        let mut sequences: Vec<u64> = Vec::new();
        let mut index: usize = 0;
        while index < self.partial.len()
            invariant
                index <= self.partial@.len(),
                sequences@.len() == index,
                forall|i: int|
                    0 <= i < index ==> (#[trigger] sequences@[i])
                        == self.partial@[i].header.sequence,
            decreases self.partial@.len() - index,
        {
            sequences.push(self.partial[index].header.sequence);
            index = index + 1;
        }
        assert(sequences@ =~= self@.partial.map_values(
            |packet: PartialModel| packet.header.sequence,
        ));
        sequences
    }

    /// Moves on to `generation`, unless it is old.
    pub fn generation(&mut self, generation: u64)
        requires
            old(self)@.well_formed(),
        ensures
            final(self)@ == old(self)@.at_generation(generation),
            final(self)@.well_formed(),
    {
        if generation > self.stats.generation {
            self.stats.expired_packets = self.stats.expired_packets.saturating_add(
                self.partial.len() as u64,
            );
            self.stats.missing_packets = self.stats.missing_packets.saturating_add(
                self.missing.len() as u64,
            );
            self.partial.clear();
            self.retired.clear();
            self.missing.clear();
            self.newest = None;
            self.stats.generation = generation;
            assert(partial_models(self.partial@) =~= Seq::empty());
        }
    }

    fn trim_history(&mut self)
        requires
            old(self)@.well_formed(),
        ensures
            final(self)@ == old(self)@.trimmed(),
            final(self)@.well_formed(),
    {
        if let Some(newest) = self.newest {
            let mut retired: BTreeMap<u64, bool> = BTreeMap::new();
            let mut missing: BTreeSet<u64> = BTreeSet::new();
            let mut back: u64 = 0;
            let ghost near = |back: int| Set::new(|k: u64| k <= newest && newest - k < back);
            assert(retired@ =~= self.retired@.restrict(near(0)));
            assert(missing@ =~= self.missing@.intersect(near(0)));
            while back < 4 && back <= newest
                invariant
                    back <= 4,
                    back <= newest + 1,
                    near == (|back: int| Set::new(|k: u64| k <= newest && newest - k < back)),
                    retired@ == self.retired@.restrict(near(back as int)),
                    missing@ == self.missing@.intersect(near(back as int)),
                decreases 4 - back,
            {
                let sequence: u64 = newest - back;
                match self.retired.get(&sequence) {
                    Some(completed) => {
                        retired.insert(sequence, *completed);
                    },
                    None => {},
                }
                if self.missing.contains(&sequence) {
                    missing.insert(sequence);
                }
                back = back + 1;
                assert(retired@ =~= self.retired@.restrict(near(back as int)));
                assert(missing@ =~= self.missing@.intersect(near(back as int)));
            }
            proof {
                assert(retired@ =~= self.retired@.restrict(window(newest)));
                assert(missing@ =~= self.missing@.intersect(window(newest)));
                vstd::set_lib::lemma_len_subset(missing@, self.missing@);
            }
            let fallen: u64 = (self.missing.len() - missing.len()) as u64;
            self.retired = retired;
            self.missing = missing;
            self.stats.missing_packets = self.stats.missing_packets.saturating_add(fallen);
        }
    }

    /// Gives up the packets that were waited for long enough.
    pub fn expire(&mut self, now: Instant)
        requires
            old(self)@.well_formed(),
        ensures
            final(self)@ == old(self)@.expired(now),
            final(self)@.well_formed(),
    {
        let ghost start = self@;
        let mut kept: Vec<Partial> = Vec::new();
        let mut all: Vec<Partial> = Vec::new();
        all.append(&mut self.partial);
        let ghost models = partial_models(all@);
        assert(models =~= start.partial);
        let mut done: Ghost<int> = Ghost(0);
        assert(models.take(0) =~= Seq::empty());
        assert(partial_models(kept@) =~= Seq::empty());
        while all.len() > 0
            invariant
                0 <= done@ <= models.len(),
                models == start.partial,
                partial_models(all@) == models.skip(done@),
                self.newest == start.newest,
                self.missing@ == start.missing,
                ({
                    let soon = AudioAssemblerModel {
                        partial: models.take(done@),
                        ..start
                    }.timed_out(
                        now,
                    );
                    &&& soon.partial == partial_models(kept@)
                    &&& soon.retired == self.retired@
                    &&& soon.stats == self.stats
                    &&& soon.newest == start.newest
                    &&& soon.missing == start.missing
                }),
            decreases all@.len(),
        {
            let ghost all_before = all@;
            let packet = all.remove(0);
            proof {
                assert(partial_models(all_before).len() == all_before.len());
                assert(models.skip(done@).len() == models.len() - done@);
                assert(partial_models(all_before)[0] == all_before[0].model());
                assert(models.skip(done@)[0] == models[done@]);
                assert forall|i: int| 0 <= i < all@.len() implies partial_models(all@)[i]
                    == models.skip(done@ + 1)[i] by {
                    assert(all@[i] == all_before[i + 1]);
                    assert(partial_models(all_before)[i + 1] == models.skip(done@)[i + 1]);
                }
                assert(partial_models(all@) =~= models.skip(done@ + 1));
                let next = AudioAssemblerModel { partial: models.take(done@ + 1), ..start };
                assert(next.partial.drop_last() =~= models.take(done@));
                assert(next.partial.last() == models[done@]);
                assert(AudioAssemblerModel { partial: next.partial.drop_last(), ..next }
                    == AudioAssemblerModel { partial: models.take(done@), ..start });
            }
            if now.saturating_duration_since(packet.started).nanos >= AUDIO_WAIT_NANOS {
                self.retired.insert(packet.header.sequence, false);
                self.stats.expired_packets = self.stats.expired_packets.saturating_add(1);
            } else {
                let ghost kept_before = kept@;
                kept.push(packet);
                assert(partial_models(kept@) =~= partial_models(kept_before).push(packet.model()));
            }
            proof {
                done@ = done@ + 1;
            }
        }
        self.partial = kept;
        proof {
            assert(models.take(done@) =~= models);
            assert(AudioAssemblerModel { partial: models, ..start } =~= start);
            assert(self@ =~= start.timed_out(now));
            lemma_timed_out_well_formed(start, now);
        }
        self.trim_history();
    }
}

impl AudioAssembler {
    /// Where the packet `sequence` stands or would stand.
    fn find(&self, sequence: u64) -> (place: usize)
        ensures
            place == place_of(self@.partial, sequence),
            place <= self.partial@.len(),
    {
        let ghost models = self@.partial;
        let mut place: usize = self.partial.len();
        assert(models.take(place as int) =~= models);
        while place > 0 && self.partial[place - 1].header.sequence >= sequence
            invariant
                models == partial_models(self.partial@),
                place <= self.partial@.len(),
                place_of(models, sequence) == place_of(models.take(place as int), sequence),
            decreases place,
        {
            let ghost held = models.take(place as int);
            assert(held.drop_last() =~= models.take(place - 1));
            assert(held.last() == self.partial@[place - 1].model());
            place = place - 1;
        }
        let ghost held = models.take(place as int);
        assert(place > 0 ==> held.last() == self.partial@[place - 1].model());
        place
    }

    /// Takes note of a fragment of `sequence`.
    fn announce(&mut self, sequence: u64)
        requires
            old(self)@.well_formed(),
        ensures
            final(self)@ == old(self)@.announced(sequence),
            final(self)@.well_formed(),
            final(self)@.newest matches Some(newest) && sequence <= newest,
            final(self)@.partial == old(self)@.partial,
            final(self)@.stats.generation == old(self)@.stats.generation,
    {
        let ghost start = self@;
        let expected: u64 = match self.newest {
            Some(newest) => newest.saturating_add(1),
            None => 0,
        };
        if sequence > expected {
            let reach: u64 = sequence.saturating_sub(3);
            let first: u64 = if reach >= expected {
                reach
            } else {
                expected
            };
            self.stats.missing_packets = self.stats.missing_packets.saturating_add(
                first - expected,
            );
            let ghost before = self.missing@;
            let mut next: u64 = first;
            assert(before =~= before.union(between(first, first)));
            while next < sequence
                invariant
                    first <= next <= sequence,
                    self.missing@ == before.union(between(first, next)),
                    self.partial@ == old(self).partial@,
                    self.retired@ == start.retired,
                    self.newest == start.newest,
                    self.stats == (AudioReceiveStatistics {
                        missing_packets: start.stats.missing_packets.saturating_add(
                            (first - expected) as u64,
                        ),
                        ..start.stats
                    }),
                decreases sequence - next,
            {
                self.missing.insert(next);
                assert(self.missing@ =~= before.union(between(first, (next + 1) as u64)));
                next = next + 1;
            }
        }
        self.missing.remove(&sequence);
        let newest: u64 = match self.newest {
            Some(newest) => if newest >= sequence {
                newest
            } else {
                sequence
            },
            None => sequence,
        };
        self.newest = Some(newest);
        proof {
            lemma_between_finite_all();
            let noted = self@;
            assert forall|i: int| 0 <= i < noted.partial.len() implies (
            #[trigger] noted.partial[i]).header.sequence <= newest by {
                assert(start.partial[i].header.sequence <= newest);
            }
            assert(noted.well_formed());
        }
        self.trim_history();
    }

    /// Opens the packet of `header` unless it is open.
    fn open(&mut self, header: Header, now: Instant)
        requires
            old(self)@.well_formed(),
            header.well_formed(),
            old(self)@.newest matches Some(newest) && header.sequence <= newest,
        ensures
            final(self)@ == old(self)@.opened(header, now),
            final(self)@.well_formed(),
            is_open(final(self)@.partial, header.sequence),
    {
        let place: usize = self.find(header.sequence);
        let ghost before = self@;
        if place < self.partial.len() && self.partial[place].header.sequence == header.sequence {
            assert(self@.partial[place as int].header.sequence == header.sequence);
            return;
        }
        assert(!is_open(before.partial, header.sequence)) by {
            if is_open(before.partial, header.sequence) {
                assert(before.partial[place as int] == self.partial@[place as int].model());
            }
        }
        if self.partial.len() == AUDIO_QUEUE_PACKETS {
            let _oldest = self.partial.remove(0);
            self.stats.overflow_packets = self.stats.overflow_packets.saturating_add(1);
            assert(partial_models(self.partial@) =~= before.partial.skip(1));
            proof {
                lemma_remove(before.partial, 0);
                assert(before.partial.skip(1) =~= before.partial.remove(0));
            }
        }
        let ghost roomy = self@;
        assert(!is_open(roomy.partial, header.sequence)) by {
            if is_open(roomy.partial, header.sequence) {
                let found = place_of(roomy.partial, header.sequence);
                let shift = before.partial.len() - roomy.partial.len();
                assert(before.partial[found + shift] == roomy.partial[found]);
                lemma_found(before.partial, found + shift);
            }
        }
        let packet = Partial {
            header,
            started: now,
            pieces: empty_pieces(header.fragment_count as usize),
            data: zeros(header.packet_size as usize),
        };
        let ghost model = packet.model();
        let spot: usize = self.find(header.sequence);
        self.partial.insert(spot, packet);
        proof {
            assert(model =~= PartialModel::opened(header, now));
            assert(partial_models(self.partial@) =~= roomy.partial.insert(spot as int, model));
            assert(self@ =~= before.opened(header, now));
            lemma_insert(roomy.partial, model);
            let after = self@;
            assert forall|i: int| 0 <= i < after.partial.len() implies (
            #[trigger] after.partial[i]).well_formed() && (after.newest matches Some(newest)
                ==> after.partial[i].header.sequence <= newest) by {
                if i < spot {
                    assert(after.partial[i] == roomy.partial[i]);
                    assert(roomy.partial[i] == before.partial[i + before.partial.len()
                        - roomy.partial.len()]);
                } else if i > spot {
                    assert(after.partial[i] == roomy.partial[i - 1]);
                    assert(roomy.partial[i - 1] == before.partial[i - 1 + before.partial.len()
                        - roomy.partial.len()]);
                }
            }
        }
    }

    fn note_malformed(&mut self)
        ensures
            final(self)@ == old(self)@.count_malformed(),
    {
        self.stats.malformed_fragments = self.stats.malformed_fragments.saturating_add(1);
    }

    fn note_duplicate(&mut self)
        ensures
            final(self)@ == old(self)@.count_duplicate(),
    {
        self.stats.duplicate_fragments = self.stats.duplicate_fragments.saturating_add(1);
    }

    fn note_late(&mut self)
        ensures
            final(self)@ == old(self)@.count_late(),
    {
        self.stats.late_fragments = self.stats.late_fragments.saturating_add(1);
    }

    /// Puts a fragment into its open packet.
    fn accept(&mut self, header: Header, payload: &[u8]) -> (completed: Option<AudioPacket>)
        requires
            old(self)@.well_formed(),
            header.well_formed(),
            header.payload_size == payload@.len(),
            is_open(old(self)@.partial, header.sequence),
        ensures
            (
                final(self)@,
                match completed {
                    Some(packet) => Some(packet@),
                    None => None,
                },
            ) == old(self)@.accepted(header, payload@),
            final(self)@.well_formed(),
    {
        let ghost start = self@;
        let place: usize = self.find(header.sequence);
        let mut packet = self.partial.remove(place);
        let ghost model = packet.model();
        proof {
            assert(model == start.partial[place as int]);
            assert(partial_models(self.partial@) =~= start.partial.remove(place as int));
            lemma_remove(start.partial, place as int);
            assert(model.well_formed());
            lemma_closed_well_formed(start, place as int, false);
            lemma_closed_well_formed(start, place as int, true);
        }
        if !tells_the_same(packet.header, header) {
            self.retired.insert(header.sequence, false);
            assert(self@ =~= start.closed(place as int, false));
            self.note_malformed();
            return None;
        }
        let offset: usize = header.offset as usize;
        let end: usize = offset + payload.len();
        let index: usize = header.fragment_index as usize;
        match packet.pieces[index] {
            Some((previous, length)) => {
                assert(model.pieces[index as int] == Some((previous, length)));
                let present = vstd::slice::slice_subrange(packet.data.as_slice(), offset, end);
                if previous == offset && length == payload.len() && same(present, payload) {
                    self.partial.insert(place, packet);
                    assert(partial_models(self.partial@) =~= start.partial);
                    assert(self@ =~= start);
                    self.note_duplicate();
                } else {
                    self.retired.insert(header.sequence, false);
                    assert(self@ =~= start.closed(place as int, false));
                    self.note_malformed();
                }
                return None;
            },
            None => {},
        }
        if find_overlap(&packet.pieces, offset, end) {
            self.retired.insert(header.sequence, false);
            assert(self@ =~= start.closed(place as int, false));
            self.note_malformed();
            return None;
        }
        overlay(&mut packet.data, offset, payload);
        packet.pieces.set(index, Some((offset, payload.len())));
        let ghost grown = packet.model();
        assert(grown =~= PartialModel {
            pieces: model.pieces.update(
                header.fragment_index as int,
                Some((header.offset as usize, payload@.len() as usize)),
            ),
            data: overlaid(model.data, offset as int, payload@),
            ..model
        });
        assert(grown.well_formed());
        if !have_all(&packet.pieces) {
            self.partial.insert(place, packet);
            proof {
                assert(partial_models(self.partial@) =~= start.partial.update(
                    place as int,
                    grown,
                ));
                assert(self@ =~= AudioAssemblerModel {
                    partial: start.partial.update(place as int, grown),
                    ..start
                });
                lemma_update_well_formed(start, place as int, grown);
            }
            return None;
        }
        let covered = covered_bytes(&packet.pieces, header.packet_size as usize);
        let complete = match covered {
            Some(length) => length == header.packet_size as usize,
            None => false,
        };
        if !complete {
            self.retired.insert(header.sequence, false);
            assert(self@ =~= start.closed(place as int, false));
            self.note_malformed();
            return None;
        }
        self.retired.insert(header.sequence, true);
        assert(self@ =~= start.closed(place as int, true));
        self.stats.completed_packets = self.stats.completed_packets.saturating_add(1);
        self.stats.payload_bytes = self.stats.payload_bytes.saturating_add(
            packet.data.len() as u64,
        );
        Some(
            AudioPacket {
                generation: header.generation,
                sequence: header.sequence,
                captured_at_micros: header.captured_at_micros,
                decoded_samples: header.decoded_samples,
                skip_start_samples: header.skip_start_samples,
                skip_end_samples: header.skip_end_samples,
                payload: packet.data,
            },
        )
    }

    /// Takes a datagram in: the packet that it completes, if it does.
    pub fn push(&mut self, datagram: &[u8], now: Instant) -> (completed: Option<AudioPacket>)
        requires
            old(self)@.well_formed(),
        ensures
            (
                final(self)@,
                match completed {
                    Some(packet) => Some(packet@),
                    None => None,
                },
            ) == old(self)@.pushed(datagram@, now),
            final(self)@.well_formed(),
    {
        self.expire(now);
        let (header, payload) = match Header::decode(datagram) {
            Ok(decoded) => decoded,
            Err(_) => {
                self.note_malformed();
                return None;
            },
        };
        self.stats.received_fragments = self.stats.received_fragments.saturating_add(1);
        if header.generation < self.stats.generation {
            self.note_late();
            return None;
        }
        self.generation(header.generation);
        match self.retired.get(&header.sequence) {
            Some(completed) => {
                if *completed {
                    self.note_duplicate();
                } else {
                    self.note_late();
                }
                return None;
            },
            None => {},
        }
        let behind = match self.newest {
            Some(newest) => newest.saturating_sub(header.sequence) >= AUDIO_QUEUE_PACKETS as u64,
            None => false,
        };
        if behind {
            self.note_late();
            return None;
        }
        self.announce(header.sequence);
        self.open(header, now);
        self.accept(header, payload)
    }
}

proof fn lemma_between_finite_all()
    ensures
        forall|start: u64, end: u64| (#[trigger] between(start, end)).finite(),
{
    assert forall|start: u64, end: u64| (#[trigger] between(start, end)).finite() by {
        lemma_between_finite(start, end);
    }
}

pub proof fn lemma_between_finite(start: u64, end: u64)
    ensures
        between(start, end).finite(),
    decreases end - start,
{
    if start >= end {
        assert(between(start, end) =~= Set::<u64>::empty());
    } else {
        lemma_between_finite((start + 1) as u64, end);
        assert(between(start, end) =~= between((start + 1) as u64, end).insert(start));
    }
}

pub proof fn lemma_closed_well_formed(state: AudioAssemblerModel, place: int, completed: bool)
    requires
        state.well_formed(),
        0 <= place < state.partial.len(),
    ensures
        state.closed(place, completed).well_formed(),
{
    lemma_remove(state.partial, place);
    let after = state.closed(place, completed);
    assert forall|i: int| 0 <= i < after.partial.len() implies (
    #[trigger] after.partial[i]).well_formed() && (state.newest matches Some(newest)
        ==> after.partial[i].header.sequence <= newest) by {
        let j = if i < place {
            i
        } else {
            i + 1
        };
        assert(after.partial[i] == state.partial[j]);
    }
    assert(state.partial[place].well_formed());
}

pub proof fn lemma_update_well_formed(state: AudioAssemblerModel, place: int, packet: PartialModel)
    requires
        state.well_formed(),
        0 <= place < state.partial.len(),
        packet.well_formed(),
        packet.header.sequence == state.partial[place].header.sequence,
    ensures
        (
            AudioAssemblerModel { partial: state.partial.update(place, packet), ..state }
        ).well_formed(),
{
    let after = state.partial.update(place, packet);
    assert forall|i: int, j: int|
        #![trigger after[i], after[j]]
        0 <= i < j < after.len() implies after[i].header.sequence < after[j].header.sequence by {
        assert(state.partial[i].header.sequence < state.partial[j].header.sequence);
    }
    assert forall|i: int| 0 <= i < after.len() implies (#[trigger] after[i]).well_formed() && (
    state.newest matches Some(newest) ==> after[i].header.sequence <= newest) by {
        assert(state.partial[i].well_formed());
    }
}

} // verus!
