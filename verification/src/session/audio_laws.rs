//! What packetization and assembly of audio packets promise together.

use crate::protocol::audio;
use crate::protocol::audio::{AudioPacketModel, Header, HEADER_SIZE, MAX_FRAGMENTS, MAX_PACKET_SIZE};
use crate::session::audio_assembly;
use crate::session::audio_assembly::{
    AudioAssemblerModel, PartialModel, AUDIO_QUEUE_PACKETS, AUDIO_WAIT_NANOS,
};
use crate::session::audio_datagram;
use crate::session::chunking;
use crate::time::Instant;
use vstd::prelude::*;

verus! {

/// The packet can be cut into datagrams of `capacity` payload bytes.
pub open spec fn can_be_cut(packet: AudioPacketModel, capacity: nat) -> bool {
    &&& 0 < packet.payload.len() <= MAX_PACKET_SIZE
    &&& capacity > 0
    &&& count_of(packet, capacity) <= MAX_FRAGMENTS
    &&& audio_datagram::has_valid_samples(packet)
}

pub open spec fn count_of(packet: AudioPacketModel, capacity: nat) -> nat {
    chunking::chunks_needed(packet.payload.len(), capacity)
}

/// Where fragment `index` stands and how long it is.
pub open spec fn piece_of(packet: AudioPacketModel, capacity: nat, index: int) -> (usize, usize) {
    (
        (index * capacity) as usize,
        chunking::chunk_of(packet.payload, capacity, index).len() as usize,
    )
}

/// The pieces of a packet of which those in `received` have come.
pub open spec fn pieces_held(packet: AudioPacketModel, capacity: nat, received: Seq<int>) -> Seq<
    Option<(usize, usize)>,
> {
    Seq::new(
        count_of(packet, capacity),
        |i: int|
            if received.contains(i) {
                Some(piece_of(packet, capacity, i))
            } else {
                None
            },
    )
}

/// The bytes of the fragments in `received` are in place.
pub open spec fn bytes_held(
    data: Seq<u8>,
    packet: AudioPacketModel,
    capacity: nat,
    received: Seq<int>,
) -> bool {
    &&& data.len() == packet.payload.len()
    &&& forall|i: int, j: int|
        #![trigger received.contains(i), data[j]]
        received.contains(i) && 0 <= i < count_of(packet, capacity) && i * capacity <= j < i
            * capacity + chunking::chunk_of(packet.payload, capacity, i).len() ==> data[j]
            == packet.payload[j]
}

/// The assembler has the packet open since `started`, with the fragments in `received`.
pub open spec fn holds(
    state: AudioAssemblerModel,
    packet: AudioPacketModel,
    capacity: nat,
    received: Seq<int>,
    started: Instant,
) -> bool {
    &&& state.well_formed()
    &&& state.stats.generation == packet.generation
    &&& state.newest matches Some(newest) && packet.sequence <= newest
        && audio_assembly::in_window(newest, packet.sequence)
    &&& !state.retired.dom().contains(packet.sequence)
    &&& audio_assembly::is_open(state.partial, packet.sequence)
    &&& ({
        let held = state.partial[audio_assembly::place_of(state.partial, packet.sequence)];
        &&& audio_assembly::same_packet(
            held.header,
            audio_datagram::header_of(packet, capacity, 0),
        )
        &&& held.pieces == pieces_held(packet, capacity, received)
        &&& bytes_held(held.data, packet, capacity, received)
        &&& held.started == started
    })
}

pub proof fn lemma_fragment(packet: AudioPacketModel, capacity: nat, index: int)
    requires
        can_be_cut(packet, capacity),
        0 <= index < count_of(packet, capacity),
    ensures
        ({
            let datagram = audio_datagram::datagrams_of(packet, capacity)[index];
            let header = audio_datagram::header_of(packet, capacity, index);
            let chunk = chunking::chunk_of(packet.payload, capacity, index);
            &&& Header::is_fragment(datagram)
            &&& Header::spelled(datagram) == header
            &&& datagram.skip(HEADER_SIZE as int) == chunk
            &&& header.well_formed()
            &&& header.payload_size == chunk.len()
            &&& chunk.len() > 0
            &&& header.offset == index * capacity
            &&& header.offset + chunk.len() <= packet.payload.len()
            &&& chunk == packet.payload.subrange(
                header.offset as int,
                header.offset + chunk.len(),
            )
            &&& audio_assembly::same_packet(
                audio_datagram::header_of(packet, capacity, 0),
                header,
            )
        }),
{
    chunking::lemma_chunks_needed(packet.payload.len(), capacity);
    chunking::lemma_chunk_bounds(packet.payload.len(), capacity, index);
    audio_datagram::lemma_header_is_well_formed(packet, capacity, index);
    let header = audio_datagram::header_of(packet, capacity, index);
    let chunk = chunking::chunk_of(packet.payload, capacity, index);
    audio::law_audio_fragment_round_trip(header, chunk);
    assert(chunk =~= packet.payload.subrange(header.offset as int, header.offset + chunk.len()));
}

/// A packet that can be cut is cut into at least one datagram.
pub proof fn lemma_whole(packet: AudioPacketModel, capacity: nat)
    requires
        can_be_cut(packet, capacity),
    ensures
        count_of(packet, capacity) > 0,
{
    chunking::lemma_chunks_needed(packet.payload.len(), capacity);
}

/// Different fragments cover different bytes.
proof fn lemma_fragments_apart(packet: AudioPacketModel, capacity: nat, i: int, j: int)
    requires
        can_be_cut(packet, capacity),
        0 <= i < count_of(packet, capacity),
        0 <= j < count_of(packet, capacity),
        i != j,
    ensures
        i * capacity + chunking::chunk_of(packet.payload, capacity, i).len() <= j * capacity || j
            * capacity + chunking::chunk_of(packet.payload, capacity, j).len() <= i * capacity,
{
    chunking::lemma_chunk_bounds(packet.payload.len(), capacity, i);
    chunking::lemma_chunk_bounds(packet.payload.len(), capacity, j);
    if i < j {
        assert((i + 1) * capacity <= j * capacity) by (nonlinear_arith)
            requires
                i + 1 <= j,
                capacity > 0,
        ;
    } else {
        assert((j + 1) * capacity <= i * capacity) by (nonlinear_arith)
            requires
                j + 1 <= i,
                capacity > 0,
        ;
    }
}

proof fn lemma_full_pieces(packet: AudioPacketModel, capacity: nat, count: int)
    requires
        can_be_cut(packet, capacity),
        0 <= count <= count_of(packet, capacity),
    ensures
        ({
            let full = Seq::new(
                count_of(packet, capacity),
                |i: int| Some(piece_of(packet, capacity, i)),
            );
            let end = if count == count_of(packet, capacity) {
                packet.payload.len() as int
            } else {
                count * capacity
            };
            end >= 0 && audio_assembly::gapless(full.take(count)) == Some(end as nat)
        }),
    decreases count,
{
    let total = count_of(packet, capacity);
    let full = Seq::new(total, |i: int| Some(piece_of(packet, capacity, i)));
    chunking::lemma_chunks_needed(packet.payload.len(), capacity);
    if count == 0 {
        assert(0 * capacity == 0);
    } else {
        lemma_full_pieces(packet, capacity, count - 1);
        chunking::lemma_chunk_bounds(packet.payload.len(), capacity, count - 1);
        lemma_fragment(packet, capacity, count - 1);
        assert(full.take(count).drop_last() =~= full.take(count - 1));
        assert(full.take(count).last() == full[count - 1]);
    }
}

/// The byte at `position` belongs to some fragment.
proof fn lemma_byte_has_fragment(packet: AudioPacketModel, capacity: nat, position: int)
    requires
        can_be_cut(packet, capacity),
        0 <= position < packet.payload.len(),
    ensures
        ({
            let index = position / capacity as int;
            &&& 0 <= index < count_of(packet, capacity)
            &&& index * capacity <= position < index * capacity + chunking::chunk_of(
                packet.payload,
                capacity,
                index,
            ).len()
        }),
{
    let index = position / capacity as int;
    let total = count_of(packet, capacity);
    chunking::lemma_chunks_needed(packet.payload.len(), capacity);
    assert(index * capacity <= position < index * capacity + capacity && 0 <= index)
        by (nonlinear_arith)
        requires
            index == position / capacity as int,
            capacity > 0,
            position >= 0,
    ;
    if index >= total {
        assert(index * capacity >= total * capacity) by (nonlinear_arith)
            requires
                index >= total,
                capacity > 0,
        ;
    }
    chunking::lemma_chunk_bounds(packet.payload.len(), capacity, index);
}

proof fn lemma_complete(packet: AudioPacketModel, capacity: nat, received: Seq<int>, data: Seq<u8>)
    requires
        can_be_cut(packet, capacity),
        audio_assembly::all_there(pieces_held(packet, capacity, received)),
        bytes_held(data, packet, capacity, received),
    ensures
        audio_assembly::gapless(pieces_held(packet, capacity, received)) == Some(
            packet.payload.len(),
        ),
        data == packet.payload,
{
    let total = count_of(packet, capacity);
    let held = pieces_held(packet, capacity, received);
    let full = Seq::new(total, |i: int| Some(piece_of(packet, capacity, i)));
    assert forall|i: int| 0 <= i < total implies held[i] == full[i] && received.contains(i) by {
        assert(held[i] is Some);
    }
    assert(held =~= full);
    lemma_full_pieces(packet, capacity, total as int);
    assert(full.take(total as int) =~= full);
    assert forall|j: int| 0 <= j < data.len() implies data[j] == packet.payload[j] by {
        lemma_byte_has_fragment(packet, capacity, j);
        assert(received.contains(j / capacity as int));
    }
    assert(data =~= packet.payload);
}

/// One more fragment of a packet that is held.
#[verifier::spinoff_prover]
#[verifier::rlimit(60)]
proof fn lemma_accept_fragment(
    state: AudioAssemblerModel,
    packet: AudioPacketModel,
    capacity: nat,
    received: Seq<int>,
    started: Instant,
    index: int,
)
    requires
        can_be_cut(packet, capacity),
        holds(state, packet, capacity, received, started),
        0 <= index < count_of(packet, capacity),
        !received.contains(index),
    ensures
        ({
            let (after, completed) = state.accepted(
                audio_datagram::header_of(packet, capacity, index),
                chunking::chunk_of(packet.payload, capacity, index),
            );
            let more = received.push(index);
            if audio_assembly::all_there(pieces_held(packet, capacity, more)) {
                completed == Some(packet)
            } else {
                completed is None && holds(after, packet, capacity, more, started)
            }
        }),
{
    let total = count_of(packet, capacity);
    let header = audio_datagram::header_of(packet, capacity, index);
    let chunk = chunking::chunk_of(packet.payload, capacity, index);
    let more = received.push(index);
    let place = audio_assembly::place_of(state.partial, packet.sequence);
    let open = state.partial[place];
    let offset = header.offset as int;
    let end = offset + chunk.len();
    lemma_fragment(packet, capacity, index);
    let before = pieces_held(packet, capacity, received);
    assert(before[index] is None);
    assert(!audio_assembly::any_overlap(before, offset, end)) by {
        if audio_assembly::any_overlap(before, offset, end) {
            let i = choose|i: int|
                0 <= i < before.len() && audio_assembly::overlaps(
                    #[trigger] before[i],
                    offset,
                    end,
                );
            assert(received.contains(i));
            lemma_fragment(packet, capacity, i);
            lemma_fragments_apart(packet, capacity, i, index);
        }
    }
    let after_pieces = pieces_held(packet, capacity, more);
    let grown = PartialModel {
        pieces: open.pieces.update(
            index,
            Some((header.offset as usize, chunk.len() as usize)),
        ),
        data: audio_assembly::overlaid(open.data, offset, chunk),
        ..open
    };
    assert forall|i: int| 0 <= i < total implies (more.contains(i) <==> i == index
        || received.contains(i)) by {
        if i == index {
            assert(more[received.len() as int] == index);
        } else {
            if received.contains(i) {
                let k = choose|k: int| 0 <= k < received.len() && received[k] == i;
                assert(more[k] == i);
            } else if more.contains(i) {
                let k = choose|k: int| 0 <= k < more.len() && more[k] == i;
                assert(received[k] == i);
            }
        }
    }
    assert(grown.pieces =~= after_pieces);
    assert(bytes_held(grown.data, packet, capacity, more)) by {
        assert forall|i: int, j: int|
            #![trigger more.contains(i), grown.data[j]]
            more.contains(i) && 0 <= i < total && i * capacity <= j < i * capacity
                + chunking::chunk_of(packet.payload, capacity, i).len() implies grown.data[j]
            == packet.payload[j] by {
            lemma_fragment(packet, capacity, i);
            if i == index {
                assert(grown.data[j] == chunk[j - offset]);
            } else {
                lemma_fragments_apart(packet, capacity, i, index);
                assert(received.contains(i));
                assert(grown.data[j] == open.data[j]);
            }
        }
    }
    assert(grown.well_formed()) by {
        assert forall|i: int| 0 <= i < grown.pieces.len() implies (
        #[trigger] grown.pieces[i] matches Some((start, length)) ==> start + length
            <= grown.header.packet_size) by {
            if i != index {
                assert(grown.pieces[i] == open.pieces[i]);
            }
        }
    }
    if audio_assembly::all_there(after_pieces) {
        lemma_complete(packet, capacity, more, grown.data);
        assert(state.accepted(header, chunk).1->0 =~= packet);
    } else {
        audio_assembly::lemma_update_well_formed(state, place, grown);
        let partial = state.partial.update(place, grown);
        assert(partial[place].header.sequence == packet.sequence);
        audio_assembly::lemma_found(partial, place);
    }
}

proof fn lemma_unexpired_stays(state: AudioAssemblerModel, place: int, now: Instant)
    requires
        audio_assembly::in_order(state.partial),
        0 <= place < state.partial.len(),
        !state.partial[place].is_over(now),
    ensures
        state.timed_out(now).partial.contains(state.partial[place]),
        state.timed_out(now).retired.dom().contains(state.partial[place].header.sequence)
            == state.retired.dom().contains(state.partial[place].header.sequence),
    decreases state.partial.len(),
{
    let shorter = AudioAssemblerModel { partial: state.partial.drop_last(), ..state };
    let before = shorter.timed_out(now);
    let after = state.timed_out(now);
    let last = state.partial.last();
    assert(state.partial[state.partial.len() - 1] == last);
    assert(audio_assembly::in_order(shorter.partial)) by {
        assert forall|i: int, j: int|
            #![trigger shorter.partial[i], shorter.partial[j]]
            0 <= i < j < shorter.partial.len() implies shorter.partial[i].header.sequence
            < shorter.partial[j].header.sequence by {
            assert(state.partial[i].header.sequence < state.partial[j].header.sequence);
        }
    }
    if place == state.partial.len() - 1 {
        assert(after.partial[before.partial.len() as int] == state.partial[place]);
        audio_assembly::lemma_timed_out(shorter, now);
        lemma_retired_grows(shorter, now, last.header.sequence);
        if before.retired.dom().contains(last.header.sequence) && !state.retired.dom().contains(
            last.header.sequence,
        ) {
            let i = choose|i: int|
                0 <= i < shorter.partial.len() && (#[trigger] shorter.partial[i]).header.sequence
                    == last.header.sequence;
            assert(state.partial[i].header.sequence < state.partial[state.partial.len()
                - 1].header.sequence);
        }
    } else {
        lemma_unexpired_stays(shorter, place, now);
        assert(shorter.partial[place] == state.partial[place]);
        let index = choose|index: int|
            0 <= index < before.partial.len() && before.partial[index] == state.partial[place];
        assert(after.partial[index] == state.partial[place]);
        assert(state.partial[place].header.sequence < state.partial[state.partial.len()
            - 1].header.sequence);
    }
}

/// What was over stays over.
pub proof fn lemma_retired_grows(state: AudioAssemblerModel, now: Instant, sequence: u64)
    ensures
        state.retired.dom().contains(sequence) ==> state.timed_out(now).retired.dom().contains(
            sequence,
        ),
    decreases state.partial.len(),
{
    if state.partial.len() > 0 {
        lemma_retired_grows(
            AudioAssemblerModel { partial: state.partial.drop_last(), ..state },
            now,
            sequence,
        );
    }
}

proof fn lemma_push_holding(
    state: AudioAssemblerModel,
    packet: AudioPacketModel,
    capacity: nat,
    received: Seq<int>,
    started: Instant,
    index: int,
    now: Instant,
)
    requires
        can_be_cut(packet, capacity),
        holds(state, packet, capacity, received, started),
        now.spec_since(started).nanos < AUDIO_WAIT_NANOS,
        0 <= index < count_of(packet, capacity),
        !received.contains(index),
    ensures
        ({
            let (after, completed) = state.pushed(
                audio_datagram::datagrams_of(packet, capacity)[index],
                now,
            );
            let more = received.push(index);
            if audio_assembly::all_there(pieces_held(packet, capacity, more)) {
                completed == Some(packet)
            } else {
                completed is None && holds(after, packet, capacity, more, started)
            }
        }),
{
    lemma_fragment(packet, capacity, index);
    let place = audio_assembly::place_of(state.partial, packet.sequence);
    audio_assembly::lemma_timed_out_well_formed(state, now);
    audio_assembly::lemma_timed_out(state, now);
    lemma_unexpired_stays(state, place, now);
    let fewer = state.timed_out(now);
    let at = choose|at: int| 0 <= at < fewer.partial.len() && fewer.partial[at]
        == state.partial[place];
    audio_assembly::lemma_found(fewer.partial, at);
    audio_assembly::lemma_trimmed_well_formed(fewer);
    let fresh = state.expired(now);
    let current = fresh.count_received();
    assert(current.well_formed());
    assert(current.at_generation(packet.generation) == current);
    let noted = AudioAssemblerModel { missing: current.missing.remove(packet.sequence), ..current };
    let announced = current.announced(packet.sequence);
    assert(announced == noted.trimmed()) by {
        assert(current.newest == state.newest);
        assert(noted.newest == Some(
            match current.newest {
                Some(newest) if newest >= packet.sequence => newest,
                _ => packet.sequence,
            },
        ));
    }
    assert(noted.well_formed());
    audio_assembly::lemma_trimmed_well_formed(noted);
    assert(holds(announced, packet, capacity, received, started));
    lemma_accept_fragment(announced, packet, capacity, received, started, index);
}

/// The assembler is ready for the packet: it is of a later generation, or it is
/// neither over nor open nor out of the window.
pub open spec fn awaits(state: AudioAssemblerModel, packet: AudioPacketModel) -> bool {
    ||| state.stats.generation < packet.generation
    ||| {
        &&& state.stats.generation == packet.generation
        &&& !state.retired.dom().contains(packet.sequence)
        &&& !audio_assembly::is_open(state.partial, packet.sequence)
        &&& state.newest matches Some(newest) ==> audio_assembly::in_window(
            newest,
            packet.sequence,
        )
    }
}

pub proof fn lemma_subset_stays_closed(
    before: Seq<PartialModel>,
    after: Seq<PartialModel>,
    sequence: u64,
)
    requires
        audio_assembly::in_order(before),
        forall|packet: PartialModel| #[trigger] after.contains(packet) ==> before.contains(packet),
        !audio_assembly::is_open(before, sequence),
    ensures
        !audio_assembly::is_open(after, sequence),
{
    if audio_assembly::is_open(after, sequence) {
        let place = audio_assembly::place_of(after, sequence);
        assert(after.contains(after[place]));
        let index = choose|index: int| 0 <= index < before.len() && before[index] == after[place];
        audio_assembly::lemma_found(before, index);
    }
}

/// An announced sequence that is awaited leaves a well-formed state.
pub proof fn lemma_announced(state: AudioAssemblerModel, sequence: u64)
    requires
        state.well_formed(),
        state.newest matches Some(newest) ==> audio_assembly::in_window(newest, sequence),
    ensures
        ({
            let after = state.announced(sequence);
            &&& after.well_formed()
            &&& after.partial == state.partial
            &&& after.stats.generation == state.stats.generation
            &&& after.newest matches Some(newest) && sequence <= newest
                && audio_assembly::in_window(newest, sequence)
            &&& after.retired.dom().contains(sequence) ==> state.retired.dom().contains(sequence)
        }),
{
    let expected = state.expected();
    let reach = sequence.saturating_sub(3);
    let start = if reach >= expected {
        reach
    } else {
        expected
    };
    audio_assembly::lemma_between_finite(start, sequence);
    let newest = match state.newest {
        Some(newest) if newest >= sequence => newest,
        _ => sequence,
    };
    let noted = AudioAssemblerModel {
        newest: Some(newest),
        missing: if sequence > expected {
            state.missing.union(audio_assembly::between(start, sequence)).remove(sequence)
        } else {
            state.missing.remove(sequence)
        },
        stats: audio_assembly::AudioReceiveStatistics {
            missing_packets: if sequence > expected {
                state.stats.missing_packets.saturating_add((start - expected) as u64)
            } else {
                state.stats.missing_packets
            },
            ..state.stats
        },
        ..state
    };
    assert(state.announced(sequence) == noted.trimmed());
    assert(noted.well_formed()) by {
        assert forall|i: int| 0 <= i < noted.partial.len() implies (
        #[trigger] noted.partial[i]).header.sequence <= newest by {
            assert(state.partial[i].header.sequence <= newest);
        }
    }
    audio_assembly::lemma_trimmed_well_formed(noted);
}

/// The first fragment opens the packet.
proof fn lemma_push_first(
    state: AudioAssemblerModel,
    packet: AudioPacketModel,
    capacity: nat,
    index: int,
    now: Instant,
)
    requires
        can_be_cut(packet, capacity),
        state.well_formed(),
        awaits(state, packet),
        0 <= index < count_of(packet, capacity),
    ensures
        ({
            let (after, completed) = state.pushed(
                audio_datagram::datagrams_of(packet, capacity)[index],
                now,
            );
            let more = seq![index];
            if audio_assembly::all_there(pieces_held(packet, capacity, more)) {
                completed == Some(packet)
            } else {
                completed is None && holds(after, packet, capacity, more, now)
            }
        }),
{
    lemma_fragment(packet, capacity, index);
    let header = audio_datagram::header_of(packet, capacity, index);
    audio_assembly::lemma_timed_out_well_formed(state, now);
    audio_assembly::lemma_timed_out(state, now);
    let fewer = state.timed_out(now);
    audio_assembly::lemma_trimmed_well_formed(fewer);
    let current = state.expired(now).count_received().at_generation(packet.generation);
    assert(current.well_formed());
    assert(current.stats.generation == packet.generation);
    if state.stats.generation == packet.generation {
        lemma_subset_stays_closed(state.partial, fewer.partial, packet.sequence);
        if fewer.retired.dom().contains(packet.sequence) {
            let i = choose|i: int|
                0 <= i < state.partial.len() && (#[trigger] state.partial[i]).header.sequence
                    == packet.sequence;
            audio_assembly::lemma_found(state.partial, i);
        }
    }
    assert(!current.retired.dom().contains(packet.sequence));
    assert(!audio_assembly::is_open(current.partial, packet.sequence));
    lemma_announced(current, packet.sequence);
    let announced = current.announced(packet.sequence);
    let full = announced.partial.len() == AUDIO_QUEUE_PACKETS;
    let roomy = if full {
        announced.partial.skip(1)
    } else {
        announced.partial
    };
    if full {
        audio_assembly::lemma_remove(announced.partial, 0);
        assert(roomy =~= announced.partial.remove(0));
    }
    assert forall|other: PartialModel| #[trigger] roomy.contains(
        other,
    ) implies announced.partial.contains(other) by {
        let i = choose|i: int| 0 <= i < roomy.len() && roomy[i] == other;
        if full {
            assert(announced.partial[i + 1] == other);
        }
    }
    lemma_subset_stays_closed(announced.partial, roomy, packet.sequence);
    let opening = PartialModel::opened(header, now);
    audio_assembly::lemma_insert(roomy, opening);
    let opened = announced.opened(header, now);
    assert(opened.well_formed()) by {
        let spot = audio_assembly::place_of(roomy, packet.sequence);
        assert forall|i: int| 0 <= i < opened.partial.len() implies (
        #[trigger] opened.partial[i]).well_formed() && (opened.newest matches Some(newest)
            ==> opened.partial[i].header.sequence <= newest) by {
            let shift = announced.partial.len() - roomy.len();
            if i < spot {
                assert(opened.partial[i] == roomy[i]);
                assert(roomy[i] == announced.partial[i + shift]);
            } else if i > spot {
                assert(opened.partial[i] == roomy[i - 1]);
                assert(roomy[i - 1] == announced.partial[i - 1 + shift]);
            }
        }
    }
    let none = Seq::<int>::empty();
    assert(opening.pieces =~= pieces_held(packet, capacity, none));
    assert(holds(opened, packet, capacity, none, now));
    lemma_accept_fragment(opened, packet, capacity, none, now, index);
    assert(none.push(index) =~= seq![index]);
}

/// The state after pushing the fragments `order` of a packet, each at its own time.
pub open spec fn after_fragments(
    state: AudioAssemblerModel,
    packet: AudioPacketModel,
    capacity: nat,
    order: Seq<int>,
    times: Seq<Instant>,
) -> AudioAssemblerModel
    decreases order.len(),
{
    if order.len() == 0 {
        state
    } else {
        after_fragments(state, packet, capacity, order.drop_last(), times).pushed(
            audio_datagram::datagrams_of(packet, capacity)[order.last()],
            times[order.len() - 1],
        ).0
    }
}

/// The packet that the last of the fragments `order` completes.
pub open spec fn last_completed(
    state: AudioAssemblerModel,
    packet: AudioPacketModel,
    capacity: nat,
    order: Seq<int>,
    times: Seq<Instant>,
) -> Option<AudioPacketModel> {
    after_fragments(state, packet, capacity, order.drop_last(), times).pushed(
        audio_datagram::datagrams_of(packet, capacity)[order.last()],
        times[order.len() - 1],
    ).1
}

/// Every number below `count` at most once.
pub open spec fn is_order(order: Seq<int>, count: nat) -> bool {
    &&& order.no_duplicates()
    &&& forall|i: int| 0 <= i < order.len() ==> 0 <= #[trigger] order[i] < count
}

proof fn lemma_incomplete_order(packet: AudioPacketModel, capacity: nat, order: Seq<int>)
    requires
        is_order(order, count_of(packet, capacity)),
        order.len() < count_of(packet, capacity),
    ensures
        !audio_assembly::all_there(pieces_held(packet, capacity, order)),
{
    let total = count_of(packet, capacity);
    if audio_assembly::all_there(pieces_held(packet, capacity, order)) {
        let all = vstd::set_lib::set_int_range(0, total as int);
        vstd::set_lib::lemma_int_range(0, total as int);
        order.unique_seq_to_set();
        assert(all.subset_of(order.to_set())) by {
            assert forall|i: int| all.contains(i) implies order.to_set().contains(i) by {
                assert(pieces_held(packet, capacity, order)[i] is Some);
            }
        }
        vstd::set_lib::lemma_len_subset(all, order.to_set());
    }
}

proof fn lemma_complete_order(packet: AudioPacketModel, capacity: nat, order: Seq<int>)
    requires
        is_order(order, count_of(packet, capacity)),
        order.len() == count_of(packet, capacity),
    ensures
        audio_assembly::all_there(pieces_held(packet, capacity, order)),
{
    let total = count_of(packet, capacity);
    let all = vstd::set_lib::set_int_range(0, total as int);
    vstd::set_lib::lemma_int_range(0, total as int);
    order.unique_seq_to_set();
    assert(order.to_set().subset_of(all)) by {
        assert forall|i: int| order.to_set().contains(i) implies all.contains(i) by {
            assert(order.contains(i));
        }
    }
    vstd::set_lib::lemma_subset_equality(order.to_set(), all);
    assert forall|i: int| 0 <= i < total implies (
    #[trigger] pieces_held(packet, capacity, order)[i]) is Some by {
        assert(all.contains(i));
        assert(order.to_set().contains(i));
    }
}

pub proof fn lemma_after_fragments(
    state: AudioAssemblerModel,
    packet: AudioPacketModel,
    capacity: nat,
    order: Seq<int>,
    times: Seq<Instant>,
)
    requires
        can_be_cut(packet, capacity),
        state.well_formed(),
        awaits(state, packet),
        is_order(order, count_of(packet, capacity)),
        0 < order.len() < count_of(packet, capacity),
        times.len() >= order.len(),
        forall|k: int|
            0 < k < order.len() ==> (#[trigger] times[k]).spec_since(times[0]).nanos
                < AUDIO_WAIT_NANOS,
    ensures
        holds(
            after_fragments(state, packet, capacity, order, times),
            packet,
            capacity,
            order,
            times[0],
        ),
        last_completed(state, packet, capacity, order, times) is None,
    decreases order.len(),
{
    lemma_incomplete_order(packet, capacity, order);
    let last = order.last();
    assert(order[order.len() - 1] == last);
    if order.len() == 1 {
        assert(order =~= seq![last]);
        assert(after_fragments(state, packet, capacity, order.drop_last(), times) == state);
        lemma_push_first(state, packet, capacity, last, times[0]);
    } else {
        let earlier = order.drop_last();
        lemma_after_fragments(state, packet, capacity, earlier, times);
        assert(!earlier.contains(last)) by {
            if earlier.contains(last) {
                let k = choose|k: int| 0 <= k < earlier.len() && earlier[k] == last;
                assert(order[k] == order[order.len() - 1]);
            }
        }
        assert(earlier.push(last) =~= order);
        lemma_push_holding(
            after_fragments(state, packet, capacity, earlier, times),
            packet,
            capacity,
            earlier,
            times[0],
            last,
            times[order.len() - 1],
        );
    }
}

/// A packet that was cut into datagrams is put together again, in whatever
/// order the datagrams come, with the last of them and not before, as long as
/// they come within the wait.
pub proof fn law_packets_are_assembled_in_any_order(
    state: AudioAssemblerModel,
    packet: AudioPacketModel,
    capacity: nat,
    order: Seq<int>,
    times: Seq<Instant>,
)
    requires
        can_be_cut(packet, capacity),
        state.well_formed(),
        awaits(state, packet),
        is_order(order, count_of(packet, capacity)),
        order.len() == count_of(packet, capacity),
        times.len() == order.len(),
        forall|k: int|
            0 < k < order.len() ==> (#[trigger] times[k]).spec_since(times[0]).nanos
                < AUDIO_WAIT_NANOS,
    ensures
        last_completed(state, packet, capacity, order, times) == Some(packet),
        forall|k: int|
            0 < k < order.len() ==> last_completed(
                state,
                packet,
                capacity,
                #[trigger] order.take(k),
                times,
            ) is None,
{
    chunking::lemma_chunks_needed(packet.payload.len(), capacity);
    lemma_complete_order(packet, capacity, order);
    let last = order.last();
    assert(order[order.len() - 1] == last);
    assert forall|k: int| 0 < k < order.len() implies last_completed(
        state,
        packet,
        capacity,
        #[trigger] order.take(k),
        times,
    ) is None by {
        lemma_after_fragments(state, packet, capacity, order.take(k), times);
    }
    if order.len() == 1 {
        assert(order =~= seq![last]);
        assert(after_fragments(state, packet, capacity, order.drop_last(), times) == state);
        lemma_push_first(state, packet, capacity, last, times[0]);
    } else {
        let earlier = order.drop_last();
        lemma_after_fragments(state, packet, capacity, earlier, times);
        assert(!earlier.contains(last)) by {
            if earlier.contains(last) {
                let k = choose|k: int| 0 <= k < earlier.len() && earlier[k] == last;
                assert(order[k] == order[order.len() - 1]);
            }
        }
        assert(earlier.push(last) =~= order);
        lemma_push_holding(
            after_fragments(state, packet, capacity, earlier, times),
            packet,
            capacity,
            earlier,
            times[0],
            last,
            times[order.len() - 1],
        );
    }
}

/// Every datagram of a packet is a fragment that tells what the packet tells,
/// with its own place and the number of all, and holds the bytes of the payload
/// from its offset on, which is its place times the capacity.
pub proof fn law_datagrams_tell_their_packet(packet: AudioPacketModel, capacity: nat, index: int)
    requires
        can_be_cut(packet, capacity),
        0 <= index < audio_datagram::datagrams_of(packet, capacity).len(),
    ensures
        ({
            let datagrams = audio_datagram::datagrams_of(packet, capacity);
            let datagram = datagrams[index];
            let header = Header::spelled(datagram);
            &&& Header::is_fragment(datagram)
            &&& 48 < datagram.len() <= 48 + capacity
            &&& header.generation == packet.generation
            &&& header.sequence == packet.sequence
            &&& header.captured_at_micros == packet.captured_at_micros
            &&& header.decoded_samples == packet.decoded_samples
            &&& header.skip_start_samples == packet.skip_start_samples
            &&& header.skip_end_samples == packet.skip_end_samples
            &&& header.packet_size == packet.payload.len()
            &&& header.fragment_index == index
            &&& header.fragment_count == datagrams.len()
            &&& header.offset == index * capacity
            &&& forall|i: int|
                48 <= i < datagram.len() ==> #[trigger] datagram[i] == packet.payload[header.offset
                    + i - 48]
        }),
{
    let datagram = audio_datagram::datagrams_of(packet, capacity)[index];
    lemma_fragment(packet, capacity, index);
    chunking::lemma_chunks_needed(packet.payload.len(), capacity);
    chunking::lemma_chunk_bounds(packet.payload.len(), capacity, index);
    assert((index + 1) * capacity == index * capacity + capacity) by (nonlinear_arith);
    assert forall|i: int| 48 <= i < datagram.len() implies #[trigger] datagram[i] == packet.payload[
        index * capacity + i - 48
    ] by {
        assert(datagram[i] == datagram.skip(48)[i - 48]);
    }
}

} // verus!
