//! What an assembler of audio packets promises over any history of calls.

use crate::protocol::audio::{AudioPacketModel, Header, HEADER_SIZE};
use crate::session::audio_assembly;
use crate::session::audio_assembly::{
    AudioAssemblerModel, PartialModel, AUDIO_QUEUE_PACKETS, AUDIO_WAIT_NANOS,
};
use crate::session::audio_datagram;
use crate::session::audio_laws;
use crate::time::Instant;
use vstd::prelude::*;

verus! {

/// Nothing is looked back on that is out of the window.
pub open spec fn is_tidy(state: AudioAssemblerModel) -> bool {
    state.newest matches Some(newest) ==> {
        &&& forall|k: u64| #[trigger]
            state.retired.dom().contains(k) ==> audio_assembly::in_window(newest, k)
        &&& forall|k: u64| #[trigger]
            state.missing.contains(k) ==> audio_assembly::in_window(newest, k)
    }
}

/// No fragment of the packet is accepted any more: its generation has passed,
/// or its sequence is over or out of the window.
pub open spec fn remembers(state: AudioAssemblerModel, generation: u64, sequence: u64) -> bool {
    ||| generation < state.stats.generation
    ||| {
        &&& generation == state.stats.generation
        &&& state.newest matches Some(newest)
        &&& sequence <= newest
        &&& audio_assembly::in_window(newest, sequence) ==> state.retired.dom().contains(sequence)
    }
}

/// The packet was completed not long ago.
pub open spec fn is_finished(state: AudioAssemblerModel, packet: AudioPacketModel) -> bool {
    &&& state.stats.generation == packet.generation
    &&& state.newest matches Some(newest)
    &&& packet.sequence <= newest
    &&& audio_assembly::in_window(newest, packet.sequence)
    &&& state.retired.dom().contains(packet.sequence)
    &&& state.retired[packet.sequence]
    &&& !has_open(state.partial, packet.sequence)
}

pub open spec fn has_open(partial: Seq<PartialModel>, sequence: u64) -> bool {
    exists|i: int| 0 <= i < partial.len() && (#[trigger] partial[i]).header.sequence == sequence
}

/// From one state to the next, no packet is completed, and what is over stays over.
pub open spec fn carries(before: AudioAssemblerModel, after: AudioAssemblerModel) -> bool {
    &&& before.stats.generation <= after.stats.generation
    &&& after.stats.completed_packets == before.stats.completed_packets
    &&& after.stats.payload_bytes == before.stats.payload_bytes
    &&& forall|generation: u64, sequence: u64| #[trigger]
        remembers(before, generation, sequence) ==> remembers(after, generation, sequence)
}

/// The completed packets and their bytes are counted, where there is one.
pub open spec fn counts_completed(
    before: AudioAssemblerModel,
    after: AudioAssemblerModel,
    completed: Option<AudioPacketModel>,
) -> bool {
    match completed {
        Some(packet) => {
            &&& after.stats.completed_packets == before.stats.completed_packets.saturating_add(1)
            &&& after.stats.payload_bytes == before.stats.payload_bytes.saturating_add(
                packet.payload.len() as u64,
            )
        },
        None => {
            &&& after.stats.completed_packets == before.stats.completed_packets
            &&& after.stats.payload_bytes == before.stats.payload_bytes
        },
    }
}

proof fn lemma_tidy_is_trimmed(state: AudioAssemblerModel)
    requires
        is_tidy(state),
    ensures
        state.trimmed() == state,
{
    if state.newest is Some {
        let window = audio_assembly::window(state.newest->0);
        assert(state.missing.intersect(window) =~= state.missing);
        assert(state.retired.restrict(window) =~= state.retired);
        assert(state.trimmed() =~= state);
    }
}

/// Giving up packets counts no completed one, and keeps what is told of the
/// sequences that are not open.
proof fn lemma_timed_out_keeps(state: AudioAssemblerModel, now: Instant)
    ensures
        ({
            let after = state.timed_out(now);
            &&& after.stats.completed_packets == state.stats.completed_packets
            &&& after.stats.payload_bytes == state.stats.payload_bytes
            &&& forall|k: u64| #[trigger]
                state.retired.dom().contains(k) ==> after.retired.dom().contains(k) && (has_open(
                    state.partial,
                    k,
                ) || after.retired[k] == state.retired[k])
        }),
    decreases state.partial.len(),
{
    if state.partial.len() > 0 {
        let shorter = AudioAssemblerModel { partial: state.partial.drop_last(), ..state };
        let last = state.partial.last();
        assert(state.partial[state.partial.len() - 1] == last);
        lemma_timed_out_keeps(shorter, now);
        let after = state.timed_out(now);
        assert forall|k: u64| #[trigger] state.retired.dom().contains(
            k,
        ) implies after.retired.dom().contains(k) && (has_open(state.partial, k)
            || after.retired[k] == state.retired[k]) by {
            assert(shorter.retired.dom().contains(k));
            if has_open(shorter.partial, k) {
                let i = choose|i: int|
                    0 <= i < shorter.partial.len() && (
                    #[trigger] shorter.partial[i]).header.sequence == k;
                assert(state.partial[i].header.sequence == k);
            }
        }
    }
}

proof fn lemma_expired(state: AudioAssemblerModel, now: Instant)
    requires
        state.well_formed(),
    ensures
        state.expired(now).well_formed(),
        is_tidy(state.expired(now)),
        carries(state, state.expired(now)),
        state.expired(now).stats.generation == state.stats.generation,
        state.expired(now).newest == state.newest,
        forall|packet: PartialModel| #[trigger]
            state.expired(now).partial.contains(packet) ==> state.partial.contains(packet),
{
    audio_assembly::lemma_timed_out_well_formed(state, now);
    audio_assembly::lemma_timed_out(state, now);
    lemma_timed_out_keeps(state, now);
    audio_assembly::lemma_trimmed_well_formed(state.timed_out(now));
    let after = state.expired(now);
    assert forall|generation: u64, sequence: u64| #[trigger]
        remembers(state, generation, sequence) implies remembers(after, generation, sequence) by {
        if generation == state.stats.generation && audio_assembly::in_window(
            state.newest->0,
            sequence,
        ) {
            assert(state.timed_out(now).retired.dom().contains(sequence));
        }
    }
}

/// The state that a fragment of `generation` meets.
proof fn lemma_current(state: AudioAssemblerModel, generation: u64, now: Instant)
    requires
        state.well_formed(),
        state.stats.generation <= generation,
    ensures
        ({
            let current = state.expired(now).count_received().at_generation(generation);
            &&& current.well_formed()
            &&& is_tidy(current)
            &&& carries(state, current)
            &&& current.stats.generation == generation
            &&& generation == state.stats.generation ==> current.newest == state.newest
            &&& forall|packet: PartialModel| #[trigger]
                current.partial.contains(packet) ==> generation == state.stats.generation
                    && state.partial.contains(packet)
        }),
{
    lemma_expired(state, now);
    let fresh = state.expired(now);
    let current = fresh.count_received().at_generation(generation);
    assert forall|generation: u64, sequence: u64| #[trigger]
        remembers(state, generation, sequence) implies remembers(current, generation, sequence) by {
        assert(remembers(fresh, generation, sequence));
    }
}

proof fn lemma_announced_carries(state: AudioAssemblerModel, sequence: u64)
    requires
        state.well_formed(),
        state.newest matches Some(newest) ==> audio_assembly::in_window(newest, sequence),
    ensures
        is_tidy(state.announced(sequence)),
        carries(state, state.announced(sequence)),
{
    let after = state.announced(sequence);
    assert forall|generation: u64, other: u64| #[trigger]
        remembers(state, generation, other) implies remembers(after, generation, other) by {
        if generation == state.stats.generation {
            assert(state.newest->0 <= after.newest->0);
            if audio_assembly::in_window(after.newest->0, other) {
                assert(audio_assembly::in_window(state.newest->0, other));
                assert(state.retired.dom().contains(other));
            }
        }
    }
}

/// Opening a packet adds it to those that are open, or nothing.
proof fn lemma_opened(state: AudioAssemblerModel, header: Header, now: Instant)
    requires
        state.well_formed(),
        is_tidy(state),
        header.well_formed(),
        state.newest matches Some(newest) && header.sequence <= newest,
    ensures
        ({
            let after = state.opened(header, now);
            &&& after.well_formed()
            &&& is_tidy(after)
            &&& carries(state, after)
            &&& after.stats.generation == state.stats.generation
            &&& after.newest == state.newest
            &&& after.retired == state.retired
            &&& audio_assembly::is_open(after.partial, header.sequence)
            &&& forall|packet: PartialModel| #[trigger]
                after.partial.contains(packet) ==> packet == PartialModel::opened(header, now)
                    || state.partial.contains(packet)
        }),
{
    let after = state.opened(header, now);
    if !audio_assembly::is_open(state.partial, header.sequence) {
        let full = state.partial.len() == AUDIO_QUEUE_PACKETS;
        let roomy = if full {
            state.partial.skip(1)
        } else {
            state.partial
        };
        if full {
            audio_assembly::lemma_remove(state.partial, 0);
            assert(roomy =~= state.partial.remove(0));
        }
        assert forall|other: PartialModel| #[trigger] roomy.contains(
            other,
        ) implies state.partial.contains(other) by {
            let i = choose|i: int| 0 <= i < roomy.len() && roomy[i] == other;
            if full {
                assert(state.partial[i + 1] == other);
            }
        }
        audio_laws::lemma_subset_stays_closed(state.partial, roomy, header.sequence);
        let opening = PartialModel::opened(header, now);
        audio_assembly::lemma_insert(roomy, opening);
        let spot = audio_assembly::place_of(roomy, header.sequence);
        assert forall|i: int| 0 <= i < after.partial.len() implies (#[trigger] after.partial[i])
            == opening || roomy.contains(after.partial[i]) by {
            if i < spot {
                assert(after.partial[i] == roomy[i]);
            } else if i > spot {
                assert(after.partial[i] == roomy[i - 1]);
            }
        }
        assert forall|i: int| 0 <= i < after.partial.len() implies (
        #[trigger] after.partial[i]).well_formed() && (after.newest matches Some(newest)
            ==> after.partial[i].header.sequence <= newest) by {
            if after.partial[i] != opening {
                assert(roomy.contains(after.partial[i]));
                let j = choose|j: int|
                    0 <= j < state.partial.len() && state.partial[j] == after.partial[i];
                assert(state.partial[j].well_formed());
            }
        }
        assert(after.well_formed());
    }
    assert forall|generation: u64, sequence: u64| #[trigger]
        remembers(state, generation, sequence) implies remembers(after, generation, sequence) by {
    }
}

/// Putting a fragment into its open packet.
proof fn lemma_accepted(state: AudioAssemblerModel, header: Header, payload: Seq<u8>)
    requires
        state.well_formed(),
        is_tidy(state),
        header.well_formed(),
        header.generation == state.stats.generation,
        payload.len() == header.payload_size,
        audio_assembly::is_open(state.partial, header.sequence),
        !state.retired.dom().contains(header.sequence),
        state.newest matches Some(newest) && header.sequence <= newest
            && audio_assembly::in_window(newest, header.sequence),
    ensures
        ({
            let (after, completed) = state.accepted(header, payload);
            &&& after.well_formed()
            &&& is_tidy(after)
            &&& after.stats.generation == state.stats.generation
            &&& forall|generation: u64, sequence: u64| #[trigger]
                remembers(state, generation, sequence) ==> remembers(after, generation, sequence)
            &&& counts_completed(state, after, completed)
            &&& completed matches Some(packet) ==> {
                &&& packet.generation == header.generation
                &&& packet.sequence == header.sequence
                &&& is_finished(after, packet)
            }
            &&& forall|sequence: u64| #[trigger]
                has_open(after.partial, sequence) ==> has_open(state.partial, sequence)
        }),
{
    let (after, completed) = state.accepted(header, payload);
    let place = audio_assembly::place_of(state.partial, header.sequence);
    let packet = state.partial[place];
    audio_assembly::lemma_closed_well_formed(state, place, true);
    audio_assembly::lemma_closed_well_formed(state, place, false);
    audio_assembly::lemma_remove(state.partial, place);
    let removed = state.partial.remove(place);
    assert forall|i: int| 0 <= i < removed.len() implies (
    #[trigger] removed[i]).header.sequence != header.sequence && has_open(
        state.partial,
        removed[i].header.sequence,
    ) by {
        let j = if i < place {
            i
        } else {
            i + 1
        };
        assert(removed[i] == state.partial[j]);
        if j < place {
            assert(state.partial[j].header.sequence < state.partial[place].header.sequence);
        } else {
            assert(state.partial[place].header.sequence < state.partial[j].header.sequence);
        }
    }
    let grown = PartialModel {
        pieces: packet.pieces.update(
            header.fragment_index as int,
            Some((header.offset as usize, payload.len() as usize)),
        ),
        data: audio_assembly::overlaid(packet.data, header.offset as int, payload),
        ..packet
    };
    if audio_assembly::same_packet(packet.header, header) {
        assert(grown.well_formed()) by {
            assert forall|i: int| 0 <= i < grown.pieces.len() implies (
            #[trigger] grown.pieces[i] matches Some((start, length)) ==> start + length
                <= grown.header.packet_size) by {
                if i != header.fragment_index {
                    assert(grown.pieces[i] == packet.pieces[i]);
                }
            }
        }
        audio_assembly::lemma_update_well_formed(state, place, grown);
        let updated = state.partial.update(place, grown);
        assert forall|i: int| 0 <= i < updated.len() implies has_open(
            state.partial,
            (#[trigger] updated[i]).header.sequence,
        ) by {
            assert(state.partial[i].header.sequence == updated[i].header.sequence);
        }
    }
    assert forall|sequence: u64| #[trigger] has_open(after.partial, sequence) implies has_open(
        state.partial,
        sequence,
    ) by {
        let i = choose|i: int|
            0 <= i < after.partial.len() && (#[trigger] after.partial[i]).header.sequence
                == sequence;
        assert(after.partial == state.partial || after.partial == removed || after.partial
            == state.partial.update(place, grown));
        assert(has_open(state.partial, after.partial[i].header.sequence));
    }
    assert forall|generation: u64, sequence: u64| #[trigger]
        remembers(state, generation, sequence) implies remembers(after, generation, sequence) by {
    }
}

/// What one datagram does to an assembler, whatever it holds.
proof fn lemma_pushed(state: AudioAssemblerModel, datagram: Seq<u8>, now: Instant)
    requires
        state.well_formed(),
    ensures
        ({
            let (after, completed) = state.pushed(datagram, now);
            let header = Header::spelled(datagram);
            &&& after.well_formed()
            &&& is_tidy(after)
            &&& state.stats.generation <= after.stats.generation
            &&& forall|generation: u64, sequence: u64| #[trigger]
                remembers(state, generation, sequence) ==> remembers(after, generation, sequence)
            &&& counts_completed(state, after, completed)
            &&& completed matches Some(packet) ==> {
                &&& Header::is_fragment(datagram)
                &&& packet.generation == header.generation
                &&& packet.sequence == header.sequence
                &&& is_finished(after, packet)
                &&& !remembers(state, packet.generation, packet.sequence)
            }
            &&& forall|sequence: u64| #[trigger]
                has_open(after.partial, sequence) ==> has_open(state.partial, sequence) || (
                Header::is_fragment(datagram) && sequence == header.sequence)
        }),
{
    let (after, completed) = state.pushed(datagram, now);
    let header = Header::spelled(datagram);
    let payload = datagram.skip(HEADER_SIZE as int);
    let fresh = state.expired(now);
    lemma_expired(state, now);
    if !Header::is_fragment(datagram) || header.generation < fresh.stats.generation {
        assert forall|generation: u64, sequence: u64| #[trigger]
            remembers(state, generation, sequence) implies remembers(
            after,
            generation,
            sequence,
        ) by {
            assert(remembers(fresh, generation, sequence));
        }
        lemma_subset_opens(state.partial, fresh.partial);
    } else {
        lemma_current(state, header.generation, now);
        let current = fresh.count_received().at_generation(header.generation);
        lemma_subset_opens(state.partial, current.partial);
        if current.retired.dom().contains(header.sequence) || (current.newest matches Some(newest)
            && !audio_assembly::in_window(newest, header.sequence)) {
            assert forall|generation: u64, sequence: u64| #[trigger]
                remembers(state, generation, sequence) implies remembers(
                after,
                generation,
                sequence,
            ) by {
                assert(remembers(current, generation, sequence));
            }
        } else {
            audio_laws::lemma_announced(current, header.sequence);
            lemma_announced_carries(current, header.sequence);
            let announced = current.announced(header.sequence);
            lemma_opened(announced, header, now);
            let opened = announced.opened(header, now);
            lemma_accepted(opened, header, payload);
            assert(!remembers(current, header.generation, header.sequence));
            assert forall|generation: u64, sequence: u64| #[trigger]
                remembers(state, generation, sequence) implies remembers(
                after,
                generation,
                sequence,
            ) by {
                assert(remembers(current, generation, sequence));
                assert(remembers(announced, generation, sequence));
                assert(remembers(opened, generation, sequence));
            }
            assert forall|sequence: u64| #[trigger] has_open(
                after.partial,
                sequence,
            ) implies has_open(state.partial, sequence) || sequence == header.sequence by {
                assert(has_open(opened.partial, sequence));
                let i = choose|i: int|
                    0 <= i < opened.partial.len() && (
                    #[trigger] opened.partial[i]).header.sequence == sequence;
                assert(opened.partial.contains(opened.partial[i]));
                if opened.partial[i] != PartialModel::opened(header, now) {
                    assert(announced.partial.contains(opened.partial[i]));
                    let j = choose|j: int|
                        0 <= j < announced.partial.len() && announced.partial[j]
                            == opened.partial[i];
                    assert(current.partial[j].header.sequence == sequence);
                    assert(has_open(current.partial, sequence));
                }
            }
        }
    }
}

proof fn lemma_subset_opens(before: Seq<PartialModel>, after: Seq<PartialModel>)
    requires
        forall|packet: PartialModel| #[trigger] after.contains(packet) ==> before.contains(packet),
    ensures
        forall|sequence: u64| #[trigger] has_open(after, sequence) ==> has_open(before, sequence),
{
    assert forall|sequence: u64| #[trigger] has_open(after, sequence) implies has_open(
        before,
        sequence,
    ) by {
        let i = choose|i: int|
            0 <= i < after.len() && (#[trigger] after[i]).header.sequence == sequence;
        assert(after.contains(after[i]));
        let j = choose|j: int| 0 <= j < before.len() && before[j] == after[i];
        assert(before[j].header.sequence == sequence);
    }
}

/// A datagram that completes a packet counts it and its bytes, and no other does.
pub proof fn law_completed_packets_are_counted(
    state: AudioAssemblerModel,
    datagram: Seq<u8>,
    now: Instant,
)
    requires
        state.well_formed(),
    ensures
        ({
            let (after, completed) = state.pushed(datagram, now);
            counts_completed(state, after, completed)
        }),
{
    lemma_pushed(state, datagram, now);
}

/// A fragment of a packet that was completed not long ago is a duplicate,
/// whenever it comes.
pub proof fn law_completed_packets_are_not_assembled_again(
    state: AudioAssemblerModel,
    packet: AudioPacketModel,
    capacity: nat,
    index: int,
    now: Instant,
)
    requires
        state.well_formed(),
        audio_laws::can_be_cut(packet, capacity),
        is_finished(state, packet),
        0 <= index < audio_laws::count_of(packet, capacity),
    ensures
        state.pushed(audio_datagram::datagrams_of(packet, capacity)[index], now) == (
            state.expired(now).count_received().count_duplicate(),
            None::<AudioPacketModel>,
        ),
{
    audio_laws::lemma_fragment(packet, capacity, index);
    lemma_expired(state, now);
    lemma_timed_out_keeps(state, now);
    assert(state.timed_out(now).retired.dom().contains(packet.sequence));
}

/// Only the packet `sequence` is open, if any.
spec fn is_alone(state: AudioAssemblerModel, sequence: u64) -> bool {
    forall|other: u64| #[trigger] has_open(state.partial, other) ==> other == sequence
}

proof fn lemma_fragments_alone(
    packet: AudioPacketModel,
    capacity: nat,
    order: Seq<int>,
    times: Seq<Instant>,
)
    requires
        audio_laws::can_be_cut(packet, capacity),
        audio_laws::is_order(order, audio_laws::count_of(packet, capacity)),
        times.len() >= order.len(),
        forall|k: int|
            0 < k < order.len() ==> (#[trigger] times[k]).spec_since(times[0]).nanos
                < AUDIO_WAIT_NANOS,
    ensures
        ({
            let state = audio_laws::after_fragments(
                AudioAssemblerModel::initial(),
                packet,
                capacity,
                order,
                times,
            );
            let whole = order.len() == audio_laws::count_of(packet, capacity);
            &&& state.well_formed()
            &&& is_tidy(state)
            &&& is_alone(state, packet.sequence)
            &&& state.stats.completed_packets == if whole && order.len() > 0 {
                1u64
            } else {
                0u64
            }
            &&& whole && order.len() > 0 ==> is_finished(state, packet)
        }),
    decreases order.len(),
{
    let fresh = AudioAssemblerModel::initial();
    let total = audio_laws::count_of(packet, capacity);
    if order.len() > 0 {
        let earlier = order.drop_last();
        let last = order.last();
        assert(order[order.len() - 1] == last);
        lemma_order_fits(order, total);
        lemma_fragments_alone(packet, capacity, earlier, times);
        let before = audio_laws::after_fragments(fresh, packet, capacity, earlier, times);
        let datagram = audio_datagram::datagrams_of(packet, capacity)[last];
        let now = times[order.len() - 1];
        audio_laws::lemma_fragment(packet, capacity, last);
        lemma_pushed(before, datagram, now);
        if order.len() == total {
            assert(times.take(order.len() as int).len() == order.len());
            lemma_times(fresh, packet, capacity, order, times);
            audio_laws::law_packets_are_assembled_in_any_order(
                fresh,
                packet,
                capacity,
                order,
                times.take(order.len() as int),
            );
        } else {
            audio_laws::lemma_after_fragments(fresh, packet, capacity, order, times);
        }
        assert(audio_laws::last_completed(fresh, packet, capacity, order, times)
            == before.pushed(datagram, now).1);
    }
}

/// Numbers below `count`, each at most once, are `count` at most.
proof fn lemma_order_fits(order: Seq<int>, count: nat)
    requires
        audio_laws::is_order(order, count),
    ensures
        order.len() <= count,
{
    let all = vstd::set_lib::set_int_range(0, count as int);
    vstd::set_lib::lemma_int_range(0, count as int);
    order.unique_seq_to_set();
    assert(order.to_set().subset_of(all)) by {
        assert forall|i: int| order.to_set().contains(i) implies all.contains(i) by {
            assert(order.contains(i));
        }
    }
    vstd::set_lib::lemma_len_subset(order.to_set(), all);
}

/// Times after those of the fragments do not matter.
proof fn lemma_times(
    state: AudioAssemblerModel,
    packet: AudioPacketModel,
    capacity: nat,
    order: Seq<int>,
    times: Seq<Instant>,
)
    requires
        0 < order.len() <= times.len(),
    ensures
        audio_laws::last_completed(
            state,
            packet,
            capacity,
            order,
            times.take(order.len() as int),
        ) == audio_laws::last_completed(state, packet, capacity, order, times),
{
    lemma_times_before(
        state,
        packet,
        capacity,
        order.drop_last(),
        times,
        order.len() as int,
    );
}

proof fn lemma_times_before(
    state: AudioAssemblerModel,
    packet: AudioPacketModel,
    capacity: nat,
    order: Seq<int>,
    times: Seq<Instant>,
    count: int,
)
    requires
        order.len() <= count <= times.len(),
    ensures
        audio_laws::after_fragments(state, packet, capacity, order, times.take(count))
            == audio_laws::after_fragments(state, packet, capacity, order, times),
    decreases order.len(),
{
    if order.len() > 0 {
        lemma_times_before(state, packet, capacity, order.drop_last(), times, count);
        assert(times.take(count)[order.len() - 1] == times[order.len() - 1]);
    }
}

/// A fresh assembler that is given the datagrams of a packet, in whatever order,
/// has completed one packet; each of them again, whenever it comes, gives
/// nothing, and counts one more fragment and one more duplicate and nothing else.
pub proof fn law_a_packet_is_completed_once(
    packet: AudioPacketModel,
    capacity: nat,
    order: Seq<int>,
    times: Seq<Instant>,
)
    requires
        audio_laws::can_be_cut(packet, capacity),
        audio_laws::is_order(order, audio_laws::count_of(packet, capacity)),
        order.len() == audio_laws::count_of(packet, capacity),
        times.len() == order.len(),
        forall|k: int|
            0 < k < order.len() ==> (#[trigger] times[k]).spec_since(times[0]).nanos
                < AUDIO_WAIT_NANOS,
    ensures
        audio_laws::last_completed(
            AudioAssemblerModel::initial(),
            packet,
            capacity,
            order,
            times,
        ) == Some(packet),
        forall|k: int|
            0 < k < order.len() ==> audio_laws::last_completed(
                AudioAssemblerModel::initial(),
                packet,
                capacity,
                #[trigger] order.take(k),
                times,
            ) is None,
        ({
            let state = audio_laws::after_fragments(
                AudioAssemblerModel::initial(),
                packet,
                capacity,
                order,
                times,
            );
            &&& state.stats.completed_packets == 1
            &&& forall|index: int, now: Instant|
                0 <= index < order.len() ==> #[trigger] state.pushed(
                    audio_datagram::datagrams_of(packet, capacity)[index],
                    now,
                ) == (state.count_received().count_duplicate(), None::<AudioPacketModel>)
        }),
{
    let fresh = AudioAssemblerModel::initial();
    audio_laws::law_packets_are_assembled_in_any_order(fresh, packet, capacity, order, times);
    audio_laws::lemma_whole(packet, capacity);
    lemma_fragments_alone(packet, capacity, order, times);
    let state = audio_laws::after_fragments(fresh, packet, capacity, order, times);
    assert(state.partial.len() == 0) by {
        if state.partial.len() > 0 {
            assert(has_open(state.partial, state.partial[0].header.sequence));
        }
    }
    lemma_tidy_is_trimmed(state);
    assert forall|index: int, now: Instant|
        0 <= index < order.len() implies #[trigger] state.pushed(
        audio_datagram::datagrams_of(packet, capacity)[index],
        now,
    ) == (state.count_received().count_duplicate(), None::<AudioPacketModel>) by {
        law_completed_packets_are_not_assembled_again(state, packet, capacity, index, now);
        assert(state.timed_out(now) == state);
    }
}

/// A call that changes an assembler.
pub ghost enum AssemblerCall {
    Push { datagram: Seq<u8>, now: Instant },
    Expire { now: Instant },
    Generation { generation: u64 },
}

/// The state after a call, and the packet that it completes.
pub open spec fn called(state: AudioAssemblerModel, call: AssemblerCall) -> (
    AudioAssemblerModel,
    Option<AudioPacketModel>,
) {
    match call {
        AssemblerCall::Push { datagram, now } => state.pushed(datagram, now),
        AssemblerCall::Expire { now } => (state.expired(now), None),
        AssemblerCall::Generation { generation } => (state.at_generation(generation), None),
    }
}

/// The state of a fresh assembler after a history of calls, and the packets that
/// it has completed, in their order.
pub open spec fn assembled(calls: Seq<AssemblerCall>) -> (
    AudioAssemblerModel,
    Seq<AudioPacketModel>,
)
    decreases calls.len(),
{
    if calls.len() == 0 {
        (AudioAssemblerModel::initial(), Seq::empty())
    } else {
        let (before, packets) = assembled(calls.drop_last());
        let (after, completed) = called(before, calls.last());
        (
            after,
            match completed {
                Some(packet) => packets.push(packet),
                None => packets,
            },
        )
    }
}

pub open spec fn was_pushed(calls: Seq<AssemblerCall>, datagram: Seq<u8>) -> bool {
    exists|i: int|
        0 <= i < calls.len() && (#[trigger] calls[i] matches AssemblerCall::Push {
            datagram: other,
            ..
        } && other == datagram)
}

/// The payloads of the fragments, one after the other.
pub open spec fn laid(fragments: Seq<Seq<u8>>) -> Seq<u8>
    decreases fragments.len(),
{
    if fragments.len() == 0 {
        Seq::empty()
    } else {
        laid(fragments.drop_last()) + fragments.last().skip(HEADER_SIZE as int)
    }
}

/// The packet is what the fragments say, one after the other: each starts where
/// the one before it ends, and all of them are as long as each of them says.
pub open spec fn is_made_of(packet: AudioPacketModel, fragments: Seq<Seq<u8>>) -> bool {
    &&& packet.payload == laid(fragments)
    &&& forall|i: int|
        0 <= i < fragments.len() ==> ({
            let header = Header::spelled(#[trigger] fragments[i]);
            &&& Header::is_fragment(fragments[i])
            &&& header.generation == packet.generation
            &&& header.sequence == packet.sequence
            &&& header.captured_at_micros == packet.captured_at_micros
            &&& header.decoded_samples == packet.decoded_samples
            &&& header.skip_start_samples == packet.skip_start_samples
            &&& header.skip_end_samples == packet.skip_end_samples
            &&& header.packet_size == packet.payload.len()
            &&& header.fragment_count == fragments.len()
            &&& header.fragment_index == i
            &&& header.offset == laid(fragments.take(i)).len()
        })
}

/// Each of the fragments was given to the assembler.
pub open spec fn were_pushed(calls: Seq<AssemblerCall>, fragments: Seq<Seq<u8>>) -> bool {
    forall|i: int| 0 <= i < fragments.len() ==> was_pushed(calls, #[trigger] fragments[i])
}

/// The packet is made of datagrams that the assembler was given.
pub open spec fn has_fragments(packet: AudioPacketModel, calls: Seq<AssemblerCall>) -> bool {
    exists|fragments: Seq<Seq<u8>>| #[trigger]
        is_made_of(packet, fragments) && were_pushed(calls, fragments)
}

/// The piece `index` of an open packet is the payload of `datagram`.
spec fn comes_from(
    packet: PartialModel,
    generation: u64,
    index: int,
    datagram: Seq<u8>,
) -> bool {
    let header = Header::spelled(datagram);
    let payload = datagram.skip(HEADER_SIZE as int);
    &&& Header::is_fragment(datagram)
    &&& header.generation == generation
    &&& header.sequence == packet.header.sequence
    &&& audio_assembly::same_packet(packet.header, header)
    &&& header.fragment_index == index
    &&& packet.pieces[index] == Some((header.offset as usize, payload.len() as usize))
    &&& packet.data.subrange(header.offset as int, header.offset + payload.len()) == payload
}

/// Each piece of an open packet is the payload of a datagram of the history.
spec fn is_sourced(packet: PartialModel, generation: u64, calls: Seq<AssemblerCall>) -> bool {
    forall|index: int|
        0 <= index < packet.pieces.len() && (#[trigger] packet.pieces[index]) is Some
            ==> exists|datagram: Seq<u8>|
            was_pushed(calls, datagram) && #[trigger] comes_from(
                packet,
                generation,
                index,
                datagram,
            )
}

spec fn are_sourced(state: AudioAssemblerModel, calls: Seq<AssemblerCall>) -> bool {
    forall|packet: PartialModel| #[trigger]
        state.partial.contains(packet) ==> is_sourced(packet, state.stats.generation, calls)
}

proof fn lemma_was_pushed_grows(calls: Seq<AssemblerCall>, datagram: Seq<u8>)
    requires
        calls.len() > 0,
        was_pushed(calls.drop_last(), datagram),
    ensures
        was_pushed(calls, datagram),
{
    let earlier = calls.drop_last();
    let i = choose|i: int|
        0 <= i < earlier.len() && (#[trigger] earlier[i] matches AssemblerCall::Push {
            datagram: other,
            ..
        } && other == datagram);
    assert(calls[i] == earlier[i]);
}

proof fn lemma_sources_grow(state: AudioAssemblerModel, calls: Seq<AssemblerCall>)
    requires
        calls.len() > 0,
        are_sourced(state, calls.drop_last()),
    ensures
        are_sourced(state, calls),
{
    let earlier = calls.drop_last();
    let generation = state.stats.generation;
    assert forall|packet: PartialModel| #[trigger] state.partial.contains(
        packet,
    ) implies is_sourced(packet, generation, calls) by {
        assert(is_sourced(packet, generation, earlier));
        assert forall|index: int|
            0 <= index < packet.pieces.len() && (
            #[trigger] packet.pieces[index]) is Some implies exists|datagram: Seq<u8>|
            was_pushed(calls, datagram) && #[trigger] comes_from(
                packet,
                generation,
                index,
                datagram,
            ) by {
            let datagram = choose|datagram: Seq<u8>|
                was_pushed(earlier, datagram) && #[trigger] comes_from(
                    packet,
                    generation,
                    index,
                    datagram,
                );
            lemma_was_pushed_grows(calls, datagram);
            assert(comes_from(packet, generation, index, datagram));
        }
    }
}

/// The payload of the fragment lies in `data` where `piece` says.
spec fn lies_in(fragment: Seq<u8>, piece: Option<(usize, usize)>, data: Seq<u8>) -> bool {
    let payload = fragment.skip(HEADER_SIZE as int);
    let offset = Header::spelled(fragment).offset as int;
    &&& piece matches Some((start, length))
    &&& start == offset
    &&& length == payload.len()
    &&& offset + payload.len() <= data.len()
    &&& data.subrange(offset, offset + payload.len()) == payload
}

#[verifier::spinoff_prover]
#[verifier::rlimit(60)]
proof fn lemma_laid(
    pieces: Seq<Option<(usize, usize)>>,
    data: Seq<u8>,
    fragments: Seq<Seq<u8>>,
)
    requires
        pieces.len() == fragments.len(),
        audio_assembly::gapless(pieces) is Some,
        forall|i: int|
            0 <= i < fragments.len() ==> lies_in(#[trigger] fragments[i], pieces[i], data),
    ensures
        audio_assembly::gapless(pieces)->0 <= data.len(),
        laid(fragments) == data.take(audio_assembly::gapless(pieces)->0 as int),
        forall|i: int|
            0 <= i < fragments.len() ==> Header::spelled(#[trigger] fragments[i]).offset == laid(
                fragments.take(i),
            ).len(),
    decreases pieces.len(),
{
    if pieces.len() == 0 {
        assert(laid(fragments) =~= data.take(0));
    } else {
        let fewer = fragments.drop_last();
        let last = fragments.last();
        assert forall|i: int| 0 <= i < fewer.len() implies lies_in(
            #[trigger] fewer[i],
            pieces.drop_last()[i],
            data,
        ) by {
            assert(fewer[i] == fragments[i]);
        }
        lemma_laid(pieces.drop_last(), data, fewer);
        let covered = audio_assembly::gapless(pieces.drop_last())->0 as int;
        let payload = last.skip(HEADER_SIZE as int);
        assert(lies_in(fragments[fragments.len() - 1], pieces[pieces.len() - 1], data));
        assert(Header::spelled(last).offset == covered);
        assert(laid(fragments) =~= data.take(covered + payload.len()));
        assert forall|i: int| 0 <= i < fragments.len() implies Header::spelled(
            #[trigger] fragments[i],
        ).offset == laid(fragments.take(i)).len() by {
            if i < fewer.len() {
                assert(fewer[i] == fragments[i]);
                assert(fewer.take(i) =~= fragments.take(i));
            } else {
                assert(fragments.take(i) =~= fewer);
            }
        }
    }
}

/// One more fragment in its packet: the pieces there are stay as they were.
proof fn lemma_grown_is_sourced(
    packet: PartialModel,
    generation: u64,
    datagram: Seq<u8>,
    calls: Seq<AssemblerCall>,
)
    requires
        packet.well_formed(),
        is_sourced(packet, generation, calls),
        was_pushed(calls, datagram),
        Header::is_fragment(datagram),
        ({
            let header = Header::spelled(datagram);
            let payload = datagram.skip(HEADER_SIZE as int);
            &&& header.generation == generation
            &&& header.sequence == packet.header.sequence
            &&& audio_assembly::same_packet(packet.header, header)
            &&& packet.pieces[header.fragment_index as int] is None
            &&& !audio_assembly::any_overlap(
                packet.pieces,
                header.offset as int,
                header.offset + payload.len(),
            )
        }),
    ensures
        ({
            let header = Header::spelled(datagram);
            let payload = datagram.skip(HEADER_SIZE as int);
            let grown = PartialModel {
                pieces: packet.pieces.update(
                    header.fragment_index as int,
                    Some((header.offset as usize, payload.len() as usize)),
                ),
                data: audio_assembly::overlaid(packet.data, header.offset as int, payload),
                ..packet
            };
            is_sourced(grown, generation, calls)
        }),
{
    let header = Header::spelled(datagram);
    let payload = datagram.skip(HEADER_SIZE as int);
    let offset = header.offset as int;
    let grown = PartialModel {
        pieces: packet.pieces.update(
            header.fragment_index as int,
            Some((header.offset as usize, payload.len() as usize)),
        ),
        data: audio_assembly::overlaid(packet.data, offset, payload),
        ..packet
    };
    assert forall|index: int|
        0 <= index < grown.pieces.len() && (
        #[trigger] grown.pieces[index]) is Some implies exists|source: Seq<u8>|
        was_pushed(calls, source) && #[trigger] comes_from(
            grown,
            generation,
            index,
            source,
        ) by {
        if index == header.fragment_index {
            assert(grown.data.subrange(offset, offset + payload.len()) =~= payload);
            assert(comes_from(grown, generation, index, datagram));
        } else {
            assert(packet.pieces[index] is Some);
            let source = choose|source: Seq<u8>|
                was_pushed(calls, source) && #[trigger] comes_from(
                    packet,
                    generation,
                    index,
                    source,
                );
            let other = Header::spelled(source);
            let part = source.skip(HEADER_SIZE as int);
            let start = other.offset as int;
            assert(!audio_assembly::overlaps(
                packet.pieces[index],
                offset,
                offset + payload.len(),
            ));
            assert(start + part.len() <= packet.data.len());
            assert(grown.data.subrange(start, start + part.len()) =~= packet.data.subrange(
                start,
                start + part.len(),
            ));
            assert(comes_from(grown, generation, index, source));
        }
    }
}

/// A packet whose pieces are all there and leave no gap is made of datagrams of
/// the history.
proof fn lemma_whole_is_made_of(
    whole: PartialModel,
    generation: u64,
    calls: Seq<AssemblerCall>,
    packet: AudioPacketModel,
)
    requires
        whole.well_formed(),
        is_sourced(whole, generation, calls),
        audio_assembly::all_there(whole.pieces),
        audio_assembly::gapless(whole.pieces) == Some(whole.header.packet_size as nat),
        packet.generation == generation,
        packet.sequence == whole.header.sequence,
        packet.captured_at_micros == whole.header.captured_at_micros,
        packet.decoded_samples == whole.header.decoded_samples,
        packet.skip_start_samples == whole.header.skip_start_samples,
        packet.skip_end_samples == whole.header.skip_end_samples,
        packet.payload == whole.data,
    ensures
        has_fragments(packet, calls),
{
    let fragments = Seq::new(
        whole.pieces.len(),
        |index: int|
            choose|datagram: Seq<u8>|
                was_pushed(calls, datagram) && #[trigger] comes_from(
                    whole,
                    generation,
                    index,
                    datagram,
                ),
    );
    assert forall|index: int| 0 <= index < fragments.len() implies was_pushed(
        calls,
        #[trigger] fragments[index],
    ) && comes_from(whole, generation, index, fragments[index]) by {
        assert(whole.pieces[index] is Some);
    }
    assert forall|index: int| 0 <= index < fragments.len() implies lies_in(
        #[trigger] fragments[index],
        whole.pieces[index],
        whole.data,
    ) by {
        assert(comes_from(whole, generation, index, fragments[index]));
    }
    lemma_laid(whole.pieces, whole.data, fragments);
    assert(whole.data.take(whole.data.len() as int) =~= whole.data);
    assert(is_made_of(packet, fragments));
}

/// A datagram leaves every piece with its source, and completes a packet only of
/// datagrams of the history.
proof fn lemma_pushed_is_sourced(
    state: AudioAssemblerModel,
    datagram: Seq<u8>,
    now: Instant,
    calls: Seq<AssemblerCall>,
)
    requires
        state.well_formed(),
        are_sourced(state, calls),
        was_pushed(calls, datagram),
    ensures
        are_sourced(state.pushed(datagram, now).0, calls),
        state.pushed(datagram, now).1 matches Some(packet) ==> has_fragments(packet, calls),
{
    let (after, completed) = state.pushed(datagram, now);
    let header = Header::spelled(datagram);
    let payload = datagram.skip(HEADER_SIZE as int);
    let fresh = state.expired(now);
    lemma_expired(state, now);
    if Header::is_fragment(datagram) && header.generation >= fresh.stats.generation {
        lemma_current(state, header.generation, now);
        let current = fresh.count_received().at_generation(header.generation);
        assert(are_sourced(current, calls)) by {
            assert forall|packet: PartialModel| #[trigger] current.partial.contains(
                packet,
            ) implies is_sourced(packet, current.stats.generation, calls) by {
                assert(state.partial.contains(packet));
            }
        }
        if !current.retired.dom().contains(header.sequence) && !(current.newest matches Some(newest)
            && !audio_assembly::in_window(newest, header.sequence)) {
            audio_laws::lemma_announced(current, header.sequence);
            lemma_announced_carries(current, header.sequence);
            let announced = current.announced(header.sequence);
            lemma_opened(announced, header, now);
            let opened = announced.opened(header, now);
            assert(are_sourced(opened, calls)) by {
                assert forall|packet: PartialModel| #[trigger] opened.partial.contains(
                    packet,
                ) implies is_sourced(packet, opened.stats.generation, calls) by {
                    if packet == PartialModel::opened(header, now) {
                        assert forall|index: int|
                            0 <= index < packet.pieces.len() implies (
                        #[trigger] packet.pieces[index]) is None by {
                        }
                    } else {
                        assert(announced.partial.contains(packet));
                        assert(current.partial.contains(packet));
                    }
                }
            }
            lemma_accepted_is_sourced(opened, datagram, calls);
        }
    }
}

proof fn lemma_accepted_is_sourced(
    state: AudioAssemblerModel,
    datagram: Seq<u8>,
    calls: Seq<AssemblerCall>,
)
    requires
        state.well_formed(),
        are_sourced(state, calls),
        was_pushed(calls, datagram),
        Header::is_fragment(datagram),
        Header::spelled(datagram).generation == state.stats.generation,
        audio_assembly::is_open(state.partial, Header::spelled(datagram).sequence),
    ensures
        ({
            let (after, completed) = state.accepted(
                Header::spelled(datagram),
                datagram.skip(HEADER_SIZE as int),
            );
            &&& are_sourced(after, calls)
            &&& completed matches Some(packet) ==> has_fragments(packet, calls)
        }),
{
    let header = Header::spelled(datagram);
    let payload = datagram.skip(HEADER_SIZE as int);
    let (after, completed) = state.accepted(header, payload);
    let generation = state.stats.generation;
    let place = audio_assembly::place_of(state.partial, header.sequence);
    let packet = state.partial[place];
    let index = header.fragment_index as int;
    assert(state.partial.contains(packet));
    audio_assembly::lemma_remove(state.partial, place);
    let removed = state.partial.remove(place);
    assert forall|other: PartialModel| #[trigger] removed.contains(
        other,
    ) implies state.partial.contains(other) by {
        let i = choose|i: int| 0 <= i < removed.len() && removed[i] == other;
        let j = if i < place {
            i
        } else {
            i + 1
        };
        assert(state.partial[j] == other);
    }
    let grown = PartialModel {
        pieces: packet.pieces.update(
            index,
            Some((header.offset as usize, payload.len() as usize)),
        ),
        data: audio_assembly::overlaid(packet.data, header.offset as int, payload),
        ..packet
    };
    if audio_assembly::same_packet(packet.header, header) && packet.pieces[index] is None
        && !audio_assembly::any_overlap(
        packet.pieces,
        header.offset as int,
        header.offset + payload.len(),
    ) {
        lemma_grown_is_sourced(packet, generation, datagram, calls);
        if completed is Some {
            assert(grown.well_formed()) by {
                assert forall|i: int| 0 <= i < grown.pieces.len() implies (
                #[trigger] grown.pieces[i] matches Some((start, length)) ==> start + length
                    <= grown.header.packet_size) by {
                    if i != index {
                        assert(grown.pieces[i] == packet.pieces[i]);
                    }
                }
            }
            lemma_whole_is_made_of(grown, generation, calls, completed->0);
        }
    }
    assert forall|other: PartialModel| #[trigger] after.partial.contains(other) implies is_sourced(
        other,
        generation,
        calls,
    ) by {
        let updated = state.partial.update(place, grown);
        if after.partial == updated && !state.partial.contains(other) {
            let i = choose|i: int| 0 <= i < updated.len() && updated[i] == other;
            if i != place {
                assert(state.partial[i] == other);
            }
        }
    }
}

/// The packets of a history and the state that it leaves go together.
spec fn accounts_for(
    state: AudioAssemblerModel,
    packets: Seq<AudioPacketModel>,
    calls: Seq<AssemblerCall>,
) -> bool {
    &&& state.well_formed()
    &&& are_sourced(state, calls)
    &&& forall|i: int|
        0 <= i < packets.len() ==> remembers(
            state,
            (#[trigger] packets[i]).generation,
            packets[i].sequence,
        ) && packets[i].generation <= state.stats.generation
}

/// Whatever is asked of a fresh assembler, it completes no packet of the same
/// generation and sequence twice, and the generations never fall.
pub proof fn law_no_packet_is_completed_twice(calls: Seq<AssemblerCall>)
    ensures
        ({
            let packets = assembled(calls).1;
            forall|i: int, j: int|
                #![trigger packets[i], packets[j]]
                0 <= i < j < packets.len() ==> {
                    &&& packets[i].generation <= packets[j].generation
                    &&& packets[i].generation != packets[j].generation || packets[i].sequence
                        != packets[j].sequence
                }
        }),
{
    lemma_history(calls);
}

/// Whatever is asked of a fresh assembler, each packet that it completes is made
/// of datagrams that it was given: they follow one another without a gap or an
/// overlap, and are as many and as long as each of them says.
pub proof fn law_packets_are_made_of_their_fragments(calls: Seq<AssemblerCall>)
    ensures
        ({
            let packets = assembled(calls).1;
            forall|i: int|
                0 <= i < packets.len() ==> has_fragments(#[trigger] packets[i], calls)
        }),
{
    lemma_history(calls);
}

proof fn lemma_history(calls: Seq<AssemblerCall>)
    ensures
        ({
            let (state, packets) = assembled(calls);
            &&& accounts_for(state, packets, calls)
            &&& forall|i: int, j: int|
                #![trigger packets[i], packets[j]]
                0 <= i < j < packets.len() ==> {
                    &&& packets[i].generation <= packets[j].generation
                    &&& packets[i].generation != packets[j].generation || packets[i].sequence
                        != packets[j].sequence
                }
            &&& forall|i: int|
                0 <= i < packets.len() ==> has_fragments(#[trigger] packets[i], calls)
        }),
    decreases calls.len(),
{
    let (state, packets) = assembled(calls);
    if calls.len() > 0 {
        let earlier = calls.drop_last();
        let call = calls.last();
        lemma_history(earlier);
        let (before, told) = assembled(earlier);
        let completed = called(before, call).1;
        lemma_sources_grow(before, calls);
        lemma_called(before, call, calls);
        assert forall|i: int| 0 <= i < told.len() implies remembers(
            state,
            (#[trigger] told[i]).generation,
            told[i].sequence,
        ) && told[i].generation <= state.stats.generation by {
            assert(remembers(before, told[i].generation, told[i].sequence));
        }
        assert forall|i: int| 0 <= i < told.len() implies has_fragments(
            #[trigger] told[i],
            calls,
        ) by {
            let fragments = choose|fragments: Seq<Seq<u8>>| #[trigger]
                is_made_of(told[i], fragments) && were_pushed(earlier, fragments);
            assert(were_pushed(calls, fragments)) by {
                assert forall|k: int| 0 <= k < fragments.len() implies was_pushed(
                    calls,
                    #[trigger] fragments[k],
                ) by {
                    lemma_was_pushed_grows(calls, fragments[k]);
                }
            }
            assert(is_made_of(told[i], fragments));
        }
        assert forall|i: int| 0 <= i < packets.len() implies (#[trigger] packets[i]) == if i
            < told.len() {
            told[i]
        } else {
            completed->0
        } by {
        }
        assert forall|i: int, j: int|
            #![trigger packets[i], packets[j]]
            0 <= i < j < packets.len() implies {
            &&& packets[i].generation <= packets[j].generation
            &&& packets[i].generation != packets[j].generation || packets[i].sequence
                != packets[j].sequence
        } by {
            assert(packets[i] == told[i]);
            if j == told.len() {
                assert(remembers(before, told[i].generation, told[i].sequence));
            } else {
                assert(packets[j] == told[j]);
            }
        }
    }
}

proof fn lemma_called(
    state: AudioAssemblerModel,
    call: AssemblerCall,
    calls: Seq<AssemblerCall>,
)
    requires
        state.well_formed(),
        are_sourced(state, calls),
        calls.len() > 0,
        calls.last() == call,
    ensures
        ({
            let (after, completed) = called(state, call);
            &&& after.well_formed()
            &&& are_sourced(after, calls)
            &&& state.stats.generation <= after.stats.generation
            &&& forall|generation: u64, sequence: u64| #[trigger]
                remembers(state, generation, sequence) ==> remembers(after, generation, sequence)
            &&& completed matches Some(packet) ==> {
                &&& packet.generation == after.stats.generation
                &&& remembers(after, packet.generation, packet.sequence)
                &&& !remembers(state, packet.generation, packet.sequence)
                &&& has_fragments(packet, calls)
            }
        }),
{
    let after = called(state, call).0;
    match call {
        AssemblerCall::Push { datagram, now } => {
            assert(calls[calls.len() - 1] == call);
            assert(was_pushed(calls, datagram));
            lemma_pushed(state, datagram, now);
            lemma_pushed_is_sourced(state, datagram, now, calls);
        },
        AssemblerCall::Expire { now } => {
            lemma_expired(state, now);
        },
        AssemblerCall::Generation { generation } => {
            assert forall|packet: PartialModel| #[trigger] after.partial.contains(
                packet,
            ) implies is_sourced(packet, after.stats.generation, calls) by {
                assert(state.partial.contains(packet));
            }
        },
    }
}

/// The packets that are left have been open for less than 40 ms; the others are
/// retired as not completed, and counted.
proof fn lemma_waited_for(state: AudioAssemblerModel, now: Instant)
    requires
        audio_assembly::in_order(state.partial),
    ensures
        ({
            let after = state.timed_out(now);
            &&& forall|i: int|
                0 <= i < after.partial.len() ==> now.nanos < (
                #[trigger] after.partial[i]).started.nanos + 40_000_000
            &&& forall|j: int|
                0 <= j < state.partial.len() && now.nanos < (
                #[trigger] state.partial[j]).started.nanos + 40_000_000 ==> after.partial.contains(
                    state.partial[j],
                )
            &&& forall|j: int|
                0 <= j < state.partial.len() && (#[trigger] state.partial[j]).started.nanos
                    + 40_000_000 <= now.nanos ==> after.retired.dom().contains(
                    state.partial[j].header.sequence,
                ) && !after.retired[state.partial[j].header.sequence]
            &&& state.stats.expired_packets + state.partial.len() <= u64::MAX
                ==> after.stats.expired_packets + after.partial.len()
                == state.stats.expired_packets + state.partial.len()
            &&& after.stats.received_fragments == state.stats.received_fragments
            &&& after.stats.late_fragments == state.stats.late_fragments
            &&& after.stats.duplicate_fragments == state.stats.duplicate_fragments
            &&& after.stats.malformed_fragments == state.stats.malformed_fragments
            &&& after.stats.completed_packets == state.stats.completed_packets
            &&& after.stats.missing_packets == state.stats.missing_packets
        }),
    decreases state.partial.len(),
{
    if state.partial.len() > 0 {
        let shorter = AudioAssemblerModel { partial: state.partial.drop_last(), ..state };
        assert(audio_assembly::in_order(shorter.partial)) by {
            assert forall|i: int, j: int|
                #![trigger shorter.partial[i], shorter.partial[j]]
                0 <= i < j < shorter.partial.len() implies shorter.partial[i].header.sequence
                < shorter.partial[j].header.sequence by {
                assert(state.partial[i].header.sequence < state.partial[j].header.sequence);
            }
        }
        lemma_waited_for(shorter, now);
        audio_assembly::lemma_timed_out(shorter, now);
        let before = shorter.timed_out(now);
        let after = state.timed_out(now);
        let last = state.partial.last();
        assert(state.partial[state.partial.len() - 1] == last);
        assert forall|i: int| 0 <= i < after.partial.len() implies now.nanos < (
        #[trigger] after.partial[i]).started.nanos + 40_000_000 by {
            if i < before.partial.len() {
                assert(after.partial[i] == before.partial[i]);
            }
        }
        assert forall|j: int|
            0 <= j < state.partial.len() && now.nanos < (
            #[trigger] state.partial[j]).started.nanos + 40_000_000 implies after.partial.contains(
            state.partial[j],
        ) by {
            if j < shorter.partial.len() {
                assert(shorter.partial[j] == state.partial[j]);
                let k = choose|k: int|
                    0 <= k < before.partial.len() && before.partial[k] == shorter.partial[j];
                assert(after.partial[k] == state.partial[j]);
            } else {
                assert(after.partial[after.partial.len() - 1] == last);
            }
        }
        assert forall|j: int|
            0 <= j < state.partial.len() && (#[trigger] state.partial[j]).started.nanos
                + 40_000_000 <= now.nanos implies after.retired.dom().contains(
            state.partial[j].header.sequence,
        ) && !after.retired[state.partial[j].header.sequence] by {
            if j < shorter.partial.len() {
                assert(shorter.partial[j] == state.partial[j]);
            }
        }
    }
}

/// A packet that is open after a datagram at `now` has been open for less than
/// 40 ms: it was open before, since the same time and of the same header, or the
/// datagram opened it. At most four are open.
pub proof fn law_no_packet_waits_longer(
    state: AudioAssemblerModel,
    datagram: Seq<u8>,
    now: Instant,
    place: int,
)
    requires
        state.well_formed(),
        0 <= place < state.pushed(datagram, now).0.partial.len(),
    ensures
        ({
            let after = state.pushed(datagram, now).0;
            let open = after.partial[place];
            let was_open = exists|k: int|
                0 <= k < state.partial.len() && (#[trigger] state.partial[k]).header
                    == open.header && state.partial[k].started == open.started;
            &&& after.partial.len() <= 4
            &&& now.nanos < open.started.nanos + 40_000_000
            &&& !was_open ==> open.started == now && open.header == Header::spelled(datagram)
        }),
{
    let after = state.pushed(datagram, now).0;
    let open = after.partial[place];
    let header = Header::spelled(datagram);
    let fresh = state.expired(now);
    lemma_pushed(state, datagram, now);
    lemma_waited_for(state, now);
    lemma_expired(state, now);
    let met = fresh.count_received();
    if Header::is_fragment(datagram) && header.generation >= met.stats.generation {
        lemma_current(state, header.generation, now);
        let current = met.at_generation(header.generation);
        let wanted = !current.retired.dom().contains(header.sequence) && !(
        current.newest matches Some(newest) && !audio_assembly::in_window(newest, header.sequence));
        if wanted {
            lemma_announced_carries(current, header.sequence);
            audio_laws::lemma_announced(current, header.sequence);
            let announced = current.announced(header.sequence);
            lemma_opened(announced, header, now);
            let opened = announced.opened(header, now);
            let spot = audio_assembly::place_of(opened.partial, header.sequence);
            let k = if after.partial == opened.partial.remove(spot) && place >= spot {
                place + 1
            } else {
                place
            };
            assert(opened.partial[k].header == open.header);
            assert(opened.partial[k].started == open.started);
            let source = opened.partial[k];
            assert(opened.partial.contains(source));
            if source != PartialModel::opened(header, now) {
                assert(announced.partial.contains(source));
                assert(current.partial.contains(source));
                assert(fresh.partial.contains(source));
                assert(state.partial.contains(source));
            }
        } else {
            assert(current.partial.contains(open));
            assert(fresh.partial.contains(open));
            assert(state.partial.contains(open));
        }
    } else {
        assert(fresh.partial.contains(open));
        assert(state.partial.contains(open));
    }
}

/// A fragment that comes 40 ms or more after the first of its packet is late:
/// it leads to no packet, and is counted as received and late.
pub proof fn law_a_late_fragment_completes_nothing(
    state: AudioAssemblerModel,
    datagram: Seq<u8>,
    now: Instant,
    open: int,
)
    requires
        state.well_formed(),
        state.stats.late_fragments < u64::MAX,
        state.stats.received_fragments < u64::MAX,
        0 <= open < state.partial.len(),
        state.partial[open].started.nanos + 40_000_000 <= now.nanos,
        Header::is_fragment(datagram),
        Header::spelled(datagram).generation == state.stats.generation,
        Header::spelled(datagram).sequence == state.partial[open].header.sequence,
    ensures
        state.pushed(datagram, now).1 is None,
        state.pushed(datagram, now).0.stats.late_fragments == state.stats.late_fragments + 1,
        state.pushed(datagram, now).0.stats.received_fragments == state.stats.received_fragments
            + 1,
{
    lemma_waited_for(state, now);
    lemma_expired(state, now);
    let sequence = state.partial[open].header.sequence;
    assert(state.timed_out(now).retired.dom().contains(sequence));
    assert(state.newest is Some);
}

/// A fragment of an older generation is late. One of a newer generation ends
/// all that is of the one before: what is open after it is its own packet, and
/// what was open is counted as expired.
pub proof fn law_generations_replace_one_another(
    state: AudioAssemblerModel,
    datagram: Seq<u8>,
    now: Instant,
)
    requires
        state.well_formed(),
        Header::is_fragment(datagram),
        state.stats.late_fragments < u64::MAX,
    ensures
        ({
            let header = Header::spelled(datagram);
            let (after, completed) = state.pushed(datagram, now);
            &&& header.generation < state.stats.generation ==> {
                &&& completed is None
                &&& after.stats.late_fragments == state.stats.late_fragments + 1
                &&& after.stats.generation == state.stats.generation
                &&& after.newest == state.newest
            }
            &&& header.generation >= state.stats.generation ==> after.stats.generation
                == header.generation
            &&& header.generation > state.stats.generation ==> {
                &&& after.newest == Some(header.sequence)
                &&& after.partial.len() <= 1
                &&& forall|i: int|
                    0 <= i < after.partial.len() ==> (#[trigger] after.partial[i]).header == header
                        && after.partial[i].started == now
                &&& state.stats.expired_packets + 4 <= u64::MAX ==> after.stats.expired_packets
                    == state.stats.expired_packets + state.partial.len()
            }
        }),
{
    let header = Header::spelled(datagram);
    lemma_waited_for(state, now);
    lemma_expired(state, now);
    lemma_pushed(state, datagram, now);
    if header.generation > state.stats.generation {
        lemma_current(state, header.generation, now);
        let current = state.expired(now).count_received().at_generation(header.generation);
        lemma_announced_carries(current, header.sequence);
        audio_laws::lemma_announced(current, header.sequence);
        let announced = current.announced(header.sequence);
        assert(announced.partial.len() == 0);
        lemma_opened(announced, header, now);
        let opened = announced.opened(header, now);
        assert(opened.partial.len() == 1);
        assert(opened.partial[0] == PartialModel::opened(header, now));
    }
}

/// A fragment of a sequence that is more than three behind the newest is late;
/// one that is wanted moves the newest up, and the sequences that it skips are
/// awaited where they are at most three behind it. A sequence of which something
/// came is awaited no more.
pub proof fn law_skipped_sequences_are_awaited(
    state: AudioAssemblerModel,
    datagram: Seq<u8>,
    now: Instant,
)
    requires
        state.well_formed(),
        Header::is_fragment(datagram),
        Header::spelled(datagram).generation == state.stats.generation,
        state.stats.late_fragments < u64::MAX,
    ensures
        ({
            let sequence = Header::spelled(datagram).sequence;
            let (after, completed) = state.pushed(datagram, now);
            let too_far = state.newest matches Some(newest) && sequence + 3 < newest;
            &&& too_far ==> {
                &&& completed is None
                &&& after.newest == state.newest
                &&& after.stats.late_fragments == state.stats.late_fragments + 1
            }
            &&& !too_far && !state.timed_out(now).retired.dom().contains(sequence) ==> {
                &&& match state.newest {
                    Some(newest) => after.newest == Some(
                        if newest >= sequence {
                            newest
                        } else {
                            sequence
                        },
                    ),
                    None => after.newest == Some(sequence),
                }
                &&& forall|k: u64| #[trigger]
                    after.missing.contains(k) <==> {
                        &&& k != sequence
                        &&& k + 3 >= after.newest->0
                        &&& state.missing.contains(k) || (k < sequence && match state.newest {
                            Some(newest) => newest < k,
                            None => true,
                        })
                    }
            }
        }),
{
    let header = Header::spelled(datagram);
    let sequence = header.sequence;
    lemma_waited_for(state, now);
    lemma_expired(state, now);
    audio_assembly::lemma_timed_out(state, now);
    lemma_current(state, header.generation, now);
    let current = state.expired(now).count_received().at_generation(header.generation);
    let wanted = !current.retired.dom().contains(sequence) && !(current.newest matches Some(newest)
        && !audio_assembly::in_window(newest, sequence));
    if wanted {
        lemma_announced_carries(current, sequence);
        audio_laws::lemma_announced(current, sequence);
        let announced = current.announced(sequence);
        lemma_opened(announced, header, now);
        assert(state.pushed(datagram, now).0.missing == announced.missing);
        assert(state.pushed(datagram, now).0.newest == announced.newest);
    }
}

/// What a fragment does to its packet. One that tells another packet, that
/// comes again with other bytes, or that covers a byte of another fragment, ends
/// the packet as malformed. One that comes again as it was is a duplicate and
/// changes nothing. Any other takes its place, and the others keep theirs.
#[verifier::spinoff_prover]
#[verifier::rlimit(60)]
pub proof fn law_what_a_fragment_does_to_its_packet(
    state: AudioAssemblerModel,
    header: Header,
    payload: Seq<u8>,
    k: int,
)
    requires
        state.well_formed(),
        header.well_formed(),
        payload.len() == header.payload_size,
        audio_assembly::is_open(state.partial, header.sequence),
        state.stats.malformed_fragments < u64::MAX,
        state.stats.duplicate_fragments < u64::MAX,
        state.stats.completed_packets < u64::MAX,
    ensures
        ({
            let place = audio_assembly::place_of(state.partial, header.sequence);
            let packet = state.partial[place];
            let index = header.fragment_index as int;
            let offset = header.offset as int;
            let end = offset + payload.len();
            let (after, completed) = state.accepted(header, payload);
            let same = packet.header.captured_at_micros == header.captured_at_micros
                && packet.header.packet_size == header.packet_size && packet.header.fragment_count
                == header.fragment_count && packet.header.decoded_samples == header.decoded_samples
                && packet.header.skip_start_samples == header.skip_start_samples
                && packet.header.skip_end_samples == header.skip_end_samples;
            let again = packet.pieces[index] is Some;
            let as_it_was = packet.pieces[index] == Some(
                (header.offset as usize, payload.len() as usize),
            ) && packet.data.subrange(offset, end) == payload;
            let covers = 0 <= k < packet.pieces.len() && (packet.pieces[k] matches Some(
                (start, length),
            ) && offset < start + length && start < end);
            let malformed = after.stats.malformed_fragments == state.stats.malformed_fragments + 1;
            &&& malformed || after.stats.malformed_fragments == state.stats.malformed_fragments
            &&& !same ==> malformed
            &&& same && again && !as_it_was ==> malformed
            &&& same && !again && covers ==> malformed
            &&& malformed ==> completed is None && forall|i: int|
                0 <= i < after.partial.len() ==> (#[trigger] after.partial[i]).header.sequence
                    != header.sequence
            &&& same && again && as_it_was ==> completed is None && after.partial == state.partial
                && after.stats.duplicate_fragments == state.stats.duplicate_fragments + 1
            &&& !(same && again && as_it_was) ==> after.stats.duplicate_fragments
                == state.stats.duplicate_fragments
            &&& completed is Some <==> after.stats.completed_packets
                == state.stats.completed_packets + 1
            &&& completed is None ==> after.stats.completed_packets
                == state.stats.completed_packets
            &&& completed matches Some(whole) ==> forall|i: int|
                0 <= i < whole.payload.len() ==> #[trigger] whole.payload[i] == if offset <= i
                    < end {
                    payload[i - offset]
                } else {
                    packet.data[i]
                }
            &&& !malformed && !again && completed is None ==> {
                let grown = after.partial[place];
                &&& grown.header == packet.header && grown.started == packet.started
                &&& grown.pieces.len() == packet.pieces.len()
                &&& grown.pieces[index] == Some((header.offset as usize, payload.len() as usize))
                &&& 0 <= k < packet.pieces.len() && k != index ==> grown.pieces[k]
                    == packet.pieces[k]
                &&& exists|i: int| 0 <= i < grown.pieces.len() && #[trigger] grown.pieces[i] is None
                &&& forall|i: int|
                    0 <= i < packet.data.len() ==> #[trigger] grown.data[i] == if offset <= i
                        < end {
                        payload[i - offset]
                    } else {
                        packet.data[i]
                    }
            }
        }),
{
    let place = audio_assembly::place_of(state.partial, header.sequence);
    let packet = state.partial[place];
    assert(packet.well_formed());
    audio_assembly::lemma_place_of(state.partial, header.sequence);
    audio_assembly::lemma_remove(state.partial, place);
    let offset = header.offset as int;
    let end = offset + payload.len();
    if 0 <= k < packet.pieces.len() && audio_assembly::overlaps(packet.pieces[k], offset, end) {
        assert(audio_assembly::any_overlap(packet.pieces, offset, end));
    }
    assert forall|i: int| 0 <= i < state.partial.remove(place).len() implies (
    #[trigger] state.partial.remove(place)[i]).header.sequence != header.sequence by {
        if i < place {
            assert(state.partial[i].header.sequence < state.partial[place].header.sequence);
        } else {
            assert(state.partial[place].header.sequence < state.partial[i + 1].header.sequence);
        }
    }
}

/// What giving up packets counts: each as expired, and nothing else.
proof fn lemma_timed_out_counts(state: AudioAssemblerModel, now: Instant)
    ensures
        ({
            let after = state.timed_out(now).stats;
            &&& after.received_fragments == state.stats.received_fragments
            &&& after.completed_packets == state.stats.completed_packets
            &&& after.payload_bytes == state.stats.payload_bytes
            &&& after.overflow_packets == state.stats.overflow_packets
            &&& after.late_fragments == state.stats.late_fragments
            &&& after.duplicate_fragments == state.stats.duplicate_fragments
            &&& after.malformed_fragments == state.stats.malformed_fragments
            &&& after.missing_packets == state.stats.missing_packets
            &&& state.stats.expired_packets + state.partial.len() <= u64::MAX
                ==> after.expired_packets + state.timed_out(now).partial.len()
                == state.stats.expired_packets + state.partial.len()
            &&& state.timed_out(now).partial.len() <= state.partial.len()
        }),
    decreases state.partial.len(),
{
    if state.partial.len() > 0 {
        lemma_timed_out_counts(
            AudioAssemblerModel { partial: state.partial.drop_last(), ..state },
            now,
        );
    }
}

/// What a datagram counts, as long as no count is at its end. One that is no
/// fragment is malformed and no more. A fragment is received, and then at most
/// one of late, duplicate, malformed and the last of its packet. One of a
/// sequence that is over is a duplicate where its packet was completed, and late
/// where it was not. A fifth packet pushes out the oldest.
#[verifier::spinoff_prover]
#[verifier::rlimit(60)]
pub proof fn law_what_a_fragment_counts(
    state: AudioAssemblerModel,
    datagram: Seq<u8>,
    now: Instant,
)
    requires
        state.well_formed(),
        state.stats.received_fragments < u64::MAX,
        state.stats.late_fragments < u64::MAX,
        state.stats.duplicate_fragments < u64::MAX,
        state.stats.malformed_fragments < u64::MAX,
        state.stats.completed_packets < u64::MAX,
        state.stats.overflow_packets < u64::MAX,
    ensures
        ({
            let before = state.stats;
            let (after, completed) = state.pushed(datagram, now);
            let is_fragment = Header::is_fragment(datagram);
            let header = Header::spelled(datagram);
            let late = after.stats.late_fragments - before.late_fragments;
            let duplicate = after.stats.duplicate_fragments - before.duplicate_fragments;
            let malformed = after.stats.malformed_fragments - before.malformed_fragments;
            let whole = after.stats.completed_packets - before.completed_packets;
            &&& after.stats.received_fragments == before.received_fragments + if is_fragment {
                1int
            } else {
                0
            }
            &&& late >= 0 && duplicate >= 0 && malformed >= 0 && whole >= 0
            &&& late + duplicate + malformed + whole <= 1
            &&& !is_fragment ==> malformed == 1 && completed is None
            &&& whole == 1 <==> completed is Some
            &&& 0 <= after.stats.overflow_packets - before.overflow_packets <= 1
            &&& after.stats.overflow_packets > before.overflow_packets ==> is_fragment
                && state.partial.len() == 4 && header.generation == before.generation
            &&& is_fragment && header.generation == before.generation && (
            state.newest matches Some(newest) && header.sequence + 3 >= newest) && state.timed_out(
                now,
            ).retired.dom().contains(header.sequence) ==> if state.timed_out(
                now,
            ).retired[header.sequence] {
                duplicate == 1
            } else {
                late == 1
            }
        }),
{
    audio_assembly::lemma_timed_out_well_formed(state, now);
    audio_assembly::lemma_trimmed_well_formed(state.timed_out(now));
    lemma_timed_out_counts(state, now);
    audio_assembly::lemma_timed_out(state, now);
    let header = Header::spelled(datagram);
    if let Some(newest) = state.newest {
        assert(audio_assembly::in_window(newest, header.sequence) <==> header.sequence + 3
            >= newest);
        assert(audio_assembly::window(newest).contains(header.sequence) <==> header.sequence + 3
            >= newest);
    }
}

} // verus!
