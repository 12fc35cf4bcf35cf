//! What packetization and assembly of video frames promise together.

use crate::session::chunking;
use crate::session::video_assembly;
use crate::session::video_assembly::{
    AssemblerModel, AssemblyModel, PartialModel, MAX_PARTIAL_FRAMES,
};
use crate::session::video_datagram;
use crate::session::video_datagram::{
    Header, VideoDatagramError, VideoFrameModel, VIDEO_DATAGRAM_HEADER_SIZE,
};
use crate::time::{Duration, Instant};
use vstd::prelude::*;

verus! {

/// The frame can be cut into datagrams of `capacity` payload bytes.
pub open spec fn can_be_cut(frame: VideoFrameModel, capacity: nat) -> bool {
    &&& 0 < frame.payload.len() <= video_datagram::MAX_ENCODED_FRAME_SIZE
    &&& capacity > 0
    &&& chunking::chunks_needed(frame.payload.len(), capacity) <= u16::MAX
}

pub open spec fn count_of(frame: VideoFrameModel, capacity: nat) -> nat {
    chunking::chunks_needed(frame.payload.len(), capacity)
}

/// The chunks of a frame of which those in `received` have come.
pub open spec fn chunks_held(frame: VideoFrameModel, capacity: nat, received: Seq<int>) -> Seq<
    Option<Seq<u8>>,
> {
    Seq::new(
        count_of(frame, capacity),
        |i: int|
            if received.contains(i) {
                Some(chunking::chunk_of(frame.payload, capacity, i))
            } else {
                None
            },
    )
}

/// The assembler has the frame open until `deadline`, with the chunks in `received`.
pub open spec fn holds(
    state: AssemblerModel,
    frame: VideoFrameModel,
    capacity: nat,
    received: Seq<int>,
    deadline: Instant,
) -> bool {
    &&& state.well_formed()
    &&& awaits(state, frame.sequence)
    &&& video_assembly::is_open(state.partial, frame.sequence)
    &&& ({
        let held = state.partial[video_assembly::place_of(state.partial, frame.sequence)];
        &&& held.header.same_frame(
            video_datagram::header_of(frame, 0, count_of(frame, capacity)),
        )
        &&& held.chunks == chunks_held(frame, capacity, received)
        &&& held.deadline == deadline
    })
}

/// Datagrams of `sequence` are neither done with nor behind.
pub open spec fn awaits(state: AssemblerModel, sequence: u64) -> bool {
    &&& state.newest_completed_sequence matches Some(done) ==> done < sequence
    &&& state.newest_sequence matches Some(newest) ==> newest <= sequence.saturating_add(2)
}

/// A datagram led to `frame`, or to none, and `received` of the chunks are there.
pub open spec fn tells(
    result: Result<AssemblyModel, VideoDatagramError>,
    frame: Option<VideoFrameModel>,
    received: nat,
    expected: nat,
) -> bool {
    &&& result matches Ok(assembly)
    &&& assembly.frame == frame
    &&& assembly.progress matches Some(progress)
    &&& progress.received_chunks == received
    &&& progress.expected_chunks == expected
}

/// A datagram led to no loss.
pub open spec fn is_lossless(result: Result<AssemblyModel, VideoDatagramError>) -> bool {
    result matches Ok(assembly) && !assembly.dependency_lost
}

/// No frame before `sequence` is left out, as far as any was completed.
pub open spec fn follows(state: AssemblerModel, sequence: u64) -> bool {
    state.newest_completed_sequence matches Some(done) ==> sequence <= done.saturating_add(1)
}

/// No frame but `sequence` is open, and none before it is left out.
pub open spec fn is_alone(state: AssemblerModel, sequence: u64) -> bool {
    &&& state.partial.len() <= 1
    &&& state.partial.len() == 1 ==> state.partial[0].header.sequence == sequence
    &&& follows(state, sequence)
}

proof fn lemma_header_is_well_formed(frame: VideoFrameModel, capacity: nat, index: int)
    requires
        can_be_cut(frame, capacity),
        0 <= index < count_of(frame, capacity),
    ensures
        video_datagram::header_of(frame, index, count_of(frame, capacity)).well_formed(),
        chunking::chunk_of(frame.payload, capacity, index).len() > 0,
        ({
            let datagram = video_datagram::datagrams_of(frame, capacity)[index];
            &&& Header::is_chunk(datagram)
            &&& Header::spelled(datagram) == video_datagram::header_of(
                frame,
                index,
                count_of(frame, capacity),
            )
            &&& datagram.skip(VIDEO_DATAGRAM_HEADER_SIZE as int) == chunking::chunk_of(
                frame.payload,
                capacity,
                index,
            )
        }),
{
    chunking::lemma_chunks_needed(frame.payload.len(), capacity);
    chunking::lemma_chunk_bounds(frame.payload.len(), capacity, index);
    let header = video_datagram::header_of(frame, index, count_of(frame, capacity));
    let chunk = chunking::chunk_of(frame.payload, capacity, index);
    video_datagram::lemma_chunk_round_trip(header, chunk);
}

proof fn lemma_full_chunks_join(frame: VideoFrameModel, capacity: nat, count: int)
    requires
        can_be_cut(frame, capacity),
        0 <= count <= count_of(frame, capacity),
    ensures
        ({
            let full = Seq::new(
                count_of(frame, capacity),
                |i: int| Some(chunking::chunk_of(frame.payload, capacity, i)),
            );
            let end = if count == count_of(frame, capacity) {
                frame.payload.len() as int
            } else {
                count * capacity
            };
            &&& 0 <= end <= frame.payload.len()
            &&& video_assembly::joined(full.take(count)) == frame.payload.take(end)
        }),
    decreases count,
{
    let total = count_of(frame, capacity);
    let full = Seq::new(
        total,
        |i: int| Some(chunking::chunk_of(frame.payload, capacity, i)),
    );
    chunking::lemma_chunks_needed(frame.payload.len(), capacity);
    if count == 0 {
        assert(0 * capacity == 0);
        assert(video_assembly::joined(full.take(0)) =~= frame.payload.take(0));
    } else {
        lemma_full_chunks_join(frame, capacity, count - 1);
        chunking::lemma_chunk_bounds(frame.payload.len(), capacity, count - 1);
        assert(full.take(count).drop_last() =~= full.take(count - 1));
        assert(full.take(count).last() == full[count - 1]);
        let start = (count - 1) * capacity;
        let end = if count == total {
            frame.payload.len() as int
        } else {
            count * capacity
        };
        assert(frame.payload.take(start) + frame.payload.subrange(start, end)
            =~= frame.payload.take(end));
    }
}

proof fn lemma_fewer_chunks_fewer_bytes(some: Seq<Option<Seq<u8>>>, all: Seq<Option<Seq<u8>>>)
    requires
        some.len() == all.len(),
        forall|i: int| 0 <= i < some.len() ==> (#[trigger] some[i]) is None || some[i] == all[i],
    ensures
        video_assembly::present_bytes(some) <= video_assembly::present_bytes(all),
    decreases some.len(),
{
    if some.len() > 0 {
        let shorter = some.drop_last();
        assert forall|i: int| 0 <= i < shorter.len() implies (#[trigger] shorter[i]) is None
            || shorter[i] == all.drop_last()[i] by {
            assert(some[i] is None || some[i] == all[i]);
        }
        lemma_fewer_chunks_fewer_bytes(shorter, all.drop_last());
        assert(some[some.len() - 1] is None || some[some.len() - 1] == all[some.len() - 1]);
    }
}

/// No selection of chunks has more bytes than the frame, and all of them are the frame.
proof fn lemma_chunks_held(frame: VideoFrameModel, capacity: nat, received: Seq<int>)
    requires
        can_be_cut(frame, capacity),
    ensures
        video_assembly::present_bytes(chunks_held(frame, capacity, received))
            <= frame.payload.len(),
        video_assembly::all_present(chunks_held(frame, capacity, received))
            ==> video_assembly::joined(chunks_held(frame, capacity, received)) == frame.payload
            && video_assembly::present_bytes(chunks_held(frame, capacity, received))
            == frame.payload.len(),
{
    let total = count_of(frame, capacity);
    let held = chunks_held(frame, capacity, received);
    let full = Seq::new(
        total,
        |i: int| Some(chunking::chunk_of(frame.payload, capacity, i)),
    );
    lemma_full_chunks_join(frame, capacity, total as int);
    assert(full.take(total as int) =~= full);
    assert(frame.payload.take(frame.payload.len() as int) =~= frame.payload);
    video_assembly::lemma_joined_size(full);
    lemma_fewer_chunks_fewer_bytes(held, full);
    if video_assembly::all_present(held) {
        assert forall|i: int| 0 <= i < total implies held[i] == full[i] by {
            assert(held[i] is Some);
        }
        assert(held =~= full);
    }
}

/// As many chunks are held as have come.
proof fn lemma_held_count(frame: VideoFrameModel, capacity: nat, received: Seq<int>)
    requires
        is_order(received, count_of(frame, capacity)),
    ensures
        video_assembly::present(chunks_held(frame, capacity, received)) == received.len(),
    decreases received.len(),
{
    let held = chunks_held(frame, capacity, received);
    if received.len() == 0 {
        video_assembly::lemma_none_present(held);
    } else {
        let fewer = received.drop_last();
        let last = received.last();
        let before = chunks_held(frame, capacity, fewer);
        assert(received[received.len() - 1] == last);
        assert(is_order(fewer, count_of(frame, capacity)));
        lemma_held_count(frame, capacity, fewer);
        lemma_not_among_earlier(received);
        assert(fewer.push(last) =~= received);
        lemma_one_more_held(frame, capacity, fewer, last);
        video_assembly::lemma_present_update(
            before,
            last,
            chunking::chunk_of(frame.payload, capacity, last),
        );
    }
}

proof fn lemma_not_among_earlier(order: Seq<int>)
    requires
        order.no_duplicates(),
        order.len() > 0,
    ensures
        !order.drop_last().contains(order.last()),
{
    let earlier = order.drop_last();
    if earlier.contains(order.last()) {
        let k = choose|k: int| 0 <= k < earlier.len() && earlier[k] == order.last();
        assert(order[k] == order[order.len() - 1]);
    }
}

proof fn lemma_one_more_held(
    frame: VideoFrameModel,
    capacity: nat,
    received: Seq<int>,
    index: int,
)
    requires
        0 <= index < count_of(frame, capacity),
        !received.contains(index),
    ensures
        chunks_held(frame, capacity, received)[index] is None,
        chunks_held(frame, capacity, received.push(index)) == chunks_held(
            frame,
            capacity,
            received,
        ).update(index, Some(chunking::chunk_of(frame.payload, capacity, index))),
{
    let total = count_of(frame, capacity);
    let chunk = chunking::chunk_of(frame.payload, capacity, index);
    let more = received.push(index);
    let before = chunks_held(frame, capacity, received);
    let after = chunks_held(frame, capacity, more);
    assert forall|i: int| 0 <= i < total implies after[i] == before.update(
        index,
        Some(chunk),
    )[i] by {
        if i == index {
            assert(more[received.len() as int] == index);
        } else if received.contains(i) {
            let k = choose|k: int| 0 <= k < received.len() && received[k] == i;
            assert(more[k] == i);
        } else if more.contains(i) {
            let k = choose|k: int| 0 <= k < more.len() && more[k] == i;
            assert(received[k] == i);
        }
    }
    assert(after =~= before.update(index, Some(chunk)));
}

/// The frame that a state holds stays when others expire.
proof fn lemma_expiry_keeps(
    state: AssemblerModel,
    frame: VideoFrameModel,
    capacity: nat,
    received: Seq<int>,
    deadline: Instant,
    now: Instant,
)
    requires
        holds(state, frame, capacity, received, deadline),
        now.nanos < deadline.nanos,
    ensures
        holds(state.expired(now), frame, capacity, received, deadline),
{
    let place = video_assembly::place_of(state.partial, frame.sequence);
    video_assembly::lemma_expired_well_formed(state, now);
    lemma_unexpired_stays(state, place, now);
    let after = state.expired(now).partial;
    let index = choose|index: int| 0 <= index < after.len() && after[index] == state.partial[place];
    video_assembly::lemma_found(after, index);
}

proof fn lemma_unexpired_stays(state: AssemblerModel, place: int, now: Instant)
    requires
        0 <= place < state.partial.len(),
        state.partial[place].deadline.nanos > now.nanos,
    ensures
        state.expired(now).partial.contains(state.partial[place]),
    decreases state.partial.len(),
{
    let shorter = AssemblerModel { partial: state.partial.drop_last(), ..state };
    let before = shorter.expired(now);
    let after = state.expired(now);
    if place == state.partial.len() - 1 {
        assert(after.partial[before.partial.len() as int] == state.partial[place]);
    } else {
        lemma_unexpired_stays(shorter, place, now);
        let index = choose|index: int|
            0 <= index < before.partial.len() && before.partial[index] == state.partial[place];
        assert(after.partial[index] == state.partial[place]);
    }
}

/// One more chunk of a frame that is held.
proof fn lemma_accept_chunk(
    state: AssemblerModel,
    frame: VideoFrameModel,
    capacity: nat,
    received: Seq<int>,
    deadline: Instant,
    index: int,
    now: Instant,
    lost: bool,
)
    requires
        can_be_cut(frame, capacity),
        holds(state, frame, capacity, received, deadline),
        0 <= index < count_of(frame, capacity),
        is_order(received.push(index), count_of(frame, capacity)),
        !received.contains(index),
    ensures
        ({
            let header = video_datagram::header_of(frame, index, count_of(frame, capacity));
            let chunk = chunking::chunk_of(frame.payload, capacity, index);
            let (after, result) = state.accepted(header, chunk, now, lost);
            let more = received.push(index);
            let total = count_of(frame, capacity);
            if video_assembly::all_present(chunks_held(frame, capacity, more)) {
                &&& tells(result, Some(frame), more.len(), total)
                &&& !lost && follows(state, frame.sequence) ==> is_lossless(result)
            } else {
                &&& tells(result, None, more.len(), total)
                &&& !lost ==> is_lossless(result)
                &&& holds(after, frame, capacity, more, deadline)
                &&& is_alone(state, frame.sequence) ==> is_alone(after, frame.sequence)
            }
        }),
{
    let total = count_of(frame, capacity);
    let header = video_datagram::header_of(frame, index, total);
    let chunk = chunking::chunk_of(frame.payload, capacity, index);
    let more = received.push(index);
    let place = video_assembly::place_of(state.partial, frame.sequence);
    let open = state.partial[place];
    lemma_header_is_well_formed(frame, capacity, index);
    let before = chunks_held(frame, capacity, received);
    let after_chunks = chunks_held(frame, capacity, more);
    lemma_one_more_held(frame, capacity, received, index);
    lemma_held_count(frame, capacity, more);
    video_assembly::lemma_present_bounds(after_chunks);
    video_assembly::lemma_present_update(before, index, chunk);
    lemma_chunks_held(frame, capacity, more);
    let grown = PartialModel {
        received_bytes: open.received_bytes + chunk.len(),
        chunks: after_chunks,
        ..open
    };
    assert(grown.well_formed());
    if video_assembly::all_present(after_chunks) {
        assert(grown.frame() =~= frame);
    } else {
        video_assembly::lemma_update_well_formed(state, place, grown);
        let partial = state.partial.update(place, grown);
        video_assembly::lemma_found(partial, place);
    }
}

/// The state before the chunk of `index` is put in: the frame is open.
proof fn lemma_push_holding(
    state: AssemblerModel,
    frame: VideoFrameModel,
    capacity: nat,
    received: Seq<int>,
    deadline: Instant,
    index: int,
    now: Instant,
    round_trip_time: Duration,
)
    requires
        can_be_cut(frame, capacity),
        holds(state, frame, capacity, received, deadline),
        now.nanos < deadline.nanos,
        0 <= index < count_of(frame, capacity),
        is_order(received.push(index), count_of(frame, capacity)),
        !received.contains(index),
    ensures
        ({
            let (after, result) = state.pushed(
                video_datagram::datagrams_of(frame, capacity)[index],
                now,
                round_trip_time,
            );
            let more = received.push(index);
            let complete = video_assembly::all_present(chunks_held(frame, capacity, more));
            &&& tells(
                result,
                if complete {
                    Some(frame)
                } else {
                    None
                },
                more.len(),
                count_of(frame, capacity),
            )
            &&& !complete ==> holds(after, frame, capacity, more, deadline)
            &&& is_alone(state, frame.sequence) ==> is_lossless(result) && (complete || is_alone(
                after,
                frame.sequence,
            ))
        }),
{
    lemma_header_is_well_formed(frame, capacity, index);
    lemma_expiry_keeps(state, frame, capacity, received, deadline, now);
    let fresh = state.expired(now).received().with_newest(frame.sequence);
    assert(holds(fresh, frame, capacity, received, deadline));
    if is_alone(state, frame.sequence) {
        reveal_with_fuel(AssemblerModel::expired, 2);
        assert(state.partial.drop_last().push(state.partial.last()) =~= state.partial);
    }
    lemma_accept_chunk(
        fresh,
        frame,
        capacity,
        received,
        deadline,
        index,
        now,
        state.any_expired(now),
    );
}

/// The first chunk opens the frame.
proof fn lemma_push_first(
    state: AssemblerModel,
    frame: VideoFrameModel,
    capacity: nat,
    index: int,
    now: Instant,
    round_trip_time: Duration,
)
    requires
        can_be_cut(frame, capacity),
        state.well_formed(),
        awaits(state, frame.sequence),
        !video_assembly::is_open(state.partial, frame.sequence),
        0 <= index < count_of(frame, capacity),
    ensures
        ({
            let deadline = now.spec_after(
                video_assembly::spec_assembly_deadline(state.frame_period, round_trip_time),
            );
            let (after, result) = state.pushed(
                video_datagram::datagrams_of(frame, capacity)[index],
                now,
                round_trip_time,
            );
            let more = seq![index];
            let complete = video_assembly::all_present(chunks_held(frame, capacity, more));
            &&& tells(
                result,
                if complete {
                    Some(frame)
                } else {
                    None
                },
                more.len(),
                count_of(frame, capacity),
            )
            &&& !complete ==> holds(after, frame, capacity, more, deadline)
            &&& is_alone(state, frame.sequence) ==> is_lossless(result) && (complete || is_alone(
                after,
                frame.sequence,
            ))
        }),
{
    let total = count_of(frame, capacity);
    lemma_header_is_well_formed(frame, capacity, index);
    video_assembly::lemma_expired_well_formed(state, now);
    let header = video_datagram::header_of(frame, index, total);
    let expired = state.expired(now);
    lemma_subset_stays_closed(state.partial, expired.partial, frame.sequence);
    let fresh = expired.received().with_newest(frame.sequence);
    assert(fresh.well_formed());
    let roomy = fresh.with_room();
    let budget = video_assembly::spec_assembly_deadline(state.frame_period, round_trip_time);
    if fresh.partial.len() >= MAX_PARTIAL_FRAMES {
        assert(roomy.well_formed()) by {
            assert forall|i: int| 0 <= i < roomy.partial.len() implies (
            #[trigger] roomy.partial[i]).well_formed() by {
                assert(roomy.partial[i] == fresh.partial[i + 1]);
            }
        }
        assert forall|other: PartialModel| roomy.partial.contains(
            other,
        ) implies fresh.partial.contains(other) by {
            let i = choose|i: int| 0 <= i < roomy.partial.len() && roomy.partial[i] == other;
            assert(fresh.partial[i + 1] == other);
        }
    }
    lemma_subset_stays_closed(fresh.partial, roomy.partial, frame.sequence);
    let opening = PartialModel {
        header,
        started: now,
        budget,
        deadline: now.spec_after(budget),
        received_bytes: 0,
        chunks: Seq::new(header.chunk_count as nat, |i: int| None),
    };
    video_assembly::lemma_none_present(opening.chunks);
    video_assembly::lemma_opened(roomy, opening);
    let opened = fresh.opened(header, now, round_trip_time);
    let none = Seq::<int>::empty();
    assert(opening.chunks =~= chunks_held(frame, capacity, none));
    assert(holds(opened, frame, capacity, none, opening.deadline));
    let lost = state.any_expired(now) || fresh.partial.len() >= MAX_PARTIAL_FRAMES;
    assert(none.push(index) =~= seq![index]);
    if is_alone(state, frame.sequence) && state.partial.len() == 1 {
        video_assembly::lemma_found(state.partial, 0);
    }
    lemma_accept_chunk(
        opened,
        frame,
        capacity,
        none,
        opening.deadline,
        index,
        now,
        lost,
    );
}

proof fn lemma_subset_stays_closed(
    before: Seq<PartialModel>,
    after: Seq<PartialModel>,
    sequence: u64,
)
    requires
        forall|i: int, j: int|
            #![trigger before[i], before[j]]
            0 <= i < j < before.len() ==> before[i].header.sequence < before[j].header.sequence,
        forall|frame: PartialModel| #[trigger] after.contains(frame) ==> before.contains(frame),
        !video_assembly::is_open(before, sequence),
    ensures
        !video_assembly::is_open(after, sequence),
{
    if video_assembly::is_open(after, sequence) {
        let place = video_assembly::place_of(after, sequence);
        assert(after.contains(after[place]));
        let index = choose|index: int| 0 <= index < before.len() && before[index] == after[place];
        video_assembly::lemma_found(before, index);
    }
}

/// The state after pushing the chunks `order` of a frame, each at its own time.
pub open spec fn after_chunks(
    state: AssemblerModel,
    frame: VideoFrameModel,
    capacity: nat,
    order: Seq<int>,
    times: Seq<Instant>,
    round_trip_time: Duration,
) -> AssemblerModel
    decreases order.len(),
{
    if order.len() == 0 {
        state
    } else {
        after_chunks(
            state,
            frame,
            capacity,
            order.drop_last(),
            times,
            round_trip_time,
        ).pushed(
            video_datagram::datagrams_of(frame, capacity)[order.last()],
            times[order.len() - 1],
            round_trip_time,
        ).0
    }
}

/// What the last of the chunks `order` leads to.
pub open spec fn last_result(
    state: AssemblerModel,
    frame: VideoFrameModel,
    capacity: nat,
    order: Seq<int>,
    times: Seq<Instant>,
    round_trip_time: Duration,
) -> Result<AssemblyModel, VideoDatagramError> {
    after_chunks(state, frame, capacity, order.drop_last(), times, round_trip_time).pushed(
        video_datagram::datagrams_of(frame, capacity)[order.last()],
        times[order.len() - 1],
        round_trip_time,
    ).1
}

/// Every chunk of the frame once, in some order.
pub open spec fn is_order(order: Seq<int>, count: nat) -> bool {
    &&& order.no_duplicates()
    &&& forall|i: int| 0 <= i < order.len() ==> 0 <= #[trigger] order[i] < count
}

proof fn lemma_after_chunks(
    state: AssemblerModel,
    frame: VideoFrameModel,
    capacity: nat,
    order: Seq<int>,
    times: Seq<Instant>,
    round_trip_time: Duration,
)
    requires
        can_be_cut(frame, capacity),
        state.well_formed(),
        awaits(state, frame.sequence),
        !video_assembly::is_open(state.partial, frame.sequence),
        is_order(order, count_of(frame, capacity)),
        0 < order.len() < count_of(frame, capacity),
        times.len() >= order.len(),
        forall|k: int|
            0 < k < order.len() ==> (#[trigger] times[k]).nanos < times[0].spec_after(
                video_assembly::spec_assembly_deadline(state.frame_period, round_trip_time),
            ).nanos,
    ensures
        holds(
            after_chunks(state, frame, capacity, order, times, round_trip_time),
            frame,
            capacity,
            order,
            times[0].spec_after(
                video_assembly::spec_assembly_deadline(state.frame_period, round_trip_time),
            ),
        ),
        tells(
            last_result(state, frame, capacity, order, times, round_trip_time),
            None,
            order.len(),
            count_of(frame, capacity),
        ),
        is_alone(state, frame.sequence) ==> is_lossless(
            last_result(state, frame, capacity, order, times, round_trip_time),
        ) && is_alone(
            after_chunks(state, frame, capacity, order, times, round_trip_time),
            frame.sequence,
        ),
    decreases order.len(),
{
    let total = count_of(frame, capacity);
    let deadline = times[0].spec_after(
        video_assembly::spec_assembly_deadline(state.frame_period, round_trip_time),
    );
    lemma_incomplete_order(frame, capacity, order);
    let last = order.last();
    assert(order[order.len() - 1] == last);
    if order.len() == 1 {
        assert(order =~= seq![last]);
        assert(after_chunks(state, frame, capacity, order.drop_last(), times, round_trip_time)
            == state);
        lemma_push_first(state, frame, capacity, last, times[0], round_trip_time);
    } else {
        let earlier = order.drop_last();
        lemma_after_chunks(state, frame, capacity, earlier, times, round_trip_time);
        lemma_not_among_earlier(order);
        assert(earlier.push(last) =~= order);
        assert(times[order.len() - 1].nanos < deadline.nanos);
        lemma_push_holding(
            after_chunks(state, frame, capacity, earlier, times, round_trip_time),
            frame,
            capacity,
            earlier,
            deadline,
            last,
            times[order.len() - 1],
            round_trip_time,
        );
    }
}

/// Fewer chunks than there are cannot be all of them.
proof fn lemma_incomplete_order(frame: VideoFrameModel, capacity: nat, order: Seq<int>)
    requires
        is_order(order, count_of(frame, capacity)),
        order.len() < count_of(frame, capacity),
    ensures
        !video_assembly::all_present(chunks_held(frame, capacity, order)),
{
    let total = count_of(frame, capacity);
    if video_assembly::all_present(chunks_held(frame, capacity, order)) {
        let all = vstd::set_lib::set_int_range(0, total as int);
        vstd::set_lib::lemma_int_range(0, total as int);
        order.unique_seq_to_set();
        assert(all.subset_of(order.to_set())) by {
            assert forall|i: int| all.contains(i) implies order.to_set().contains(i) by {
                assert(chunks_held(frame, capacity, order)[i] is Some);
            }
        }
        vstd::set_lib::lemma_len_subset(all, order.to_set());
    }
}

proof fn lemma_complete_order(frame: VideoFrameModel, capacity: nat, order: Seq<int>)
    requires
        is_order(order, count_of(frame, capacity)),
        order.len() == count_of(frame, capacity),
    ensures
        video_assembly::all_present(chunks_held(frame, capacity, order)),
{
    let total = count_of(frame, capacity);
    let all = vstd::set_lib::set_int_range(0, total as int);
    vstd::set_lib::lemma_int_range(0, total as int);
    order.unique_seq_to_set();
    assert(order.to_set().subset_of(all)) by {
        assert forall|i: int| order.to_set().contains(i) implies all.contains(i) by {
            assert(order.contains(i));
        }
    }
    vstd::set_lib::lemma_subset_equality(order.to_set(), all);
    assert forall|i: int| 0 <= i < total implies (
    #[trigger] chunks_held(frame, capacity, order)[i]) is Some by {
        assert(all.contains(i));
        assert(order.to_set().contains(i));
    }
}

/// A frame that was cut into datagrams is put together again, in whatever order
/// the datagrams come, with the last of them and not before, as long as they
/// come before the frame's time is over. Each tells how many have come. None
/// tells of a loss where no other frame is open and none before it is left out.
pub proof fn law_frames_are_assembled_in_any_order(
    state: AssemblerModel,
    frame: VideoFrameModel,
    capacity: nat,
    order: Seq<int>,
    times: Seq<Instant>,
    round_trip_time: Duration,
)
    requires
        can_be_cut(frame, capacity),
        state.well_formed(),
        awaits(state, frame.sequence),
        !video_assembly::is_open(state.partial, frame.sequence),
        is_order(order, count_of(frame, capacity)),
        order.len() == count_of(frame, capacity),
        times.len() == order.len(),
        forall|k: int|
            0 < k < order.len() ==> (#[trigger] times[k]).nanos < times[0].spec_after(
                video_assembly::spec_assembly_deadline(state.frame_period, round_trip_time),
            ).nanos,
    ensures
        tells(
            last_result(state, frame, capacity, order, times, round_trip_time),
            Some(frame),
            order.len(),
            count_of(frame, capacity),
        ),
        forall|k: int|
            0 < k < order.len() ==> tells(
                last_result(
                    state,
                    frame,
                    capacity,
                    #[trigger] order.take(k),
                    times,
                    round_trip_time,
                ),
                None,
                k as nat,
                count_of(frame, capacity),
            ),
        is_alone(state, frame.sequence) ==> forall|k: int|
            0 < k <= order.len() ==> is_lossless(
                last_result(
                    state,
                    frame,
                    capacity,
                    #[trigger] order.take(k),
                    times,
                    round_trip_time,
                ),
            ),
{
    chunking::lemma_chunks_needed(frame.payload.len(), capacity);
    lemma_complete_order(frame, capacity, order);
    let last = order.last();
    assert(order[order.len() - 1] == last);
    assert(order.take(order.len() as int) =~= order);
    assert forall|k: int| 0 < k < order.len() implies ({
        let result = last_result(
            state,
            frame,
            capacity,
            #[trigger] order.take(k),
            times,
            round_trip_time,
        );
        &&& tells(result, None, k as nat, count_of(frame, capacity))
        &&& is_alone(state, frame.sequence) ==> is_lossless(result)
    }) by {
        lemma_after_chunks(state, frame, capacity, order.take(k), times, round_trip_time);
    }
    if order.len() == 1 {
        assert(order =~= seq![last]);
        assert(after_chunks(state, frame, capacity, order.drop_last(), times, round_trip_time)
            == state);
        lemma_push_first(state, frame, capacity, last, times[0], round_trip_time);
    } else {
        let earlier = order.drop_last();
        lemma_after_chunks(state, frame, capacity, earlier, times, round_trip_time);
        lemma_not_among_earlier(order);
        assert(earlier.push(last) =~= order);
        lemma_push_holding(
            after_chunks(state, frame, capacity, earlier, times, round_trip_time),
            frame,
            capacity,
            earlier,
            times[0].spec_after(
                video_assembly::spec_assembly_deadline(state.frame_period, round_trip_time),
            ),
            last,
            times[order.len() - 1],
            round_trip_time,
        );
    }
}

/// A fresh assembler puts a frame together again of datagrams that come at the
/// same time in whatever order: the k-th of them tells that k have come, none
/// tells of a loss, and the last gives the frame.
pub proof fn law_a_fresh_assembler_assembles(
    frames_per_second: u16,
    frame: VideoFrameModel,
    capacity: nat,
    order: Seq<int>,
    now: Instant,
    round_trip_time: Duration,
)
    requires
        can_be_cut(frame, capacity),
        is_order(order, count_of(frame, capacity)),
        order.len() == count_of(frame, capacity),
        now.nanos < u128::MAX,
    ensures
        forall|k: int|
            0 < k <= order.len() ==> ({
                let result = last_result(
                    AssemblerModel::initial(frames_per_second),
                    frame,
                    capacity,
                    #[trigger] order.take(k),
                    Seq::new(order.len(), |i: int| now),
                    round_trip_time,
                );
                &&& tells(
                    result,
                    if k == order.len() {
                        Some(frame)
                    } else {
                        None
                    },
                    k as nat,
                    order.len(),
                )
                &&& is_lossless(result)
            }),
{
    let state = AssemblerModel::initial(frames_per_second);
    let times = Seq::new(order.len(), |i: int| now);
    chunking::lemma_chunks_needed(frame.payload.len(), capacity);
    assert(state.frame_period.nanos > 0) by (nonlinear_arith)
        requires
            state.frame_period.nanos == if frames_per_second == 0 {
                100_000_000
            } else {
                (1_000_000_000int / frames_per_second as int) as u128
            },
    ;
    law_frames_are_assembled_in_any_order(state, frame, capacity, order, times, round_trip_time);
    assert(order.take(order.len() as int) =~= order);
}

/// A datagram that comes, when it does, and the round trip time then.
pub ghost struct Arrival {
    pub datagram: Seq<u8>,
    pub now: Instant,
    pub round_trip_time: Duration,
}

/// The state after the datagrams of a history, and the frames that they have
/// completed, in their order.
pub open spec fn assembled(state: AssemblerModel, arrivals: Seq<Arrival>) -> (
    AssemblerModel,
    Seq<VideoFrameModel>,
)
    decreases arrivals.len(),
{
    if arrivals.len() == 0 {
        (state, Seq::empty())
    } else {
        let (before, frames) = assembled(state, arrivals.drop_last());
        let last = arrivals.last();
        let (after, result) = before.pushed(last.datagram, last.now, last.round_trip_time);
        (
            after,
            match result {
                Ok(assembly) => match assembly.frame {
                    Some(frame) => frames.push(frame),
                    None => frames,
                },
                Err(_) => frames,
            },
        )
    }
}

proof fn lemma_expiry_completes_nothing(state: AssemblerModel, now: Instant)
    ensures
        state.expired(now).newest_completed_sequence == state.newest_completed_sequence,
    decreases state.partial.len(),
{
    if state.partial.len() > 0 {
        lemma_expiry_completes_nothing(
            AssemblerModel { partial: state.partial.drop_last(), ..state },
            now,
        );
    }
}

/// Frames are completed in the order of their sequences, whatever comes when:
/// none twice, and none after a later one.
pub proof fn law_completed_frames_rise(state: AssemblerModel, arrivals: Seq<Arrival>)
    ensures
        ({
            let (after, frames) = assembled(state, arrivals);
            &&& forall|i: int, j: int|
                #![trigger frames[i], frames[j]]
                0 <= i < j < frames.len() ==> frames[i].sequence < frames[j].sequence
            &&& frames.len() > 0 ==> after.newest_completed_sequence == Some(
                frames.last().sequence,
            )
            &&& frames.len() == 0 ==> after.newest_completed_sequence
                == state.newest_completed_sequence
        }),
    decreases arrivals.len(),
{
    if arrivals.len() > 0 {
        let (before, frames) = assembled(state, arrivals.drop_last());
        let last = arrivals.last();
        law_completed_frames_rise(state, arrivals.drop_last());
        lemma_expiry_completes_nothing(before, last.now);
        if frames.len() > 0 {
            assert(frames.last() == frames[frames.len() - 1]);
        }
        let all = assembled(state, arrivals).1;
        assert forall|i: int, j: int|
            #![trigger all[i], all[j]]
            0 <= i < j < all.len() implies all[i].sequence < all[j].sequence by {
            assert(all[i] == frames[i]);
            if j < frames.len() {
                assert(all[j] == frames[j]);
            } else if i < frames.len() - 1 {
                assert(frames[i].sequence < frames[frames.len() - 1].sequence);
            }
        }
    }
}

/// Every datagram of a frame is a chunk that tells what the frame tells, with
/// its own place and the number of all, and holds the bytes of the payload from
/// its place times the capacity on. It is no longer than header and capacity.
pub proof fn law_datagrams_tell_their_frame(frame: VideoFrameModel, capacity: nat, index: int)
    requires
        can_be_cut(frame, capacity),
        0 <= index < video_datagram::datagrams_of(frame, capacity).len(),
    ensures
        ({
            let datagrams = video_datagram::datagrams_of(frame, capacity);
            let datagram = datagrams[index];
            let header = Header::spelled(datagram);
            &&& Header::is_chunk(datagram)
            &&& 68 < datagram.len() <= 68 + capacity
            &&& header.sequence == frame.sequence
            &&& header.captured_at == frame.captured_at_micros
            &&& header.encoded_at == frame.encoded_at_micros
            &&& header.packetized_at == frame.packetized_at_micros
            &&& header.input_sequence == frame.input_sequence
            &&& header.target_bitrate_bits_per_second == frame.target_bitrate_bits_per_second
            &&& header.estimated_capacity_bits_per_second
                == frame.estimated_capacity_bits_per_second
            &&& header.keyframe == frame.keyframe
            &&& header.frame_size == frame.payload.len()
            &&& header.chunk_index == index
            &&& header.chunk_count == datagrams.len()
            &&& index < datagrams.len() - 1 ==> datagram.len() == 68 + capacity
            &&& index * capacity + datagram.len() - 68 <= frame.payload.len()
            &&& index == datagrams.len() - 1 ==> index * capacity + datagram.len() - 68
                == frame.payload.len()
            &&& forall|i: int|
                68 <= i < datagram.len() ==> #[trigger] datagram[i] == frame.payload[index
                    * capacity + i - 68]
        }),
{
    let datagram = video_datagram::datagrams_of(frame, capacity)[index];
    let count = count_of(frame, capacity);
    lemma_header_is_well_formed(frame, capacity, index);
    chunking::lemma_chunks_needed(frame.payload.len(), capacity);
    chunking::lemma_chunk_bounds(frame.payload.len(), capacity, index);
    let chunk = chunking::chunk_of(frame.payload, capacity, index);
    assert((index + 1) * capacity == index * capacity + capacity) by (nonlinear_arith);
    assert(index < count - 1 ==> (index + 1) * capacity <= (count - 1) * capacity) by (
    nonlinear_arith)
        requires
            capacity > 0,
    ;
    assert(index == count - 1 ==> (index + 1) * capacity == count * capacity);
    assert(datagram.skip(68) == chunk);
    assert forall|i: int| 68 <= i < datagram.len() implies #[trigger] datagram[i] == frame.payload[
        index * capacity + i - 68
    ] by {
        assert(datagram[i] == datagram.skip(68)[i - 68]);
    }
}

} // verus!
