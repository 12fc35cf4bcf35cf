//! What a datagram does to the frames that are open, by their deadlines.

use crate::session::video_assembly;
use crate::session::video_assembly::{AssemblerModel, PartialModel};
use crate::session::video_datagram::{
    Header, VideoDatagramError, VIDEO_DATAGRAM_HEADER_SIZE,
};
use crate::time::{Duration, Instant};
use vstd::prelude::*;

verus! {

/// The frames that are left are those whose deadline is still to come.
proof fn lemma_expired_frames(state: AssemblerModel, now: Instant)
    requires
        state.well_formed(),
    ensures
        forall|i: int|
            0 <= i < state.expired(now).partial.len() ==> now.nanos < (
            #[trigger] state.expired(now).partial[i]).deadline.nanos,
        forall|j: int|
            0 <= j < state.partial.len() && now.nanos < (
            #[trigger] state.partial[j]).deadline.nanos ==> state.expired(now).partial.contains(
                state.partial[j],
            ),
        (forall|j: int|
            0 <= j < state.partial.len() ==> now.nanos < (
            #[trigger] state.partial[j]).deadline.nanos) ==> state.expired(now) == state,
    decreases state.partial.len(),
{
    if state.partial.len() > 0 {
        let shorter = AssemblerModel { partial: state.partial.drop_last(), ..state };
        assert(shorter.well_formed()) by {
            assert forall|i: int, j: int|
                #![trigger shorter.partial[i], shorter.partial[j]]
                0 <= i < j < shorter.partial.len() implies shorter.partial[i].header.sequence
                < shorter.partial[j].header.sequence by {
                assert(state.partial[i].header.sequence < state.partial[j].header.sequence);
            }
        }
        lemma_expired_frames(shorter, now);
        let before = shorter.expired(now);
        let after = state.expired(now);
        let last = state.partial.last();
        assert forall|i: int| 0 <= i < after.partial.len() implies now.nanos < (
        #[trigger] after.partial[i]).deadline.nanos by {
            if i < before.partial.len() {
                assert(after.partial[i] == before.partial[i]);
            }
        }
        assert forall|j: int|
            0 <= j < state.partial.len() && now.nanos < (
            #[trigger] state.partial[j]).deadline.nanos implies after.partial.contains(
            state.partial[j],
        ) by {
            if j < shorter.partial.len() {
                assert(shorter.partial[j] == state.partial[j]);
                let k = choose|k: int|
                    0 <= k < before.partial.len() && before.partial[k] == shorter.partial[j];
                assert(after.partial[k] == state.partial[j]);
            } else {
                assert(after.partial[after.partial.len() - 1] == last);
            }
        }
        if forall|j: int|
            0 <= j < state.partial.len() ==> now.nanos < (
            #[trigger] state.partial[j]).deadline.nanos {
            assert forall|j: int| 0 <= j < shorter.partial.len() implies now.nanos < (
            #[trigger] shorter.partial[j]).deadline.nanos by {
                assert(shorter.partial[j] == state.partial[j]);
            }
            assert(state.partial[state.partial.len() - 1] == last);
            assert(after.partial =~= state.partial);
            assert(after =~= state);
        }
    }
}

/// The frame that a datagram is put into: it is open, and the other frames are
/// among those that were open.
proof fn lemma_opened_frames(
    state: AssemblerModel,
    header: Header,
    now: Instant,
    round_trip_time: Duration,
)
    requires
        state.well_formed(),
        header.well_formed(),
    ensures
        ({
            let after = state.opened(header, now, round_trip_time);
            let place = video_assembly::place_of(after.partial, header.sequence);
            let budget = video_assembly::spec_assembly_deadline(
                state.frame_period,
                round_trip_time,
            );
            &&& after.well_formed()
            &&& 0 <= place < after.partial.len()
            &&& after.partial[place].header.sequence == header.sequence
            &&& after.frame_period == state.frame_period
            &&& after.newest_sequence == state.newest_sequence
            &&& after.newest_completed_sequence == state.newest_completed_sequence
            &&& forall|i: int|
                0 <= i < after.partial.len() && i != place ==> state.partial.contains(
                    #[trigger] after.partial[i],
                )
            &&& video_assembly::is_open(state.partial, header.sequence) ==> after == state
            &&& !video_assembly::is_open(state.partial, header.sequence) ==> {
                &&& after.partial.len() == if state.partial.len() >= 2 {
                    state.partial.len()
                } else {
                    state.partial.len() + 1
                }
                &&& after.partial[place].header == header
                &&& after.partial[place].started == now
                &&& after.partial[place].budget == budget
                &&& after.partial[place].deadline == now.spec_after(budget)
                &&& forall|i: int|
                    0 <= i < after.partial[place].chunks.len() ==> (
                    #[trigger] after.partial[place].chunks[i]) is None
            }
        }),
{
    let after = state.opened(header, now, round_trip_time);
    if video_assembly::is_open(state.partial, header.sequence) {
    } else {
        let roomy = state.with_room();
        if state.partial.len() >= video_assembly::MAX_PARTIAL_FRAMES {
            let first = state.without(0);
            video_assembly::lemma_without_well_formed(state, 0);
            assert(roomy.partial =~= first.partial);
            assert forall|i: int| 0 <= i < roomy.partial.len() implies roomy.partial[i].header.sequence
                != header.sequence by {
                assert(roomy.partial[i] == state.partial[i + 1]);
                video_assembly::lemma_found(state.partial, i + 1);
            }
        }
        let budget = video_assembly::spec_assembly_deadline(state.frame_period, round_trip_time);
        let frame = PartialModel {
            header,
            started: now,
            budget,
            deadline: now.spec_after(budget),
            received_bytes: 0,
            chunks: Seq::new(header.chunk_count as nat, |i: int| None),
        };
        video_assembly::lemma_none_present(frame.chunks);
        assert(roomy.well_formed());
        assert(!video_assembly::is_open(roomy.partial, header.sequence));
        video_assembly::lemma_opened(roomy, frame);
        let place = video_assembly::place_of(roomy.partial, header.sequence);
        assert forall|i: int| 0 <= i < after.partial.len() && i != place implies state.partial.contains(
            #[trigger] after.partial[i],
        ) by {
            let k = if i < place {
                i
            } else {
                i - 1
            };
            assert(after.partial[i] == roomy.partial[k]);
            if state.partial.len() >= video_assembly::MAX_PARTIAL_FRAMES {
                assert(roomy.partial[k] == state.partial[k + 1]);
            } else {
                assert(roomy.partial[k] == state.partial[k]);
            }
        }
    }
}

/// Two states of one frame: only its chunks and bytes may differ.
pub open spec fn is_same_frame(before: PartialModel, after: PartialModel) -> bool {
    &&& before.header == after.header
    &&& before.started == after.started
    &&& before.budget == after.budget
    &&& before.deadline == after.deadline
}

/// A frame that is open after a datagram was put into its own was open before.
proof fn lemma_accepted_frame(
    state: AssemblerModel,
    header: Header,
    payload: Seq<u8>,
    now: Instant,
    dependency_lost: bool,
    i: int,
) -> (k: int)
    requires
        state.well_formed(),
        0 <= video_assembly::place_of(state.partial, header.sequence) < state.partial.len(),
        0 <= i < state.accepted(header, payload, now, dependency_lost).0.partial.len(),
    ensures
        0 <= k < state.partial.len(),
        is_same_frame(
            state.partial[k],
            state.accepted(header, payload, now, dependency_lost).0.partial[i],
        ),
{
    let after = state.accepted(header, payload, now, dependency_lost).0;
    let place = video_assembly::place_of(state.partial, header.sequence);
    if after.partial == state.partial.remove(place) && i >= place {
        i + 1
    } else {
        i
    }
}

/// A frame that is open after a datagram at `now` has its deadline still to
/// come. It was open before with the same start and deadline, or the datagram
/// opened it: it started at `now`, and its deadline is the longer of three
/// frame periods and two round trips later, but no more than 100 ms.
pub proof fn law_no_frame_outlives_its_deadline(
    state: AssemblerModel,
    datagram: Seq<u8>,
    now: Instant,
    round_trip_time: Duration,
    place: int,
)
    requires
        state.well_formed(),
        state.frame_period.nanos > 0,
        now.nanos + 100_000_000 <= u128::MAX,
        0 <= place < state.pushed(datagram, now, round_trip_time).0.partial.len(),
    ensures
        ({
            let open = state.pushed(datagram, now, round_trip_time).0.partial[place];
            let was_open = exists|k: int|
                0 <= k < state.partial.len() && (#[trigger] state.partial[k]).header
                    == open.header && state.partial[k].started == open.started
                    && state.partial[k].deadline == open.deadline;
            let length = open.deadline.nanos - now.nanos;
            let frames = 3 * state.frame_period.nanos;
            let trips = 2 * round_trip_time.nanos;
            &&& now.nanos < open.deadline.nanos
            &&& !was_open ==> {
                &&& open.header == Header::spelled(datagram)
                &&& open.started == now
                &&& length <= 100_000_000
                &&& length <= frames || length <= trips
                &&& length == 100_000_000 || (length >= frames && length >= trips)
            }
        }),
{
    let expired = state.expired(now);
    lemma_expired_frames(state, now);
    video_assembly::lemma_expired_well_formed(state, now);
    let after = state.pushed(datagram, now, round_trip_time).0;
    let open = after.partial[place];
    let header = Header::spelled(datagram);
    let counted = expired.received();
    if Header::is_chunk(datagram) && !counted.is_done(header) && !counted.is_behind(header) {
        let newest = counted.with_newest(header.sequence);
        let opened = newest.opened(header, now, round_trip_time);
        let evicts = !video_assembly::is_open(newest.partial, header.sequence)
            && newest.partial.len() >= video_assembly::MAX_PARTIAL_FRAMES;
        let payload = datagram.skip(VIDEO_DATAGRAM_HEADER_SIZE as int);
        lemma_opened_frames(newest, header, now, round_trip_time);
        let k = lemma_accepted_frame(
            opened,
            header,
            payload,
            now,
            state.any_expired(now) || evicts,
            place,
        );
        if k != video_assembly::place_of(opened.partial, header.sequence)
            || video_assembly::is_open(newest.partial, header.sequence) {
            assert(newest.partial.contains(opened.partial[k]));
            assert(expired.partial.contains(opened.partial[k]));
            assert(state.partial.contains(opened.partial[k]));
        }
    } else {
        assert(expired.partial.contains(open));
        assert(state.partial.contains(open));
    }
}

/// Whether any frame is open whose deadline is at or before `now`.
pub open spec fn some_frame_is_over(state: AssemblerModel, now: Instant) -> bool {
    exists|i: int|
        0 <= i < state.partial.len() && (#[trigger] state.partial[i]).deadline.nanos <= now.nanos
}

/// A chunk of the frame `sequence` comes when that frame, or a later one, is
/// completed.
pub open spec fn comes_after_completion(state: AssemblerModel, sequence: u64) -> bool {
    state.newest_completed_sequence matches Some(completed) && sequence <= completed
}

/// A chunk of the frame `sequence` comes when the newest frame is more than two
/// ahead of it.
pub open spec fn comes_too_far_behind(state: AssemblerModel, sequence: u64) -> bool {
    state.newest_sequence matches Some(newest) && sequence + 2 < newest
}

/// Two frames other than `sequence` are open beyond `now`.
pub open spec fn two_others_are_open(state: AssemblerModel, sequence: u64, now: Instant) -> bool {
    &&& state.partial.len() == 2
    &&& now.nanos < state.partial[0].deadline.nanos
    &&& now.nanos < state.partial[1].deadline.nanos
    &&& state.partial[0].header.sequence != sequence
    &&& state.partial[1].header.sequence != sequence
}

proof fn lemma_others_are_open(state: AssemblerModel, sequence: u64, now: Instant)
    requires
        state.well_formed(),
    ensures
        two_others_are_open(state, sequence, now) <==> (!video_assembly::is_open(
            state.expired(now).partial,
            sequence,
        ) && state.expired(now).partial.len() >= 2),
        state.any_expired(now) <==> some_frame_is_over(state, now),
        video_assembly::is_open(state.expired(now).partial, sequence) <==> exists|i: int|
            0 <= i < state.partial.len() && (#[trigger] state.partial[i]).header.sequence
                == sequence && now.nanos < state.partial[i].deadline.nanos,
{
    let expired = state.expired(now);
    lemma_expired_frames(state, now);
    video_assembly::lemma_expired_well_formed(state, now);
    let open = video_assembly::is_open(expired.partial, sequence);
    if open {
        let place = video_assembly::place_of(expired.partial, sequence);
        assert(expired.partial.contains(expired.partial[place]));
        let i = choose|i: int|
            0 <= i < state.partial.len() && state.partial[i] == expired.partial[place];
        assert(state.partial[i].header.sequence == sequence);
    }
    if exists|i: int|
        0 <= i < state.partial.len() && (#[trigger] state.partial[i]).header.sequence == sequence
            && now.nanos < state.partial[i].deadline.nanos {
        let i = choose|i: int|
            0 <= i < state.partial.len() && (#[trigger] state.partial[i]).header.sequence
                == sequence && now.nanos < state.partial[i].deadline.nanos;
        let k = choose|k: int|
            0 <= k < expired.partial.len() && expired.partial[k] == state.partial[i];
        video_assembly::lemma_found(expired.partial, k);
        assert(open);
    }
    if expired.partial.len() >= 2 && !open {
        let first = expired.partial[0];
        let second = expired.partial[1];
        assert(expired.partial.contains(first) && expired.partial.contains(second));
        let i = choose|i: int| 0 <= i < state.partial.len() && state.partial[i] == first;
        let j = choose|j: int| 0 <= j < state.partial.len() && state.partial[j] == second;
        assert(first.header.sequence < second.header.sequence);
        assert(i != j);
        assert(state.partial[i].header.sequence != sequence);
        assert(state.partial[j].header.sequence != sequence);
    }
    if two_others_are_open(state, sequence, now) {
        assert(state.expired(now) == state);
        if open {
            let place = video_assembly::place_of(expired.partial, sequence);
            assert(place == 0 || place == 1);
        }
    }
}

/// When a datagram tells of a loss: where a frame was open whose deadline is
/// over, where its own frame is too far behind, where it takes the place of the
/// older of two frames, and where it completes a frame that is not the next.
pub proof fn law_losses_are_told(
    state: AssemblerModel,
    datagram: Seq<u8>,
    now: Instant,
    round_trip_time: Duration,
)
    requires
        state.well_formed(),
    ensures
        ({
            let sequence = Header::spelled(datagram).sequence;
            let done = comes_after_completion(state, sequence);
            let behind = comes_too_far_behind(state, sequence);
            state.pushed(datagram, now, round_trip_time).1 matches Ok(assembly) ==> {
                &&& some_frame_is_over(state, now) ==> assembly.dependency_lost
                &&& !done && behind ==> assembly.dependency_lost
                &&& !done && two_others_are_open(state, sequence, now) ==> assembly.dependency_lost
                &&& assembly.frame is Some && (state.newest_completed_sequence matches Some(
                    completed,
                ) && sequence > completed + 1) ==> assembly.dependency_lost
                &&& assembly.dependency_lost ==> {
                    ||| some_frame_is_over(state, now)
                    ||| !done && behind
                    ||| !done && two_others_are_open(state, sequence, now)
                    ||| assembly.frame is Some && (state.newest_completed_sequence matches Some(
                        completed,
                    ) && sequence > completed + 1)
                }
            }
        }),
{
    let sequence = Header::spelled(datagram).sequence;
    lemma_expired_frames(state, now);
    video_assembly::lemma_expired_well_formed(state, now);
    lemma_others_are_open(state, sequence, now);
    if Header::is_chunk(datagram) {
        let newest = state.expired(now).received().with_newest(sequence);
        lemma_opened_frames(newest, Header::spelled(datagram), now, round_trip_time);
    }
}

/// Chunks on both sides of a deadline never complete a frame together: a chunk
/// that comes at or after the deadline of its frame, which has more than one,
/// leads to no frame, and the loss is told. A chunk that is still wanted starts
/// the frame anew.
pub proof fn law_a_late_chunk_completes_nothing(
    state: AssemblerModel,
    datagram: Seq<u8>,
    now: Instant,
    round_trip_time: Duration,
    open: int,
)
    requires
        state.well_formed(),
        0 <= open < state.partial.len(),
        state.partial[open].deadline.nanos <= now.nanos,
        Header::is_chunk(datagram),
        Header::spelled(datagram).sequence == state.partial[open].header.sequence,
        Header::spelled(datagram).chunk_count > 1,
    ensures
        ({
            let (after, result) = state.pushed(datagram, now, round_trip_time);
            &&& result matches Ok(assembly) ==> assembly.frame is None && assembly.dependency_lost
            &&& result matches Ok(assembly) ==> (assembly.progress matches Some(progress)
                ==> progress.received_chunks == 1 && progress.elapsed.nanos == 0)
        }),
{
    let header = Header::spelled(datagram);
    let sequence = header.sequence;
    let expired = state.expired(now);
    lemma_expired_frames(state, now);
    video_assembly::lemma_expired_well_formed(state, now);
    lemma_others_are_open(state, sequence, now);
    assert(!video_assembly::is_open(expired.partial, sequence)) by {
        if exists|i: int|
            0 <= i < state.partial.len() && (#[trigger] state.partial[i]).header.sequence
                == sequence && now.nanos < state.partial[i].deadline.nanos {
            let i = choose|i: int|
                0 <= i < state.partial.len() && (#[trigger] state.partial[i]).header.sequence
                    == sequence && now.nanos < state.partial[i].deadline.nanos;
            if i < open {
                assert(state.partial[i].header.sequence < state.partial[open].header.sequence);
            } else if open < i {
                assert(state.partial[open].header.sequence < state.partial[i].header.sequence);
            }
        }
    }
    assert(some_frame_is_over(state, now));
    let counted = expired.received();
    if !counted.is_done(header) && !counted.is_behind(header) {
        let newest = counted.with_newest(sequence);
        lemma_opened_frames(newest, header, now, round_trip_time);
        let opened = newest.opened(header, now, round_trip_time);
        let place = video_assembly::place_of(opened.partial, sequence);
        let frame = opened.partial[place];
        let payload = datagram.skip(VIDEO_DATAGRAM_HEADER_SIZE as int);
        let index = header.chunk_index as int;
        let grown = frame.chunks.update(index, Some(payload));
        assert(frame.chunks[index] is None);
        let other: int = if index == 0 {
            1
        } else {
            0
        };
        assert(grown[other] == frame.chunks[other]);
        assert(frame.chunks[other] is None);
        assert(!video_assembly::all_present(grown));
        video_assembly::lemma_none_present(frame.chunks);
        video_assembly::lemma_present_update(frame.chunks, index, payload);
    }
}

/// A frame that comes out is of the datagram's sequence and tells what the
/// datagram tells, its payload has the size that was announced, and its frame
/// is done: it is the newest that was completed, and open no more.
#[verifier::spinoff_prover]
#[verifier::rlimit(60)]
pub proof fn law_a_completed_frame(
    state: AssemblerModel,
    datagram: Seq<u8>,
    now: Instant,
    round_trip_time: Duration,
)
    requires
        state.well_formed(),
    ensures
        ({
            let header = Header::spelled(datagram);
            let (after, result) = state.pushed(datagram, now, round_trip_time);
            &&& result matches Ok(assembly) ==> (assembly.frame matches Some(frame) ==> {
                &&& Header::is_chunk(datagram)
                &&& frame.sequence == header.sequence
                &&& frame.captured_at_micros == header.captured_at
                &&& frame.encoded_at_micros == header.encoded_at
                &&& frame.packetized_at_micros == header.packetized_at
                &&& frame.input_sequence == header.input_sequence
                &&& frame.keyframe == header.keyframe
                &&& frame.target_bitrate_bits_per_second == header.target_bitrate_bits_per_second
                &&& frame.estimated_capacity_bits_per_second
                    == header.estimated_capacity_bits_per_second
                &&& frame.payload.len() == header.frame_size
                &&& after.newest_completed_sequence == Some(header.sequence)
                &&& state.newest_completed_sequence matches Some(completed) ==> completed
                    < header.sequence
                &&& forall|i: int|
                    0 <= i < after.partial.len() ==> (#[trigger] after.partial[i]).header.sequence
                        != header.sequence
            })
            &&& !(result matches Ok(assembly) && assembly.frame is Some)
                ==> after.newest_completed_sequence == state.newest_completed_sequence
        }),
{
    let header = Header::spelled(datagram);
    lemma_expired_frames(state, now);
    video_assembly::lemma_expired_well_formed(state, now);
    if Header::is_chunk(datagram) {
        let newest = state.expired(now).received().with_newest(header.sequence);
        lemma_opened_frames(newest, header, now, round_trip_time);
        let opened = newest.opened(header, now, round_trip_time);
        let place = video_assembly::place_of(opened.partial, header.sequence);
        let frame = opened.partial[place];
        let grown = frame.chunks.update(
            header.chunk_index as int,
            Some(datagram.skip(VIDEO_DATAGRAM_HEADER_SIZE as int)),
        );
        video_assembly::lemma_joined_size(grown);
        video_assembly::lemma_joined_size(frame.chunks);
        if frame.header.same_frame(header) && frame.chunks[header.chunk_index as int] is None {
            video_assembly::lemma_present_update(
                frame.chunks,
                header.chunk_index as int,
                datagram.skip(VIDEO_DATAGRAM_HEADER_SIZE as int),
            );
        }
        let rest = opened.partial.remove(place);
        assert forall|i: int| 0 <= i < rest.len() implies (#[trigger] rest[i]).header.sequence
            != header.sequence by {
            if i < place {
                assert(rest[i] == opened.partial[i]);
                assert(opened.partial[i].header.sequence < opened.partial[place].header.sequence);
            } else {
                assert(rest[i] == opened.partial[i + 1]);
                assert(opened.partial[place].header.sequence < opened.partial[i
                    + 1].header.sequence);
            }
        }
    }
}

/// What a chunk leaves of the other frames: one whose deadline is still to come
/// stays as it is, unless it is the older of two and the chunk opens a third.
#[verifier::spinoff_prover]
#[verifier::rlimit(60)]
pub proof fn law_other_frames_stay(
    state: AssemblerModel,
    datagram: Seq<u8>,
    now: Instant,
    round_trip_time: Duration,
    other: int,
)
    requires
        state.well_formed(),
        0 <= other < state.partial.len(),
        now.nanos < state.partial[other].deadline.nanos,
        Header::is_chunk(datagram) ==> state.partial[other].header.sequence != Header::spelled(
            datagram,
        ).sequence,
        other == 0 ==> !two_others_are_open(state, Header::spelled(datagram).sequence, now),
    ensures
        state.pushed(datagram, now, round_trip_time).0.partial.contains(state.partial[other]),
{
    let header = Header::spelled(datagram);
    let frame = state.partial[other];
    let expired = state.expired(now);
    lemma_expired_frames(state, now);
    video_assembly::lemma_expired_well_formed(state, now);
    lemma_others_are_open(state, header.sequence, now);
    assert(expired.partial.contains(frame));
    let counted = expired.received();
    if Header::is_chunk(datagram) && !counted.is_done(header) && !counted.is_behind(header) {
        let newest = counted.with_newest(header.sequence);
        lemma_opened_frames(newest, header, now, round_trip_time);
        let opened = newest.opened(header, now, round_trip_time);
        let place = video_assembly::place_of(opened.partial, header.sequence);
        let k = choose|k: int| 0 <= k < expired.partial.len() && expired.partial[k] == frame;
        let roomy = newest.with_room();
        let at = if video_assembly::is_open(newest.partial, header.sequence) {
            k
        } else {
            let shifted = if newest.partial.len() >= 2 {
                k - 1
            } else {
                k
            };
            if newest.partial.len() >= 2 {
                assert(two_others_are_open(state, header.sequence, now));
                assert(expired == state);
                assert(other == 1 && k == 1) by {
                    if k == 0 {
                        assert(state.partial[0].header.sequence < state.partial[1].header.sequence);
                    }
                }
                assert(roomy.partial[shifted] == frame);
            }
            let stands = video_assembly::place_of(roomy.partial, header.sequence);
            if shifted < stands {
                shifted
            } else {
                shifted + 1
            }
        };
        if !video_assembly::is_open(newest.partial, header.sequence) {
            if newest.partial.len() < 2 {
                assert(roomy == newest);
            }
            video_assembly::lemma_place_of(roomy.partial, header.sequence);
        }
        assert(opened.partial[at] == frame);
        assert(at != place);
        let after = state.pushed(datagram, now, round_trip_time).0;
        if after.partial == opened.partial.remove(place) {
            let then_at = if at < place {
                at
            } else {
                at - 1
            };
            assert(after.partial[then_at] == frame);
        } else {
            assert(after.partial[at] == frame);
        }
    }
}

/// What a datagram counts, as long as no count is at its end: itself where it
/// is a chunk, itself as late where its frame is done or too far behind, a frame
/// and its bytes where it completes one, and a frame that makes room. It moves
/// the newest sequence up to its own where its frame is wanted.
#[verifier::spinoff_prover]
#[verifier::rlimit(60)]
pub proof fn law_what_a_datagram_counts(
    state: AssemblerModel,
    datagram: Seq<u8>,
    now: Instant,
    round_trip_time: Duration,
)
    requires
        state.well_formed(),
        state.stats.received_chunks < u64::MAX,
        state.stats.late_chunks < u64::MAX,
        state.stats.completed_frames < u64::MAX,
        state.stats.completed_payload_bytes + 0xffff_ffff <= u64::MAX,
        state.stats.assembly_overflows < u64::MAX,
    ensures
        ({
            let header = Header::spelled(datagram);
            let (after, result) = state.pushed(datagram, now, round_trip_time);
            let is_chunk = Header::is_chunk(datagram);
            let unwanted = comes_after_completion(state, header.sequence) || comes_too_far_behind(
                state,
                header.sequence,
            );
            let completes = result matches Ok(assembly) && assembly.frame is Some;
            let makes_room = is_chunk && !unwanted && two_others_are_open(
                state,
                header.sequence,
                now,
            );
            &&& !is_chunk <==> (result matches Err(error) && error
                == VideoDatagramError::MalformedHeader)
            &&& after.frame_period == state.frame_period
            &&& after.stats.received_chunks == state.stats.received_chunks + if is_chunk {
                1int
            } else {
                0
            }
            &&& after.stats.late_chunks == state.stats.late_chunks + if is_chunk && unwanted {
                1int
            } else {
                0
            }
            &&& after.stats.completed_frames == state.stats.completed_frames + if completes {
                1int
            } else {
                0
            }
            &&& after.stats.completed_payload_bytes == state.stats.completed_payload_bytes
                + if completes {
                header.frame_size as int
            } else {
                0
            }
            &&& after.stats.assembly_overflows == state.stats.assembly_overflows + if makes_room {
                1int
            } else {
                0
            }
            &&& !is_chunk || unwanted ==> after.newest_sequence == state.newest_sequence
            &&& is_chunk && !unwanted ==> (after.newest_sequence matches Some(newest) && newest
                >= header.sequence && match state.newest_sequence {
                Some(earlier) => newest >= earlier && (newest == earlier || newest
                    == header.sequence),
                None => newest == header.sequence,
            })
            &&& is_chunk && unwanted ==> (result matches Ok(assembly) && assembly.frame is None
                && assembly.progress is None)
        }),
{
    let header = Header::spelled(datagram);
    lemma_expired_counts(state, now);
    lemma_expired_frames(state, now);
    video_assembly::lemma_expired_well_formed(state, now);
    lemma_others_are_open(state, header.sequence, now);
    if Header::is_chunk(datagram) {
        let newest = state.expired(now).received().with_newest(header.sequence);
        lemma_opened_frames(newest, header, now, round_trip_time);
    }
}

/// Giving up frames counts them as incomplete and their missing chunks as lost,
/// and counts nothing else.
proof fn lemma_expired_counts(state: AssemblerModel, now: Instant)
    ensures
        ({
            let after = state.expired(now).stats;
            &&& after.received_chunks == state.stats.received_chunks
            &&& after.late_chunks == state.stats.late_chunks
            &&& after.assembly_overflows == state.stats.assembly_overflows
            &&& after.completed_frames == state.stats.completed_frames
            &&& after.completed_payload_bytes == state.stats.completed_payload_bytes
            &&& after.last_completed_assembly_micros == state.stats.last_completed_assembly_micros
            &&& after.last_assembly_budget_micros == state.stats.last_assembly_budget_micros
            &&& state.stats.incomplete_frames + state.partial.len() <= u64::MAX
                ==> after.incomplete_frames + state.expired(now).partial.len()
                == state.stats.incomplete_frames + state.partial.len()
            &&& state.expired(now).partial.len() <= state.partial.len()
        }),
    decreases state.partial.len(),
{
    if state.partial.len() > 0 {
        let shorter = AssemblerModel { partial: state.partial.drop_last(), ..state };
        lemma_expired_counts(shorter, now);
    }
}

/// Every frame that is opened and not completed is counted once as incomplete
/// when it is given up, in its time or for another: the frames that are open
/// and those given up are, together, one more than before where the datagram
/// opened a frame, and one less where its frame came to an end in it.
#[verifier::spinoff_prover]
#[verifier::rlimit(60)]
pub proof fn law_given_up_frames_are_counted(
    state: AssemblerModel,
    datagram: Seq<u8>,
    now: Instant,
    round_trip_time: Duration,
)
    requires
        state.well_formed(),
        state.stats.incomplete_frames + 3 <= u64::MAX,
        datagram.len() <= 0x7fff_ffff,
    ensures
        ({
            let header = Header::spelled(datagram);
            let (after, result) = state.pushed(datagram, now, round_trip_time);
            let unwanted = comes_after_completion(state, header.sequence) || comes_too_far_behind(
                state,
                header.sequence,
            );
            let was_open = exists|i: int|
                0 <= i < state.partial.len() && (#[trigger] state.partial[i]).header.sequence
                    == header.sequence && now.nanos < state.partial[i].deadline.nanos;
            let opens = Header::is_chunk(datagram) && !unwanted && !was_open;
            let ends = Header::is_chunk(datagram) && !unwanted && (match result {
                Ok(assembly) => assembly.frame is Some,
                Err(_) => true,
            });
            after.partial.len() + after.stats.incomplete_frames + (if ends {
                1int
            } else {
                0
            }) == state.partial.len() + state.stats.incomplete_frames + (if opens {
                1int
            } else {
                0
            })
        }),
{
    let header = Header::spelled(datagram);
    lemma_expired_counts(state, now);
    lemma_expired_frames(state, now);
    video_assembly::lemma_expired_well_formed(state, now);
    lemma_others_are_open(state, header.sequence, now);
    if Header::is_chunk(datagram) {
        let newest = state.expired(now).received().with_newest(header.sequence);
        lemma_opened_frames(newest, header, now, round_trip_time);
        let opened = newest.opened(header, now, round_trip_time);
        let place = video_assembly::place_of(opened.partial, header.sequence);
        assert(opened.partial[place].well_formed());
        assert(opened.partial.remove(place).len() == opened.partial.len() - 1);
    }
}

/// A chunk of a wanted frame stands in its place from then on, unless its place
/// was taken, and the other chunks of its frame stay: those that had come where
/// the frame was open, and none where it was not. The progress says whose it is
/// and how long the frame has been open.
#[verifier::spinoff_prover]
#[verifier::rlimit(60)]
pub proof fn law_a_chunk_takes_its_place(
    state: AssemblerModel,
    datagram: Seq<u8>,
    now: Instant,
    round_trip_time: Duration,
)
    requires
        state.well_formed(),
    ensures
        ({
            let header = Header::spelled(datagram);
            let (after, result) = state.pushed(datagram, now, round_trip_time);
            let place = video_assembly::place_of(after.partial, header.sequence);
            let earlier = video_assembly::place_of(state.expired(now).partial, header.sequence);
            let was_open = exists|i: int|
                0 <= i < state.partial.len() && (#[trigger] state.partial[i]).header.sequence
                    == header.sequence && now.nanos < state.partial[i].deadline.nanos;
            result matches Ok(assembly) ==> (assembly.progress matches Some(progress) ==> {
                &&& progress.sequence == header.sequence
                &&& progress.frame_size == header.frame_size
                &&& progress.expected_chunks == header.chunk_count
                &&& progress.target_bitrate_bits_per_second
                    == header.target_bitrate_bits_per_second
                &&& progress.estimated_capacity_bits_per_second
                    == header.estimated_capacity_bits_per_second
                &&& !was_open ==> progress.received_chunks == 1 && progress.elapsed.nanos == 0
                &&& assembly.frame is None ==> {
                    &&& 0 <= place < after.partial.len()
                    &&& after.partial[place].header.sequence == header.sequence
                    &&& after.partial[place].chunks.len() == header.chunk_count
                    &&& after.partial[place].chunks[header.chunk_index as int] is Some
                    &&& after.partial[place].started.nanos <= now.nanos ==> progress.elapsed.nanos
                        == now.nanos - after.partial[place].started.nanos
                    &&& progress.budget == after.partial[place].budget
                    &&& was_open ==> {
                        let before = state.expired(now).partial[earlier];
                        &&& before.header.sequence == header.sequence
                        &&& state.partial.contains(before)
                        &&& before.chunks[header.chunk_index as int] is None
                            ==> after.partial[place].chunks[header.chunk_index as int] == Some(
                            datagram.skip(68),
                        )
                        &&& before.chunks[header.chunk_index as int] is Some
                            ==> after.partial[place].chunks == before.chunks
                        &&& forall|i: int|
                            0 <= i < header.chunk_count && i != header.chunk_index
                                ==> #[trigger] after.partial[place].chunks[i] == before.chunks[i]
                    }
                    &&& !was_open ==> {
                        &&& after.partial[place].chunks[header.chunk_index as int] == Some(
                            datagram.skip(68),
                        )
                        &&& forall|i: int|
                            0 <= i < header.chunk_count && i != header.chunk_index ==> (
                            #[trigger] after.partial[place].chunks[i]) is None
                    }
                }
            })
        }),
{
    let header = Header::spelled(datagram);
    let expired = state.expired(now);
    lemma_expired_frames(state, now);
    video_assembly::lemma_expired_well_formed(state, now);
    lemma_others_are_open(state, header.sequence, now);
    let counted = expired.received();
    if Header::is_chunk(datagram) && !counted.is_done(header) && !counted.is_behind(header) {
        let newest = counted.with_newest(header.sequence);
        lemma_opened_frames(newest, header, now, round_trip_time);
        let opened = newest.opened(header, now, round_trip_time);
        let place = video_assembly::place_of(opened.partial, header.sequence);
        let frame = opened.partial[place];
        let payload = datagram.skip(VIDEO_DATAGRAM_HEADER_SIZE as int);
        let index = header.chunk_index as int;
        if video_assembly::is_open(newest.partial, header.sequence) {
            assert(expired.partial.contains(frame));
        } else {
            video_assembly::lemma_none_present(frame.chunks);
            assert(frame.chunks[index] is None);
        }
        if frame.header.same_frame(header) {
            let held = frame.chunks[index] is Some;
            let chunks = if held {
                frame.chunks
            } else {
                frame.chunks.update(index, Some(payload))
            };
            if !held {
                video_assembly::lemma_present_update(frame.chunks, index, payload);
                video_assembly::lemma_present_bounds(chunks);
            }
            let received = frame.received_bytes + if held {
                0nat
            } else {
                payload.len()
            };
            let grown = PartialModel { received_bytes: received, chunks, ..frame };
            if received <= header.frame_size {
                video_assembly::lemma_update_well_formed(opened, place, grown);
                video_assembly::lemma_found(opened.partial.update(place, grown), place);
            }
        }
    }
}

/// How long a frame may take: the longer of three frame periods and two round
/// trips, and never more than 100 ms.
pub proof fn law_how_long_a_frame_may_take(
    frame_period: Duration,
    round_trip_time: Duration,
    frames_per_second: u16,
)
    ensures
        ({
            let length = video_assembly::spec_assembly_deadline(frame_period, round_trip_time).nanos;
            let frames = 3 * frame_period.nanos;
            let trips = 2 * round_trip_time.nanos;
            &&& length <= 100_000_000
            &&& length == frames || length == trips || length == 100_000_000
            &&& length == 100_000_000 || (length >= frames && length >= trips)
            &&& length <= frames || length <= trips
        }),
        ({
            let fresh = AssemblerModel::initial(frames_per_second);
            let period = fresh.frame_period.nanos;
            &&& frames_per_second > 0 ==> period * frames_per_second <= 1_000_000_000 < (period + 1)
                * frames_per_second
            &&& frames_per_second == 0 ==> period == 100_000_000
            &&& fresh.partial.len() == 0
            &&& fresh.newest_sequence is None
            &&& fresh.newest_completed_sequence is None
            &&& fresh.stats.received_chunks == 0 && fresh.stats.lost_chunks == 0
            &&& fresh.stats.late_chunks == 0 && fresh.stats.assembly_overflows == 0
            &&& fresh.stats.completed_frames == 0 && fresh.stats.completed_payload_bytes == 0
            &&& fresh.stats.incomplete_frames == 0
        }),
{
    if frames_per_second > 0 {
        let rate = frames_per_second as int;
        let period = 1_000_000_000int / rate;
        assert(period * rate <= 1_000_000_000 < (period + 1) * rate && 0 <= period
            <= 1_000_000_000) by (nonlinear_arith)
            requires
                rate > 0,
                period == 1_000_000_000int / rate,
        ;
    }
}

/// How many of a frame's chunks have not come.
pub open spec fn chunks_to_come(frame: PartialModel) -> nat {
    frame.chunks.filter(|chunk: Option<Seq<u8>>| chunk is None).len()
}

proof fn lemma_chunks_to_come(chunks: Seq<Option<Seq<u8>>>)
    ensures
        video_assembly::present(chunks) + chunks.filter(
            |chunk: Option<Seq<u8>>| chunk is None,
        ).len() == chunks.len(),
    decreases chunks.len(),
{
    reveal(Seq::filter);
    if chunks.len() > 0 {
        lemma_chunks_to_come(chunks.drop_last());
    }
}

/// What one frame adds to the lost chunks when its deadline is over at `now`.
pub open spec fn lost_with(frame: PartialModel, now: Instant) -> nat {
    if frame.deadline.nanos <= now.nanos {
        chunks_to_come(frame)
    } else {
        0
    }
}

/// The chunks that have not come of a frame that is given up are counted as
/// lost: of each whose deadline is over, and of the older of two that leaves for
/// a third.
#[verifier::spinoff_prover]
#[verifier::rlimit(60)]
pub proof fn law_missing_chunks_are_lost(
    state: AssemblerModel,
    datagram: Seq<u8>,
    now: Instant,
    round_trip_time: Duration,
)
    requires
        state.well_formed(),
        state.stats.lost_chunks + 1_000_000 <= u64::MAX,
    ensures
        ({
            let header = Header::spelled(datagram);
            let after = state.pushed(datagram, now, round_trip_time).0;
            let unwanted = comes_after_completion(state, header.sequence) || comes_too_far_behind(
                state,
                header.sequence,
            );
            let makes_room = Header::is_chunk(datagram) && !unwanted && two_others_are_open(
                state,
                header.sequence,
                now,
            );
            after.stats.lost_chunks == state.stats.lost_chunks + (if state.partial.len() > 0 {
                lost_with(state.partial[0], now) as int
            } else {
                0
            }) + (if state.partial.len() > 1 {
                lost_with(state.partial[1], now) as int
            } else {
                0
            }) + (if makes_room {
                chunks_to_come(state.partial[0]) as int
            } else {
                0
            })
        }),
{
    let header = Header::spelled(datagram);
    lemma_expired_frames(state, now);
    video_assembly::lemma_expired_well_formed(state, now);
    lemma_others_are_open(state, header.sequence, now);
    lemma_expired_losses(state, now);
    let expired = state.expired(now);
    let counted = expired.received();
    assert(counted.stats.lost_chunks == expired.stats.lost_chunks);
    if Header::is_chunk(datagram) && !counted.is_done(header) && !counted.is_behind(header) {
        let newest = counted.with_newest(header.sequence);
        let opened = newest.opened(header, now, round_trip_time);
        if two_others_are_open(state, header.sequence, now) {
            assert(expired == state) by {
                assert forall|j: int| 0 <= j < state.partial.len() implies now.nanos < (
                #[trigger] state.partial[j]).deadline.nanos by {
                    assert(j == 0 || j == 1);
                }
            }
            lemma_chunks_to_come(state.partial[0].chunks);
            assert(state.partial[0].well_formed());
        }
    }
}

/// What giving up frames adds to the lost chunks.
proof fn lemma_expired_losses(state: AssemblerModel, now: Instant)
    requires
        state.well_formed(),
        state.stats.lost_chunks + 1_000_000 <= u64::MAX,
    ensures
        state.expired(now).stats.lost_chunks == state.stats.lost_chunks + (if state.partial.len()
            > 0 {
            lost_with(state.partial[0], now) as int
        } else {
            0
        }) + (if state.partial.len() > 1 {
            lost_with(state.partial[1], now) as int
        } else {
            0
        }),
        state.partial.len() > 0 ==> chunks_to_come(state.partial[0]) <= 65_535,
        state.partial.len() > 1 ==> chunks_to_come(state.partial[1]) <= 65_535,
{
    reveal_with_fuel(AssemblerModel::expired, 3);
    if state.partial.len() > 0 {
        lemma_chunks_to_come(state.partial[0].chunks);
        assert(state.partial[0].well_formed());
        assert(state.partial[0].missing() == chunks_to_come(state.partial[0]));
    }
    if state.partial.len() > 1 {
        lemma_chunks_to_come(state.partial[1].chunks);
        assert(state.partial[1].well_formed());
        assert(state.partial[1].missing() == chunks_to_come(state.partial[1]));
        let first = state.partial.drop_last();
        assert(first.last() == state.partial[0]);
        assert(first.drop_last().len() == 0);
    }
}

/// A wanted chunk ends in one of three ways: its frame is complete and comes
/// out, with the time that it took and might have taken in the statistics; or a
/// chunk of it is still to come; or the datagram is refused, because it tells
/// another frame than the chunks before it or because the bytes are not as many
/// as announced.
#[verifier::spinoff_prover]
#[verifier::rlimit(60)]
pub proof fn law_how_a_chunk_ends(
    state: AssemblerModel,
    datagram: Seq<u8>,
    now: Instant,
    round_trip_time: Duration,
)
    requires
        state.well_formed(),
        datagram.len() <= 0x7fff_ffff,
    ensures
        ({
            let header = Header::spelled(datagram);
            let (after, result) = state.pushed(datagram, now, round_trip_time);
            let place = video_assembly::place_of(after.partial, header.sequence);
            let earlier = video_assembly::place_of(state.expired(now).partial, header.sequence);
            let before = state.expired(now).partial[earlier];
            let was_open = exists|i: int|
                0 <= i < state.partial.len() && (#[trigger] state.partial[i]).header.sequence
                    == header.sequence && now.nanos < state.partial[i].deadline.nanos;
            let unwanted = comes_after_completion(state, header.sequence) || comes_too_far_behind(
                state,
                header.sequence,
            );
            Header::is_chunk(datagram) && !unwanted ==> match result {
                Ok(assembly) => {
                    &&& assembly.progress matches Some(progress)
                    &&& assembly.frame is Some ==> {
                        &&& progress.received_chunks == header.chunk_count
                        &&& after.stats.last_completed_assembly_micros
                            == progress.elapsed.spec_held_micros()
                        &&& after.stats.last_assembly_budget_micros
                            == progress.budget.spec_held_micros()
                    }
                    &&& assembly.frame is None ==> !video_assembly::all_present(
                        after.partial[place].chunks,
                    ) && after.stats.last_completed_assembly_micros
                        == state.stats.last_completed_assembly_micros
                    &&& was_open ==> before.header.same_frame(header)
                },
                Err(VideoDatagramError::InconsistentFrameHeader) => was_open
                    && !before.header.same_frame(header),
                Err(VideoDatagramError::InvalidFrameSize(size)) => {
                    &&& size != header.frame_size
                    &&& was_open ==> size == before.received_bytes + (
                    if before.chunks[header.chunk_index as int] is None {
                        datagram.len() - 68
                    } else {
                        0
                    })
                    &&& !was_open ==> size == datagram.len() - 68
                },
                Err(_) => false,
            }
        }),
{
    let header = Header::spelled(datagram);
    let expired = state.expired(now);
    lemma_expired_frames(state, now);
    lemma_expired_counts(state, now);
    video_assembly::lemma_expired_well_formed(state, now);
    lemma_others_are_open(state, header.sequence, now);
    let counted = expired.received();
    if Header::is_chunk(datagram) && !counted.is_done(header) && !counted.is_behind(header) {
        let newest = counted.with_newest(header.sequence);
        lemma_opened_frames(newest, header, now, round_trip_time);
        let opened = newest.opened(header, now, round_trip_time);
        let place = video_assembly::place_of(opened.partial, header.sequence);
        let frame = opened.partial[place];
        let payload = datagram.skip(VIDEO_DATAGRAM_HEADER_SIZE as int);
        let index = header.chunk_index as int;
        assert(frame.well_formed());
        if video_assembly::is_open(newest.partial, header.sequence) {
            assert(expired.partial.contains(frame));
        } else {
            video_assembly::lemma_none_present(frame.chunks);
            assert(frame.chunks[index] is None);
        }
        if frame.header.same_frame(header) {
            let held = frame.chunks[index] is Some;
            let chunks = if held {
                frame.chunks
            } else {
                frame.chunks.update(index, Some(payload))
            };
            if !held {
                video_assembly::lemma_present_update(frame.chunks, index, payload);
                video_assembly::lemma_present_bounds(chunks);
            }
            if video_assembly::all_present(chunks) {
                lemma_all_have_come(chunks);
            }
            let received = frame.received_bytes + if held {
                0nat
            } else {
                payload.len()
            };
            let grown = PartialModel { received_bytes: received, chunks, ..frame };
            if received <= header.frame_size {
                video_assembly::lemma_update_well_formed(opened, place, grown);
                video_assembly::lemma_found(opened.partial.update(place, grown), place);
            }
        }
    }
}

proof fn lemma_all_have_come(chunks: Seq<Option<Seq<u8>>>)
    requires
        video_assembly::all_present(chunks),
    ensures
        video_assembly::present(chunks) == chunks.len(),
    decreases chunks.len(),
{
    if chunks.len() > 0 {
        assert(chunks[chunks.len() - 1] is Some);
        assert forall|i: int| 0 <= i < chunks.drop_last().len() implies (
        #[trigger] chunks.drop_last()[i]) is Some by {
            assert(chunks[i] is Some);
        }
        lemma_all_have_come(chunks.drop_last());
    }
}

} // verus!
