//! Assembly of video frames from their datagrams, two frames at a time.

use crate::bytes::owned;
use crate::session::video_datagram::{
    parse_header, Header, VideoDatagramError, VideoFrameModel, VideoFramePayload,
    VIDEO_DATAGRAM_HEADER_SIZE,
};
use crate::time::{Duration, Instant};
use vstd::prelude::*;

verus! {

/// Frames that are put together at the same time, at most.
pub const MAX_PARTIAL_FRAMES: usize = 2;

/// Counts over the life of an assembler. Each stops at the greatest integer.
#[derive(Clone, Copy, Debug, PartialEq, Eq, Structural)]
pub struct VideoAssemblyStats {
    pub received_chunks: u64,
    pub lost_chunks: u64,
    pub late_chunks: u64,
    pub assembly_overflows: u64,
    pub completed_frames: u64,
    pub completed_payload_bytes: u64,
    pub incomplete_frames: u64,
    pub last_completed_assembly_micros: u64,
    pub last_assembly_budget_micros: u64,
}

impl VideoAssemblyStats {
    pub open spec fn zero() -> VideoAssemblyStats {
        VideoAssemblyStats {
            received_chunks: 0,
            lost_chunks: 0,
            late_chunks: 0,
            assembly_overflows: 0,
            completed_frames: 0,
            completed_payload_bytes: 0,
            incomplete_frames: 0,
            last_completed_assembly_micros: 0,
            last_assembly_budget_micros: 0,
        }
    }
}

impl Default for VideoAssemblyStats {
    fn default() -> (stats: Self)
        ensures
            stats == VideoAssemblyStats::zero(),
    {
        VideoAssemblyStats {
            received_chunks: 0,
            lost_chunks: 0,
            late_chunks: 0,
            assembly_overflows: 0,
            completed_frames: 0,
            completed_payload_bytes: 0,
            incomplete_frames: 0,
            last_completed_assembly_micros: 0,
            last_assembly_budget_micros: 0,
        }
    }
}

/// How far a frame has come.
#[derive(Clone, Copy, Debug, PartialEq, Eq, Structural)]
pub struct FrameAssemblyProgress {
    pub sequence: u64,
    pub frame_size: usize,
    pub received_chunks: usize,
    pub expected_chunks: usize,
    pub elapsed: Duration,
    pub budget: Duration,
    pub target_bitrate_bits_per_second: u64,
    pub estimated_capacity_bits_per_second: u64,
}

/// What a datagram led to.
#[derive(Debug, PartialEq, Eq)]
pub struct AssemblyResult {
    pub frame: Option<VideoFramePayload>,
    pub dependency_lost: bool,
    pub progress: Option<FrameAssemblyProgress>,
}

/// The contents of an [`AssemblyResult`].
#[verifier::ext_equal]
pub struct AssemblyModel {
    pub frame: Option<VideoFrameModel>,
    pub dependency_lost: bool,
    pub progress: Option<FrameAssemblyProgress>,
}

impl View for AssemblyResult {
    type V = AssemblyModel;

    open spec fn view(&self) -> AssemblyModel {
        AssemblyModel {
            frame: match self.frame {
                Some(frame) => Some(frame@),
                None => None,
            },
            dependency_lost: self.dependency_lost,
            progress: self.progress,
        }
    }
}

/// Three frame periods or two round trips, whichever is longer, but 100 ms at most.
pub open spec fn spec_assembly_deadline(
    frame_period: Duration,
    round_trip_time: Duration,
) -> Duration {
    let frames = 3 * frame_period.nanos;
    let trips = 2 * round_trip_time.nanos;
    let longer = if frames >= trips {
        frames
    } else {
        trips
    };
    Duration {
        nanos: if longer <= 100_000_000 {
            longer as u128
        } else {
            100_000_000
        },
    }
}

#[must_use]
pub fn assembly_deadline(frame_period: Duration, round_trip_time: Duration) -> (deadline: Duration)
    ensures
        deadline == spec_assembly_deadline(frame_period, round_trip_time),
{
    let frames = frame_period.saturating_mul(3);
    let trips = round_trip_time.saturating_mul(2);
    let longer: u128 = if frames.nanos >= trips.nanos {
        frames.nanos
    } else {
        trips.nanos
    };
    Duration {
        nanos: if longer <= 100_000_000 {
            longer
        } else {
            100_000_000
        },
    }
}

/// A frame of which some chunks have come.
#[derive(Debug)]
struct PartialFrame {
    header: Header,
    started: Instant,
    budget: Duration,
    deadline: Instant,
    received_bytes: usize,
    chunks: Vec<Option<Vec<u8>>>,
}

/// The contents of a partial frame.
#[verifier::ext_equal]
pub struct PartialModel {
    pub header: Header,
    pub started: Instant,
    pub budget: Duration,
    pub deadline: Instant,
    pub received_bytes: nat,
    pub chunks: Seq<Option<Seq<u8>>>,
}

pub open spec fn chunk_view(chunk: Option<Vec<u8>>) -> Option<Seq<u8>> {
    match chunk {
        Some(bytes) => Some(bytes@),
        None => None,
    }
}

pub open spec fn chunk_views(chunks: Seq<Option<Vec<u8>>>) -> Seq<Option<Seq<u8>>> {
    chunks.map_values(|chunk: Option<Vec<u8>>| chunk_view(chunk))
}

impl PartialFrame {
    spec fn model(self) -> PartialModel {
        PartialModel {
            header: self.header,
            started: self.started,
            budget: self.budget,
            deadline: self.deadline,
            received_bytes: self.received_bytes as nat,
            chunks: chunk_views(self.chunks@),
        }
    }
}

/// How many chunks are there.
pub open spec fn present(chunks: Seq<Option<Seq<u8>>>) -> nat
    decreases chunks.len(),
{
    if chunks.len() == 0 {
        0
    } else {
        present(chunks.drop_last()) + if chunks.last() is Some {
            1nat
        } else {
            0nat
        }
    }
}

/// How many bytes the chunks that are there have.
pub open spec fn present_bytes(chunks: Seq<Option<Seq<u8>>>) -> nat
    decreases chunks.len(),
{
    if chunks.len() == 0 {
        0
    } else {
        present_bytes(chunks.drop_last()) + match chunks.last() {
            Some(bytes) => bytes.len(),
            None => 0,
        }
    }
}

/// The chunks one after the other.
pub open spec fn joined(chunks: Seq<Option<Seq<u8>>>) -> Seq<u8>
    decreases chunks.len(),
{
    if chunks.len() == 0 {
        Seq::empty()
    } else {
        joined(chunks.drop_last()) + match chunks.last() {
            Some(bytes) => bytes,
            None => Seq::empty(),
        }
    }
}

pub open spec fn all_present(chunks: Seq<Option<Seq<u8>>>) -> bool {
    forall|i: int| 0 <= i < chunks.len() ==> (#[trigger] chunks[i]) is Some
}

impl PartialModel {
    pub open spec fn well_formed(self) -> bool {
        &&& self.header.well_formed()
        &&& self.chunks.len() == self.header.chunk_count
        &&& self.received_bytes == present_bytes(self.chunks)
        &&& self.received_bytes <= self.header.frame_size
    }

    pub open spec fn missing(self) -> u64 {
        (self.chunks.len() - present(self.chunks)) as u64
    }

    pub open spec fn progress(self, now: Instant) -> FrameAssemblyProgress {
        FrameAssemblyProgress {
            sequence: self.header.sequence,
            frame_size: self.header.frame_size,
            received_chunks: present(self.chunks) as usize,
            expected_chunks: self.header.chunk_count,
            elapsed: now.spec_since(self.started),
            budget: self.budget,
            target_bitrate_bits_per_second: self.header.target_bitrate_bits_per_second,
            estimated_capacity_bits_per_second: self.header.estimated_capacity_bits_per_second,
        }
    }

    /// The frame that the chunks make up.
    pub open spec fn frame(self) -> VideoFrameModel {
        VideoFrameModel {
            sequence: self.header.sequence,
            captured_at_micros: self.header.captured_at,
            encoded_at_micros: self.header.encoded_at,
            packetized_at_micros: self.header.packetized_at,
            input_sequence: self.header.input_sequence,
            keyframe: self.header.keyframe,
            target_bitrate_bits_per_second: self.header.target_bitrate_bits_per_second,
            estimated_capacity_bits_per_second: self.header.estimated_capacity_bits_per_second,
            payload: joined(self.chunks),
        }
    }
}

/// The state of an assembler: the partial frames in the order of their sequences.
#[verifier::ext_equal]
pub struct AssemblerModel {
    pub frame_period: Duration,
    pub partial: Seq<PartialModel>,
    pub newest_sequence: Option<u64>,
    pub newest_completed_sequence: Option<u64>,
    pub stats: VideoAssemblyStats,
}

/// Where the frame `sequence` stands or would stand.
pub open spec fn place_of(partial: Seq<PartialModel>, sequence: u64) -> int
    decreases partial.len(),
{
    if partial.len() == 0 || partial.last().header.sequence < sequence {
        partial.len() as int
    } else {
        place_of(partial.drop_last(), sequence)
    }
}

pub open spec fn is_open(partial: Seq<PartialModel>, sequence: u64) -> bool {
    let place = place_of(partial, sequence);
    0 <= place < partial.len() && partial[place].header.sequence == sequence
}

impl AssemblerModel {
    pub open spec fn well_formed(self) -> bool {
        &&& self.partial.len() <= MAX_PARTIAL_FRAMES
        &&& forall|i: int|
            0 <= i < self.partial.len() ==> (#[trigger] self.partial[i]).well_formed()
        &&& forall|i: int, j: int|
            #![trigger self.partial[i], self.partial[j]]
            0 <= i < j < self.partial.len() ==> self.partial[i].header.sequence
                < self.partial[j].header.sequence
    }

    pub open spec fn initial(frames_per_second: u16) -> AssemblerModel {
        AssemblerModel {
            frame_period: Duration {
                nanos: if frames_per_second == 0 {
                    100_000_000
                } else {
                    (1_000_000_000int / frames_per_second as int) as u128
                },
            },
            partial: Seq::empty(),
            newest_sequence: None,
            newest_completed_sequence: None,
            stats: VideoAssemblyStats::zero(),
        }
    }

    /// Counts the missing chunks of a frame that is given up.
    pub open spec fn given_up(
        stats: VideoAssemblyStats,
        frame: PartialModel,
    ) -> VideoAssemblyStats {
        VideoAssemblyStats {
            lost_chunks: stats.lost_chunks.saturating_add(frame.missing()),
            incomplete_frames: stats.incomplete_frames.saturating_add(1),
            ..stats
        }
    }

    /// Gives up the frames whose time is over.
    pub open spec fn expired(self, now: Instant) -> AssemblerModel
        decreases self.partial.len(),
    {
        if self.partial.len() == 0 {
            self
        } else {
            let last = self.partial.last();
            let before = AssemblerModel { partial: self.partial.drop_last(), ..self }.expired(now);
            if last.deadline.nanos <= now.nanos {
                AssemblerModel { stats: Self::given_up(before.stats, last), ..before }
            } else {
                AssemblerModel { partial: before.partial.push(last), ..before }
            }
        }
    }

    pub open spec fn any_expired(self, now: Instant) -> bool {
        exists|i: int|
            0 <= i < self.partial.len() && (#[trigger] self.partial[i]).deadline.nanos <= now.nanos
    }

    /// Gives up the oldest frame where there is no room for one more.
    pub open spec fn with_room(self) -> AssemblerModel {
        if self.partial.len() < MAX_PARTIAL_FRAMES {
            self
        } else {
            let stats = Self::given_up(self.stats, self.partial[0]);
            AssemblerModel {
                partial: self.partial.skip(1),
                stats: VideoAssemblyStats {
                    assembly_overflows: stats.assembly_overflows.saturating_add(1),
                    ..stats
                },
                ..self
            }
        }
    }

    /// Opens the frame of `header` unless it is open.
    pub open spec fn opened(
        self,
        header: Header,
        now: Instant,
        round_trip_time: Duration,
    ) -> AssemblerModel {
        if is_open(self.partial, header.sequence) {
            self
        } else {
            let roomy = self.with_room();
            let budget = spec_assembly_deadline(self.frame_period, round_trip_time);
            let frame = PartialModel {
                header,
                started: now,
                budget,
                deadline: now.spec_after(budget),
                received_bytes: 0,
                chunks: Seq::new(header.chunk_count as nat, |i: int| None),
            };
            AssemblerModel {
                partial: roomy.partial.insert(place_of(roomy.partial, header.sequence), frame),
                ..roomy
            }
        }
    }

    /// The datagram comes after its frame was completed.
    pub open spec fn is_done(self, header: Header) -> bool {
        self.newest_completed_sequence matches Some(sequence) && header.sequence <= sequence
    }

    /// The datagram is of a frame more than two behind the newest.
    pub open spec fn is_behind(self, header: Header) -> bool {
        self.newest_sequence matches Some(sequence) && header.sequence.saturating_add(2) < sequence
    }

    pub open spec fn with_newest(self, sequence: u64) -> AssemblerModel {
        AssemblerModel {
            newest_sequence: Some(
                match self.newest_sequence {
                    Some(newest) if newest >= sequence => newest,
                    _ => sequence,
                },
            ),
            ..self
        }
    }

    pub open spec fn without(self, place: int) -> AssemblerModel {
        AssemblerModel { partial: self.partial.remove(place), ..self }
    }

    /// Puts a chunk into its open frame.
    pub open spec fn accepted(
        self,
        header: Header,
        payload: Seq<u8>,
        now: Instant,
        dependency_lost: bool,
    ) -> (AssemblerModel, Result<AssemblyModel, VideoDatagramError>) {
        let place = place_of(self.partial, header.sequence);
        let frame = self.partial[place];
        let held = frame.chunks[header.chunk_index as int] is Some;
        let received = frame.received_bytes + if held {
            0nat
        } else {
            payload.len()
        };
        if !frame.header.same_frame(header) {
            (self.without(place), Err(VideoDatagramError::InconsistentFrameHeader))
        } else if received > usize::MAX {
            (self, Err(VideoDatagramError::InvalidFrameSize(usize::MAX)))
        } else if received > header.frame_size {
            (self.without(place), Err(VideoDatagramError::InvalidFrameSize(received as usize)))
        } else {
            let grown = PartialModel {
                received_bytes: received,
                chunks: if held {
                    frame.chunks
                } else {
                    frame.chunks.update(header.chunk_index as int, Some(payload))
                },
                ..frame
            };
            if !all_present(grown.chunks) {
                (
                    AssemblerModel { partial: self.partial.update(place, grown), ..self },
                    Ok(
                        AssemblyModel {
                            frame: None,
                            dependency_lost,
                            progress: Some(grown.progress(now)),
                        },
                    ),
                )
            } else if received != header.frame_size {
                (self.without(place), Err(VideoDatagramError::InvalidFrameSize(received as usize)))
            } else {
                (self.without(place).completed(grown, now), Ok(
                    AssemblyModel {
                        frame: Some(grown.frame()),
                        dependency_lost: dependency_lost || (self.newest_completed_sequence
                            matches Some(sequence) && header.sequence > sequence.saturating_add(1)),
                        progress: Some(grown.progress(now)),
                    },
                ))
            }
        }
    }

    pub open spec fn completed(self, frame: PartialModel, now: Instant) -> AssemblerModel {
        AssemblerModel {
            newest_completed_sequence: Some(frame.header.sequence),
            stats: VideoAssemblyStats {
                completed_frames: self.stats.completed_frames.saturating_add(1),
                completed_payload_bytes: self.stats.completed_payload_bytes.saturating_add(
                    frame.header.frame_size as u64,
                ),
                last_completed_assembly_micros: now.spec_since(frame.started).spec_held_micros(),
                last_assembly_budget_micros: frame.budget.spec_held_micros(),
                ..self.stats
            },
            ..self
        }
    }

    pub open spec fn received(self) -> AssemblerModel {
        AssemblerModel {
            stats: VideoAssemblyStats {
                received_chunks: self.stats.received_chunks.saturating_add(1),
                ..self.stats
            },
            ..self
        }
    }

    pub open spec fn late(self) -> AssemblerModel {
        AssemblerModel {
            stats: VideoAssemblyStats {
                late_chunks: self.stats.late_chunks.saturating_add(1),
                ..self.stats
            },
            ..self
        }
    }

    /// The state after a datagram, and what it led to.
    pub open spec fn pushed(
        self,
        datagram: Seq<u8>,
        now: Instant,
        round_trip_time: Duration,
    ) -> (AssemblerModel, Result<AssemblyModel, VideoDatagramError>) {
        let lost = self.any_expired(now);
        if !Header::is_chunk(datagram) {
            (self.expired(now), Err(VideoDatagramError::MalformedHeader))
        } else {
            let header = Header::spelled(datagram);
            let payload = datagram.skip(VIDEO_DATAGRAM_HEADER_SIZE as int);
            let counted = self.expired(now).received();
            if counted.is_done(header) {
                (
                    counted.late(),
                    Ok(AssemblyModel { frame: None, dependency_lost: lost, progress: None }),
                )
            } else if counted.is_behind(header) {
                (
                    counted.late(),
                    Ok(AssemblyModel { frame: None, dependency_lost: true, progress: None }),
                )
            } else {
                let newest = counted.with_newest(header.sequence);
                let evicts = !is_open(newest.partial, header.sequence) && newest.partial.len()
                    >= MAX_PARTIAL_FRAMES;
                newest.opened(header, now, round_trip_time).accepted(
                    header,
                    payload,
                    now,
                    lost || evicts,
                )
            }
        }
    }
}

/// Puts video frames together from their datagrams.
#[derive(Debug)]
pub struct VideoFrameAssembler {
    frame_period: Duration,
    partial: Vec<PartialFrame>,
    newest_sequence: Option<u64>,
    newest_completed_sequence: Option<u64>,
    stats: VideoAssemblyStats,
}

spec fn partial_models(partial: Seq<PartialFrame>) -> Seq<PartialModel> {
    partial.map_values(|frame: PartialFrame| frame.model())
}

impl View for VideoFrameAssembler {
    type V = AssemblerModel;

    closed spec fn view(&self) -> AssemblerModel {
        AssemblerModel {
            frame_period: self.frame_period,
            partial: partial_models(self.partial@),
            newest_sequence: self.newest_sequence,
            newest_completed_sequence: self.newest_completed_sequence,
            stats: self.stats,
        }
    }
}

pub proof fn lemma_present_bounds(chunks: Seq<Option<Seq<u8>>>)
    ensures
        present(chunks) <= chunks.len(),
    decreases chunks.len(),
{
    if chunks.len() > 0 {
        lemma_present_bounds(chunks.drop_last());
    }
}

pub proof fn lemma_none_present(chunks: Seq<Option<Seq<u8>>>)
    requires
        forall|i: int| 0 <= i < chunks.len() ==> (#[trigger] chunks[i]) is None,
    ensures
        present_bytes(chunks) == 0,
        present(chunks) == 0,
    decreases chunks.len(),
{
    if chunks.len() > 0 {
        assert(chunks.last() == chunks[chunks.len() - 1]);
        assert forall|i: int| 0 <= i < chunks.drop_last().len() implies (
        #[trigger] chunks.drop_last()[i]) is None by {
            assert(chunks[i] is None);
        }
        lemma_none_present(chunks.drop_last());
    }
}

pub proof fn lemma_present_update(chunks: Seq<Option<Seq<u8>>>, index: int, bytes: Seq<u8>)
    requires
        0 <= index < chunks.len(),
        chunks[index] is None,
    ensures
        present_bytes(chunks.update(index, Some(bytes))) == present_bytes(chunks) + bytes.len(),
        present(chunks.update(index, Some(bytes))) == present(chunks) + 1,
    decreases chunks.len(),
{
    let updated = chunks.update(index, Some(bytes));
    if index == chunks.len() - 1 {
        assert(updated.drop_last() =~= chunks.drop_last());
    } else {
        lemma_present_update(chunks.drop_last(), index, bytes);
        assert(updated.drop_last() =~= chunks.drop_last().update(index, Some(bytes)));
        assert(updated.last() == chunks.last());
    }
}

pub proof fn lemma_joined_size(chunks: Seq<Option<Seq<u8>>>)
    ensures
        joined(chunks).len() == present_bytes(chunks),
    decreases chunks.len(),
{
    if chunks.len() > 0 {
        lemma_joined_size(chunks.drop_last());
    }
}

pub proof fn lemma_place_of(partial: Seq<PartialModel>, sequence: u64)
    requires
        forall|i: int, j: int|
            #![trigger partial[i], partial[j]]
            0 <= i < j < partial.len() ==> partial[i].header.sequence
                < partial[j].header.sequence,
    ensures
        0 <= place_of(partial, sequence) <= partial.len(),
        forall|i: int|
            0 <= i < place_of(partial, sequence) ==> (#[trigger] partial[i]).header.sequence
                < sequence,
        forall|i: int|
            place_of(partial, sequence) <= i < partial.len() ==> (
            #[trigger] partial[i]).header.sequence >= sequence,
    decreases partial.len(),
{
    if partial.len() > 0 && partial.last().header.sequence >= sequence {
        let shorter = partial.drop_last();
        assert forall|i: int, j: int|
            #![trigger shorter[i], shorter[j]]
            0 <= i < j < shorter.len() implies shorter[i].header.sequence
            < shorter[j].header.sequence by {
            assert(partial[i].header.sequence < partial[j].header.sequence);
        }
        lemma_place_of(shorter, sequence);
        assert forall|i: int| 0 <= i < place_of(partial, sequence) implies (
        #[trigger] partial[i]).header.sequence < sequence by {
            assert(shorter[i].header.sequence < sequence);
        }
        assert forall|i: int| place_of(partial, sequence) <= i < partial.len() implies (
        #[trigger] partial[i]).header.sequence >= sequence by {
            if i < shorter.len() {
                assert(shorter[i].header.sequence >= sequence);
            }
        }
    } else if partial.len() > 0 {
        assert forall|i: int| 0 <= i < partial.len() implies (
        #[trigger] partial[i]).header.sequence < sequence by {
            if i < partial.len() - 1 {
                assert(partial[i].header.sequence < partial[partial.len() - 1].header.sequence);
            }
        }
    }
}

/// A frame that is there is found.
pub proof fn lemma_found(partial: Seq<PartialModel>, index: int)
    requires
        forall|i: int, j: int|
            #![trigger partial[i], partial[j]]
            0 <= i < j < partial.len() ==> partial[i].header.sequence
                < partial[j].header.sequence,
        0 <= index < partial.len(),
    ensures
        place_of(partial, partial[index].header.sequence) == index,
{
    let sequence = partial[index].header.sequence;
    lemma_place_of(partial, sequence);
    let place = place_of(partial, sequence);
    if place < index {
        assert(partial[place].header.sequence < partial[index].header.sequence);
    }
}

fn count_present(chunks: &Vec<Option<Vec<u8>>>) -> (count: usize)
    ensures
        count == present(chunk_views(chunks@)),
        count <= chunks@.len(),
{
    let ghost views = chunk_views(chunks@);
    let mut count: usize = 0;
    let mut index: usize = 0;
    while index < chunks.len()
        invariant
            views == chunk_views(chunks@),
            index <= chunks@.len(),
            count <= index,
            count == present(views.take(index as int)),
        decreases chunks@.len() - index,
    {
        let ghost next = views.take(index + 1);
        assert(next.drop_last() =~= views.take(index as int));
        assert(next.last() == chunk_view(chunks@[index as int]));
        if chunks[index].is_some() {
            count = count + 1;
        }
        index = index + 1;
    }
    assert(views.take(index as int) =~= views);
    count
}

fn have_all(chunks: &Vec<Option<Vec<u8>>>) -> (result: bool)
    ensures
        result == all_present(chunk_views(chunks@)),
{
    let ghost views = chunk_views(chunks@);
    let mut index: usize = 0;
    while index < chunks.len()
        invariant
            views == chunk_views(chunks@),
            index <= chunks@.len(),
            forall|i: int| 0 <= i < index ==> (#[trigger] views[i]) is Some,
        decreases chunks@.len() - index,
    {
        if chunks[index].is_none() {
            assert(views[index as int] is None);
            return false;
        }
        index = index + 1;
    }
    true
}

fn join(chunks: &Vec<Option<Vec<u8>>>) -> (payload: Vec<u8>)
    ensures
        payload@ == joined(chunk_views(chunks@)),
{
    let ghost views = chunk_views(chunks@);
    let mut payload: Vec<u8> = Vec::new();
    let mut index: usize = 0;
    while index < chunks.len()
        invariant
            views == chunk_views(chunks@),
            index <= chunks@.len(),
            payload@ == joined(views.take(index as int)),
        decreases chunks@.len() - index,
    {
        let ghost next = views.take(index + 1);
        let ghost before = payload@;
        assert(next.drop_last() =~= views.take(index as int));
        assert(next.last() == chunk_view(chunks@[index as int]));
        match &chunks[index] {
            Some(bytes) => {
                payload.extend_from_slice(bytes.as_slice());
                assert(payload@ =~= before + bytes@);
            },
            None => {
                assert(payload@ =~= before + Seq::<u8>::empty());
            },
        }
        index = index + 1;
    }
    assert(views.take(index as int) =~= views);
    payload
}

fn empty_chunks(count: usize) -> (chunks: Vec<Option<Vec<u8>>>)
    ensures
        chunk_views(chunks@) == Seq::new(count as nat, |i: int| None::<Seq<u8>>),
{
    let mut chunks: Vec<Option<Vec<u8>>> = Vec::with_capacity(count);
    let mut index: usize = 0;
    while index < count
        invariant
            index <= count,
            chunks@.len() == index,
            forall|i: int| 0 <= i < index ==> (#[trigger] chunks@[i]) is None,
        decreases count - index,
    {
        chunks.push(None);
        index = index + 1;
    }
    assert(chunk_views(chunks@) =~= Seq::new(count as nat, |i: int| None::<Seq<u8>>));
    chunks
}

fn missing_chunks(frame: &PartialFrame) -> (missing: u64)
    ensures
        missing == frame.model().missing(),
{
    proof {
        lemma_present_bounds(chunk_views(frame.chunks@));
    }
    let present_count: usize = count_present(&frame.chunks);
    (frame.chunks.len() - present_count) as u64
}

/// Whether two chunks tell the same of their frame.
fn tells_the_same(left: Header, right: Header) -> (result: bool)
    ensures
        result == left.same_frame(right),
{
    left.sequence == right.sequence && left.captured_at == right.captured_at && left.encoded_at
        == right.encoded_at && left.packetized_at == right.packetized_at && left.input_sequence
        == right.input_sequence && left.frame_size == right.frame_size && left.chunk_count
        == right.chunk_count && left.keyframe == right.keyframe
        && left.target_bitrate_bits_per_second == right.target_bitrate_bits_per_second
        && left.estimated_capacity_bits_per_second == right.estimated_capacity_bits_per_second
}

impl VideoFrameAssembler {
    #[must_use]
    pub fn new(frames_per_second: u16) -> (assembler: Self)
        ensures
            assembler@ == AssemblerModel::initial(frames_per_second),
            assembler@.well_formed(),
    {
        let nanos: u128 = if frames_per_second == 0 {
            100_000_000
        } else {
            1_000_000_000 / frames_per_second as u128
        };
        let assembler = VideoFrameAssembler {
            frame_period: Duration { nanos },
            partial: Vec::new(),
            newest_sequence: None,
            newest_completed_sequence: None,
            stats: VideoAssemblyStats::default(),
        };
        assert(partial_models(assembler.partial@) =~= Seq::empty());
        assembler
    }

    #[must_use]
    pub fn stats(&self) -> (stats: VideoAssemblyStats)
        ensures
            stats == self@.stats,
    {
        self.stats
    }

    /// The sequences of the frames that are being put together.
    pub fn partial_sequences(&self) -> (sequences: Vec<u64>)
        ensures
            sequences@ == self@.partial.map_values(|frame: PartialModel| frame.header.sequence),
    {
        let mut sequences: Vec<u64> = Vec::new();
        let mut index: usize = 0;
        while index < self.partial.len()
            invariant
                index <= self.partial@.len(),
                sequences@.len() == index,
                forall|i: int|
                    0 <= i < index ==> (#[trigger] sequences@[i])
                        == self.partial@[i].header.sequence,
            decreases self.partial@.len() - index,
        {
            sequences.push(self.partial[index].header.sequence);
            index = index + 1;
        }
        assert(sequences@ =~= self@.partial.map_values(
            |frame: PartialModel| frame.header.sequence,
        ));
        sequences
    }

    /// Counts the missing chunks of a frame that is given up.
    fn give_up(stats: &mut VideoAssemblyStats, frame: &PartialFrame)
        ensures
            *final(stats) == AssemblerModel::given_up(*old(stats), frame.model()),
    {
        let missing: u64 = missing_chunks(frame);
        stats.lost_chunks = stats.lost_chunks.saturating_add(missing);
        stats.incomplete_frames = stats.incomplete_frames.saturating_add(1);
    }

    fn expire(&mut self, now: Instant) -> (lost: bool)
        requires
            old(self)@.well_formed(),
        ensures
            final(self)@ == old(self)@.expired(now),
            final(self)@.well_formed(),
            lost == old(self)@.any_expired(now),
    {
        let ghost start = self@;
        let mut lost = false;
        let mut kept: Vec<PartialFrame> = Vec::new();
        let mut all: Vec<PartialFrame> = Vec::new();
        all.append(&mut self.partial);
        let ghost models = partial_models(all@);
        assert(models =~= start.partial);
        let ghost count = all@.len();
        let mut done: Ghost<int> = Ghost(0);
        assert(AssemblerModel { partial: models.take(0), ..start } =~= AssemblerModel {
            partial: Seq::empty(),
            ..start
        });
        assert(partial_models(kept@) =~= Seq::empty());
        while all.len() > 0
            invariant
                0 <= done@ <= models.len(),
                models == start.partial,
                start.well_formed(),
                partial_models(all@) == models.skip(done@),
                self.frame_period == start.frame_period,
                self.newest_sequence == start.newest_sequence,
                self.newest_completed_sequence == start.newest_completed_sequence,
                ({
                    let soon = AssemblerModel { partial: models.take(done@), ..start }.expired(now);
                    &&& soon.partial == partial_models(kept@)
                    &&& soon.stats == self.stats
                    &&& soon.frame_period == start.frame_period
                    &&& soon.newest_sequence == start.newest_sequence
                    &&& soon.newest_completed_sequence == start.newest_completed_sequence
                }),
                lost == exists|i: int|
                    0 <= i < done@ && (#[trigger] models[i]).deadline.nanos <= now.nanos,
            decreases all@.len(),
        {
            let ghost all_before = all@;
            let frame = all.remove(0);
            proof {
                assert(partial_models(all_before).len() == all_before.len());
                assert(models.skip(done@).len() == models.len() - done@);
                assert(partial_models(all_before)[0] == all_before[0].model());
                assert(models.skip(done@)[0] == models[done@]);
                assert forall|i: int| 0 <= i < all@.len() implies partial_models(all@)[i]
                    == models.skip(done@ + 1)[i] by {
                    assert(all@[i] == all_before[i + 1]);
                    assert(partial_models(all_before)[i + 1] == models.skip(done@)[i + 1]);
                }
                assert(partial_models(all@) =~= models.skip(done@ + 1));
                let next = AssemblerModel { partial: models.take(done@ + 1), ..start };
                assert(next.partial.drop_last() =~= models.take(done@));
                assert(next.partial.last() == models[done@]);
                assert(AssemblerModel { partial: next.partial.drop_last(), ..next }
                    == AssemblerModel { partial: models.take(done@), ..start });
            }
            if frame.deadline.nanos <= now.nanos {
                let mut stats = self.stats;
                Self::give_up(&mut stats, &frame);
                self.stats = stats;
                assert(models[done@].deadline.nanos <= now.nanos);
                lost = true;
            } else {
                let ghost kept_before = kept@;
                kept.push(frame);
                assert(partial_models(kept@) =~= partial_models(kept_before).push(frame.model()));
            }
            proof {
                done@ = done@ + 1;
            }
        }
        self.partial = kept;
        proof {
            assert(models.take(done@) =~= models);
            assert(AssemblerModel { partial: models, ..start } =~= start);
            assert(self@ =~= start.expired(now));
            lemma_expired_well_formed(start, now);
        }
        lost
    }
}

impl VideoFrameAssembler {
    /// Where the frame `sequence` stands or would stand.
    fn find(&self, sequence: u64) -> (place: usize)
        ensures
            place == place_of(self@.partial, sequence),
            place <= self.partial@.len(),
    {
        let ghost models = self@.partial;
        let mut place: usize = self.partial.len();
        assert(models.take(place as int) =~= models);
        while place > 0 && self.partial[place - 1].header.sequence >= sequence
            invariant
                models == partial_models(self.partial@),
                place <= self.partial@.len(),
                place_of(models, sequence) == place_of(models.take(place as int), sequence),
            decreases place,
        {
            let ghost held = models.take(place as int);
            assert(held.drop_last() =~= models.take(place - 1));
            assert(held.last() == self.partial@[place - 1].model());
            place = place - 1;
        }
        let ghost held = models.take(place as int);
        assert(place > 0 ==> held.last() == self.partial@[place - 1].model());
        place
    }

    /// Gives up the oldest frame where there is no room for one more.
    fn make_room(&mut self)
        requires
            old(self)@.well_formed(),
        ensures
            final(self)@ == old(self)@.with_room(),
            final(self)@.well_formed(),
            final(self)@.partial.len() < MAX_PARTIAL_FRAMES,
    {
        if self.partial.len() >= MAX_PARTIAL_FRAMES {
            let ghost before = self@.partial;
            let discarded = self.partial.remove(0);
            assert(discarded.model() == before[0]);
            let mut stats = self.stats;
            Self::give_up(&mut stats, &discarded);
            stats.assembly_overflows = stats.assembly_overflows.saturating_add(1);
            self.stats = stats;
            proof {
                assert(partial_models(self.partial@) =~= before.skip(1));
                assert(self@ =~= old(self)@.with_room());
                let after = self@.partial;
                assert forall|i: int| 0 <= i < after.len() implies (
                #[trigger] after[i]).well_formed() by {
                    assert(after[i] == before[i + 1]);
                }
            }
        }
    }

    /// Opens the frame of `header` unless it is open.
    fn open(&mut self, header: Header, now: Instant, round_trip_time: Duration)
        requires
            old(self)@.well_formed(),
            header.well_formed(),
        ensures
            final(self)@ == old(self)@.opened(header, now, round_trip_time),
            final(self)@.well_formed(),
            is_open(final(self)@.partial, header.sequence),
    {
        let place: usize = self.find(header.sequence);
        let ghost before = self@;
        if place < self.partial.len() && self.partial[place].header.sequence == header.sequence {
            assert(self@.partial[place as int].header.sequence == header.sequence);
            return;
        }
        assert(!is_open(before.partial, header.sequence)) by {
            if is_open(before.partial, header.sequence) {
                assert(before.partial[place as int] == self.partial@[place as int].model());
            }
        }
        self.make_room();
        assert(!is_open(self@.partial, header.sequence)) by {
            let after = self@.partial;
            if is_open(after, header.sequence) {
                let found = place_of(after, header.sequence);
                let shift = before.partial.len() - after.len();
                assert(before.partial[found + shift] == after[found]);
                lemma_found(before.partial, found + shift);
            }
        }
        let budget = assembly_deadline(self.frame_period, round_trip_time);
        let frame = PartialFrame {
            header,
            started: now,
            budget,
            deadline: now.after(budget),
            received_bytes: 0,
            chunks: empty_chunks(header.chunk_count),
        };
        let spot: usize = self.find(header.sequence);
        let ghost roomy = self@;
        let ghost model = frame.model();
        self.partial.insert(spot, frame);
        proof {
            assert(partial_models(self.partial@) =~= roomy.partial.insert(spot as int, model));
            assert(self@ =~= old(self)@.opened(header, now, round_trip_time));
            lemma_none_present(model.chunks);
            lemma_opened(roomy, model);
        }
    }
}

pub open spec fn result_view(result: Result<AssemblyResult, VideoDatagramError>) -> Result<
    AssemblyModel,
    VideoDatagramError,
> {
    match result {
        Ok(assembly) => Ok(assembly@),
        Err(error) => Err(error),
    }
}

impl VideoFrameAssembler {
    /// Puts a chunk into its open frame.
    fn accept(
        &mut self,
        header: Header,
        payload: &[u8],
        now: Instant,
        dependency_lost: bool,
    ) -> (result:
        Result<AssemblyResult, VideoDatagramError>)
        requires
            old(self)@.well_formed(),
            header.well_formed(),
            is_open(old(self)@.partial, header.sequence),
        ensures
            (final(self)@, result_view(result)) == old(self)@.accepted(
                header,
                payload@,
                now,
                dependency_lost,
            ),
            final(self)@.well_formed(),
    {
        let ghost start = self@;
        let place: usize = self.find(header.sequence);
        let mut frame = self.partial.remove(place);
        let ghost model = frame.model();
        let ghost rest = self@;
        proof {
            assert(model == start.partial[place as int]);
            assert(partial_models(self.partial@) =~= start.partial.remove(place as int));
            assert(rest =~= start.without(place as int));
            lemma_without_well_formed(start, place as int);
            assert(model.well_formed());
        }
        if !tells_the_same(frame.header, header) {
            return Err(VideoDatagramError::InconsistentFrameHeader);
        }
        let index: usize = header.chunk_index;
        assert(model.chunks[index as int] == chunk_view(frame.chunks@[index as int]));
        if frame.chunks[index].is_none() {
            match frame.received_bytes.checked_add(payload.len()) {
                Some(received) => {
                    if received > header.frame_size {
                        return Err(VideoDatagramError::InvalidFrameSize(received));
                    }
                    frame.received_bytes = received;
                },
                None => {
                    self.partial.insert(place, frame);
                    assert(partial_models(self.partial@) =~= start.partial);
                    assert(self@ =~= start);
                    return Err(VideoDatagramError::InvalidFrameSize(usize::MAX));
                },
            }
            let chunk = owned(payload);
            frame.chunks.set(index, Some(chunk));
            proof {
                assert(chunk_views(frame.chunks@) =~= model.chunks.update(
                    index as int,
                    Some(payload@),
                ));
                lemma_present_update(model.chunks, index as int, payload@);
            }
        }
        let ghost grown = frame.model();
        assert(grown.well_formed());
        let progress = FrameAssemblyProgress {
            sequence: header.sequence,
            frame_size: header.frame_size,
            received_chunks: count_present(&frame.chunks),
            expected_chunks: header.chunk_count,
            elapsed: now.saturating_duration_since(frame.started),
            budget: frame.budget,
            target_bitrate_bits_per_second: header.target_bitrate_bits_per_second,
            estimated_capacity_bits_per_second: header.estimated_capacity_bits_per_second,
        };
        assert(progress == grown.progress(now));
        if !have_all(&frame.chunks) {
            self.partial.insert(place, frame);
            proof {
                assert(partial_models(self.partial@) =~= start.partial.update(
                    place as int,
                    grown,
                ));
                assert(self@ =~= AssemblerModel {
                    partial: start.partial.update(place as int, grown),
                    ..start
                });
                lemma_update_well_formed(start, place as int, grown);
            }
            return Ok(
                AssemblyResult { frame: None, dependency_lost, progress: Some(progress) },
            );
        }
        if frame.received_bytes != header.frame_size {
            return Err(VideoDatagramError::InvalidFrameSize(frame.received_bytes));
        }
        let skipped = match self.newest_completed_sequence {
            Some(sequence) => header.sequence > sequence.saturating_add(1),
            None => false,
        };
        let joined_payload = join(&frame.chunks);
        self.newest_completed_sequence = Some(header.sequence);
        self.stats.completed_frames = self.stats.completed_frames.saturating_add(1);
        self.stats.completed_payload_bytes = self.stats.completed_payload_bytes.saturating_add(
            header.frame_size as u64,
        );
        self.stats.last_completed_assembly_micros = progress.elapsed.held_micros();
        self.stats.last_assembly_budget_micros = progress.budget.held_micros();
        proof {
            assert(self@ =~= rest.completed(grown, now));
        }
        Ok(
            AssemblyResult {
                frame: Some(
                    VideoFramePayload {
                        sequence: header.sequence,
                        captured_at_micros: header.captured_at,
                        encoded_at_micros: header.encoded_at,
                        packetized_at_micros: header.packetized_at,
                        input_sequence: header.input_sequence,
                        keyframe: header.keyframe,
                        target_bitrate_bits_per_second: header.target_bitrate_bits_per_second,
                        estimated_capacity_bits_per_second:
                            header.estimated_capacity_bits_per_second,
                        payload: joined_payload,
                    },
                ),
                dependency_lost: dependency_lost || skipped,
                progress: Some(progress),
            },
        )
    }

    /// Takes a datagram in: the frame that it completes, if it does, and whether
    /// a frame that later ones build on was lost.
    pub fn push(&mut self, datagram: &[u8], now: Instant, round_trip_time: Duration) -> (result:
        Result<AssemblyResult, VideoDatagramError>)
        requires
            old(self)@.well_formed(),
        ensures
            (final(self)@, result_view(result)) == old(self)@.pushed(
                datagram@,
                now,
                round_trip_time,
            ),
            final(self)@.well_formed(),
    {
        let mut dependency_lost = self.expire(now);
        let (header, payload) = match parse_header(datagram) {
            Ok(parsed) => parsed,
            Err(error) => {
                return Err(error);
            },
        };
        let ghost expired = self@;
        self.stats.received_chunks = self.stats.received_chunks.saturating_add(1);
        assert(self@ =~= expired.received());
        let done = match self.newest_completed_sequence {
            Some(sequence) => header.sequence <= sequence,
            None => false,
        };
        if done {
            self.stats.late_chunks = self.stats.late_chunks.saturating_add(1);
            assert(self@ =~= expired.received().late());
            return Ok(AssemblyResult { frame: None, dependency_lost, progress: None });
        }
        let behind = match self.newest_sequence {
            Some(sequence) => header.sequence.saturating_add(2) < sequence,
            None => false,
        };
        if behind {
            self.stats.late_chunks = self.stats.late_chunks.saturating_add(1);
            assert(self@ =~= expired.received().late());
            return Ok(AssemblyResult { frame: None, dependency_lost: true, progress: None });
        }
        let newest: u64 = match self.newest_sequence {
            Some(sequence) => if sequence >= header.sequence {
                sequence
            } else {
                header.sequence
            },
            None => header.sequence,
        };
        self.newest_sequence = Some(newest);
        let ghost fresh = self@;
        assert(fresh =~= expired.received().with_newest(header.sequence));
        let place: usize = self.find(header.sequence);
        let is_new = place >= self.partial.len() || self.partial[place].header.sequence
            != header.sequence;
        assert(is_new == !is_open(fresh.partial, header.sequence)) by {
            if place < self.partial@.len() {
                assert(fresh.partial[place as int] == self.partial@[place as int].model());
            }
        }
        if is_new && self.partial.len() >= MAX_PARTIAL_FRAMES {
            dependency_lost = true;
        }
        self.open(header, now, round_trip_time);
        self.accept(header, payload, now, dependency_lost)
    }
}

pub proof fn lemma_without_well_formed(state: AssemblerModel, place: int)
    requires
        state.well_formed(),
        0 <= place < state.partial.len(),
    ensures
        state.without(place).well_formed(),
{
    let after = state.without(place).partial;
    let before = state.partial;
    assert forall|i: int| 0 <= i < after.len() implies (#[trigger] after[i]).well_formed() by {
        assert(after[i] == before[if i < place {
            i
        } else {
            i + 1
        }]);
    }
    assert forall|i: int, j: int|
        #![trigger after[i], after[j]]
        0 <= i < j < after.len() implies after[i].header.sequence < after[j].header.sequence by {
        assert(after[i] == before[if i < place {
            i
        } else {
            i + 1
        }]);
        assert(after[j] == before[if j < place {
            j
        } else {
            j + 1
        }]);
    }
}

pub proof fn lemma_update_well_formed(state: AssemblerModel, place: int, frame: PartialModel)
    requires
        state.well_formed(),
        0 <= place < state.partial.len(),
        frame.well_formed(),
        frame.header.sequence == state.partial[place].header.sequence,
    ensures
        (AssemblerModel { partial: state.partial.update(place, frame), ..state }).well_formed(),
{
    let after = state.partial.update(place, frame);
    assert forall|i: int, j: int|
        #![trigger after[i], after[j]]
        0 <= i < j < after.len() implies after[i].header.sequence < after[j].header.sequence by {
        assert(state.partial[i].header.sequence < state.partial[j].header.sequence);
    }
}

/// A frame that is put in its place is open, and the order stays.
pub proof fn lemma_opened(state: AssemblerModel, frame: PartialModel)
    requires
        state.well_formed(),
        state.partial.len() < MAX_PARTIAL_FRAMES,
        frame.well_formed(),
        !is_open(state.partial, frame.header.sequence),
    ensures
        ({
            let place = place_of(state.partial, frame.header.sequence);
            let after = AssemblerModel { partial: state.partial.insert(place, frame), ..state };
            &&& after.well_formed()
            &&& place_of(after.partial, frame.header.sequence) == place
            &&& 0 <= place <= state.partial.len()
        }),
{
    let sequence = frame.header.sequence;
    let place = place_of(state.partial, sequence);
    lemma_place_of(state.partial, sequence);
    let partial = state.partial.insert(place, frame);
    assert forall|i: int| 0 <= i < partial.len() implies (#[trigger] partial[i]).well_formed() by {
        if i < place {
            assert(partial[i] == state.partial[i]);
        } else if i > place {
            assert(partial[i] == state.partial[i - 1]);
        }
    }
    assert forall|i: int, j: int|
        #![trigger partial[i], partial[j]]
        0 <= i < j < partial.len() implies partial[i].header.sequence
        < partial[j].header.sequence by {
        let a = if i < place {
            i
        } else {
            i - 1
        };
        let b = if j < place {
            j
        } else {
            j - 1
        };
        if i != place {
            assert(partial[i] == state.partial[a]);
        }
        if j != place {
            assert(partial[j] == state.partial[b]);
        }
        if i == place {
            assert(state.partial[b].header.sequence >= sequence);
            if b == place {
                assert(!is_open(state.partial, sequence));
            } else {
                assert(state.partial[place].header.sequence < state.partial[b].header.sequence);
            }
        } else if j == place {
            assert(state.partial[a].header.sequence < sequence);
        }
    }
    lemma_place_of(partial, sequence);
    let found = place_of(partial, sequence);
    if found < place {
        assert(partial[found].header.sequence >= sequence);
        assert(partial[found] == state.partial[found]);
    } else if found > place {
        assert(partial[place].header.sequence < sequence);
    }
}

/// Giving up frames leaves the rest in order.
pub proof fn lemma_expired_well_formed(state: AssemblerModel, now: Instant)
    requires
        state.well_formed(),
    ensures
        state.expired(now).well_formed(),
        state.expired(now).partial.len() <= state.partial.len(),
        forall|frame: PartialModel| #[trigger]
            state.expired(now).partial.contains(frame) ==> state.partial.contains(frame),
        state.expired(now).frame_period == state.frame_period,
        state.expired(now).newest_sequence == state.newest_sequence,
        state.expired(now).newest_completed_sequence == state.newest_completed_sequence,
    decreases state.partial.len(),
{
    if state.partial.len() > 0 {
        let shorter = AssemblerModel { partial: state.partial.drop_last(), ..state };
        assert(shorter.well_formed()) by {
            assert forall|i: int, j: int|
                #![trigger shorter.partial[i], shorter.partial[j]]
                0 <= i < j < shorter.partial.len() implies shorter.partial[i].header.sequence
                < shorter.partial[j].header.sequence by {
                assert(state.partial[i].header.sequence < state.partial[j].header.sequence);
            }
        }
        lemma_expired_well_formed(shorter, now);
        let before = shorter.expired(now);
        let after = state.expired(now);
        let last = state.partial.last();
        assert(state.partial[state.partial.len() - 1] == last);
        assert forall|frame: PartialModel| after.partial.contains(frame) implies state.partial.contains(
            frame,
        ) by {
            let i = choose|i: int| 0 <= i < after.partial.len() && after.partial[i] == frame;
            if i < before.partial.len() {
                assert(before.partial[i] == frame);
                assert(before.partial.contains(frame));
                let j = choose|j: int| 0 <= j < shorter.partial.len()
                    && shorter.partial[j] == frame;
                assert(state.partial[j] == frame);
            }
        }
        assert forall|i: int, j: int|
            #![trigger after.partial[i], after.partial[j]]
            0 <= i < j < after.partial.len() implies after.partial[i].header.sequence
            < after.partial[j].header.sequence by {
            assert(after.partial[i] == before.partial[i]);
            if j == before.partial.len() {
                assert(before.partial.contains(before.partial[i]));
                let k = choose|k: int|
                    0 <= k < shorter.partial.len() && shorter.partial[k] == before.partial[i];
                assert(state.partial[k].header.sequence < state.partial[state.partial.len()
                    - 1].header.sequence);
            } else {
                assert(after.partial[j] == before.partial[j]);
            }
        }
        assert forall|i: int| 0 <= i < after.partial.len() implies (
        #[trigger] after.partial[i]).well_formed() by {
            if i < before.partial.len() {
                assert(after.partial[i] == before.partial[i]);
            }
        }
    }
}

} // verus!
