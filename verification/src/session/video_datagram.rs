//! Bounded AV1 datagram packetization and two-frame assembly.

use crate::bytes;
use crate::bytes::{get_be, put_be, put_words2, put_words8};
use crate::session::chunking;
use vstd::prelude::*;

verus! {

pub const VIDEO_DATAGRAM_HEADER_SIZE: usize = 68;

pub const MAX_ENCODED_FRAME_SIZE: usize = 16_777_216;

/// One encoded picture and what is told of it.
#[derive(Clone, Debug, PartialEq, Eq)]
pub struct VideoFramePayload {
    pub sequence: u64,
    pub captured_at_micros: u64,
    pub encoded_at_micros: u64,
    pub packetized_at_micros: u64,
    pub input_sequence: u64,
    pub keyframe: bool,
    pub target_bitrate_bits_per_second: u64,
    pub estimated_capacity_bits_per_second: u64,
    pub payload: Vec<u8>,
}

/// The contents of a [`VideoFramePayload`].
#[verifier::ext_equal]
pub struct VideoFrameModel {
    pub sequence: u64,
    pub captured_at_micros: u64,
    pub encoded_at_micros: u64,
    pub packetized_at_micros: u64,
    pub input_sequence: u64,
    pub keyframe: bool,
    pub target_bitrate_bits_per_second: u64,
    pub estimated_capacity_bits_per_second: u64,
    pub payload: Seq<u8>,
}

impl View for VideoFramePayload {
    type V = VideoFrameModel;

    open spec fn view(&self) -> VideoFrameModel {
        VideoFrameModel {
            sequence: self.sequence,
            captured_at_micros: self.captured_at_micros,
            encoded_at_micros: self.encoded_at_micros,
            packetized_at_micros: self.packetized_at_micros,
            input_sequence: self.input_sequence,
            keyframe: self.keyframe,
            target_bitrate_bits_per_second: self.target_bitrate_bits_per_second,
            estimated_capacity_bits_per_second: self.estimated_capacity_bits_per_second,
            payload: self.payload@,
        }
    }
}

#[derive(Clone, Copy, Debug, PartialEq, Eq, Structural)]
pub enum VideoDatagramError {
    DatagramTooSmall(usize),
    InvalidFrameSize(usize),
    TooManyChunks,
    MalformedHeader,
    InconsistentFrameHeader,
}

/// The header of one chunk of a frame.
#[derive(Clone, Copy, Debug, PartialEq, Eq, Structural)]
pub struct Header {
    pub sequence: u64,
    pub captured_at: u64,
    pub encoded_at: u64,
    pub packetized_at: u64,
    pub input_sequence: u64,
    pub target_bitrate_bits_per_second: u64,
    pub estimated_capacity_bits_per_second: u64,
    pub frame_size: usize,
    pub chunk_index: usize,
    pub chunk_count: usize,
    pub keyframe: bool,
}

impl Header {
    pub open spec fn long_words(self) -> Seq<u64> {
        seq![
            self.sequence,
            self.captured_at,
            self.encoded_at,
            self.packetized_at,
            self.input_sequence,
            self.target_bitrate_bits_per_second,
            self.estimated_capacity_bits_per_second,
        ]
    }

    pub open spec fn short_words(self) -> Seq<u16> {
        seq![self.chunk_index as u16, self.chunk_count as u16]
    }

    /// "RC", version 4 and the keyframe flag.
    pub open spec fn opening(self) -> Seq<u8> {
        seq![
            82,
            67,
            4,
            if self.keyframe {
                1u8
            } else {
                0u8
            },
        ]
    }

    /// The 68 bytes of a header.
    pub open spec fn wire(self) -> Seq<u8> {
        self.opening() + bytes::words8(self.long_words()) + bytes::be_bytes(
            self.frame_size as nat,
            4,
        ) + bytes::words2(self.short_words())
    }

    /// A header that a chunk can have.
    pub open spec fn well_formed(self) -> bool {
        &&& 1 <= self.frame_size <= MAX_ENCODED_FRAME_SIZE
        &&& 1 <= self.chunk_count <= self.frame_size
        &&& self.chunk_count <= u16::MAX
        &&& self.chunk_index < self.chunk_count
    }

    /// The header that the first 68 bytes of a datagram spell.
    pub open spec fn spelled(datagram: Seq<u8>) -> Header {
        Header {
            sequence: bytes::be_value(datagram.subrange(4, 12)) as u64,
            captured_at: bytes::be_value(datagram.subrange(12, 20)) as u64,
            encoded_at: bytes::be_value(datagram.subrange(20, 28)) as u64,
            packetized_at: bytes::be_value(datagram.subrange(28, 36)) as u64,
            input_sequence: bytes::be_value(datagram.subrange(36, 44)) as u64,
            target_bitrate_bits_per_second: bytes::be_value(datagram.subrange(44, 52)) as u64,
            estimated_capacity_bits_per_second: bytes::be_value(datagram.subrange(52, 60)) as u64,
            frame_size: bytes::be_value(datagram.subrange(60, 64)) as usize,
            chunk_index: bytes::be_value(datagram.subrange(64, 66)) as usize,
            chunk_count: bytes::be_value(datagram.subrange(66, 68)) as usize,
            keyframe: datagram[3] == 1,
        }
    }

    /// The datagram is one chunk: the fixed parts, a well-formed header, and a payload.
    pub open spec fn is_chunk(datagram: Seq<u8>) -> bool {
        &&& datagram.len() > VIDEO_DATAGRAM_HEADER_SIZE
        &&& datagram[0] == 82
        &&& datagram[1] == 67
        &&& datagram[2] == 4
        &&& datagram[3] <= 1
        &&& Header::spelled(datagram).well_formed()
    }

    /// Two chunks tell the same of their frame.
    pub open spec fn same_frame(self, other: Header) -> bool {
        self == (Header { chunk_index: self.chunk_index, ..other })
    }
}

/// Reads the header of a chunk and what follows it.
pub fn parse_header(datagram: &[u8]) -> (result: Result<(Header, &[u8]), VideoDatagramError>)
    ensures
        match result {
            Ok((header, payload)) => Header::is_chunk(datagram@) && header == Header::spelled(
                datagram@,
            ) && payload@ == datagram@.skip(VIDEO_DATAGRAM_HEADER_SIZE as int),
            Err(error) => !Header::is_chunk(datagram@) && error
                == VideoDatagramError::MalformedHeader,
        },
{
    if datagram.len() <= VIDEO_DATAGRAM_HEADER_SIZE {
        return Err(VideoDatagramError::MalformedHeader);
    }
    if datagram[0] != 82 || datagram[1] != 67 || datagram[2] != 4 || datagram[3] > 1 {
        return Err(VideoDatagramError::MalformedHeader);
    }
    proof {
        bytes::lemma_be_bounds();
    }
    let frame_size: usize = get_be(datagram, 60, 4) as usize;
    let chunk_index: usize = get_be(datagram, 64, 2) as usize;
    let chunk_count: usize = get_be(datagram, 66, 2) as usize;
    if frame_size == 0 || frame_size > MAX_ENCODED_FRAME_SIZE || chunk_count == 0 || chunk_count
        > frame_size || chunk_index >= chunk_count {
        return Err(VideoDatagramError::MalformedHeader);
    }
    let header = Header {
        sequence: get_be(datagram, 4, 8),
        captured_at: get_be(datagram, 12, 8),
        encoded_at: get_be(datagram, 20, 8),
        packetized_at: get_be(datagram, 28, 8),
        input_sequence: get_be(datagram, 36, 8),
        target_bitrate_bits_per_second: get_be(datagram, 44, 8),
        estimated_capacity_bits_per_second: get_be(datagram, 52, 8),
        frame_size,
        chunk_index,
        chunk_count,
        keyframe: datagram[3] == 1,
    };
    let payload = vstd::slice::slice_subrange(
        datagram,
        VIDEO_DATAGRAM_HEADER_SIZE,
        datagram.len(),
    );
    assert(payload@ =~= datagram@.skip(VIDEO_DATAGRAM_HEADER_SIZE as int));
    Ok((header, payload))
}

/// A written chunk is read back.
pub proof fn lemma_chunk_round_trip(header: Header, payload: Seq<u8>)
    requires
        header.well_formed(),
        payload.len() > 0,
    ensures
        Header::is_chunk(header.wire() + payload),
        Header::spelled(header.wire() + payload) == header,
        (header.wire() + payload).skip(VIDEO_DATAGRAM_HEADER_SIZE as int) == payload,
{
    let datagram = header.wire() + payload;
    let opening = header.opening();
    let long = bytes::words8(header.long_words());
    let size = bytes::be_bytes(header.frame_size as nat, 4);
    let short = bytes::words2(header.short_words());
    bytes::lemma_be_bytes_size(header.frame_size as nat, 4);
    assert(header.wire().len() == VIDEO_DATAGRAM_HEADER_SIZE);
    assert(({
        &&& bytes::be_value(datagram.subrange(4, 12)) == header.sequence
        &&& bytes::be_value(datagram.subrange(12, 20)) == header.captured_at
        &&& bytes::be_value(datagram.subrange(20, 28)) == header.encoded_at
        &&& bytes::be_value(datagram.subrange(28, 36)) == header.packetized_at
        &&& bytes::be_value(datagram.subrange(36, 44)) == header.input_sequence
        &&& bytes::be_value(datagram.subrange(44, 52)) == header.target_bitrate_bits_per_second
        &&& bytes::be_value(datagram.subrange(52, 60)) == header.estimated_capacity_bits_per_second
    })) by {
        let l = header.long_words();
        bytes::lemma_words8(opening, l, size + short + payload);
        assert(datagram =~= opening + long + (size + short + payload));
        assert(l[0] == header.sequence && l[1] == header.captured_at && l[2] == header.encoded_at
            && l[3] == header.packetized_at);
        assert(l[4] == header.input_sequence && l[5] == header.target_bitrate_bits_per_second
            && l[6] == header.estimated_capacity_bits_per_second);
    }
    assert(bytes::be_value(datagram.subrange(60, 64)) == header.frame_size) by {
        bytes::lemma_be_bounds();
        bytes::lemma_be_at(opening + long, header.frame_size as nat, 4, short + payload);
        assert(datagram =~= (opening + long) + size + (short + payload));
    }
    assert(bytes::be_value(datagram.subrange(64, 66)) == header.chunk_index && bytes::be_value(
        datagram.subrange(66, 68),
    ) == header.chunk_count) by {
        let s = header.short_words();
        bytes::lemma_words2(opening + long + size, s, payload);
        assert(datagram =~= (opening + long + size) + short + payload);
        assert(s[0] == header.chunk_index && s[1] == header.chunk_count);
    }
    assert(datagram[0] == 82 && datagram[1] == 67 && datagram[2] == 4 && datagram[3]
        == header.opening()[3]);
    assert(datagram.skip(VIDEO_DATAGRAM_HEADER_SIZE as int) =~= payload);
}

/// The header of chunk `index` of `count`.
pub open spec fn header_of(frame: VideoFrameModel, index: int, count: nat) -> Header {
    Header {
        sequence: frame.sequence,
        captured_at: frame.captured_at_micros,
        encoded_at: frame.encoded_at_micros,
        packetized_at: frame.packetized_at_micros,
        input_sequence: frame.input_sequence,
        target_bitrate_bits_per_second: frame.target_bitrate_bits_per_second,
        estimated_capacity_bits_per_second: frame.estimated_capacity_bits_per_second,
        frame_size: frame.payload.len() as usize,
        chunk_index: index as usize,
        chunk_count: count as usize,
        keyframe: frame.keyframe,
    }
}

/// The datagrams of a frame: each a header and its part of the payload.
pub open spec fn datagrams_of(frame: VideoFrameModel, capacity: nat) -> Seq<Seq<u8>> {
    let count = chunking::chunks_needed(frame.payload.len(), capacity);
    Seq::new(
        count,
        |index: int|
            header_of(frame, index, count).wire()
                + chunking::chunk_of(frame.payload, capacity, index),
    )
}

/// Why a frame is not packetized, if it is not.
pub open spec fn packetize_error(size: usize, maximum_datagram_size: usize) -> Option<
    VideoDatagramError,
> {
    if size == 0 || size > MAX_ENCODED_FRAME_SIZE {
        Some(VideoDatagramError::InvalidFrameSize(size))
    } else if maximum_datagram_size <= VIDEO_DATAGRAM_HEADER_SIZE {
        Some(VideoDatagramError::DatagramTooSmall(maximum_datagram_size))
    } else if chunking::chunks_needed(
        size as nat,
        (maximum_datagram_size - VIDEO_DATAGRAM_HEADER_SIZE) as nat,
    ) > u16::MAX {
        Some(VideoDatagramError::TooManyChunks)
    } else {
        None
    }
}

/// Cuts a frame into datagrams of at most `maximum_datagram_size` bytes.
pub fn packetize_video_frame(frame: &VideoFramePayload, maximum_datagram_size: usize) -> (result:
    Result<Vec<Vec<u8>>, VideoDatagramError>)
    ensures
        match result {
            Ok(datagrams) => packetize_error(frame.payload@.len() as usize, maximum_datagram_size)
                is None && chunking::datagram_views(datagrams@) == datagrams_of(
                frame@,
                (maximum_datagram_size - VIDEO_DATAGRAM_HEADER_SIZE) as nat,
            ),
            Err(error) => packetize_error(frame.payload@.len() as usize, maximum_datagram_size)
                == Some(error),
        },
{
    let size: usize = frame.payload.len();
    if size == 0 || size > MAX_ENCODED_FRAME_SIZE {
        return Err(VideoDatagramError::InvalidFrameSize(size));
    }
    if maximum_datagram_size <= VIDEO_DATAGRAM_HEADER_SIZE {
        return Err(VideoDatagramError::DatagramTooSmall(maximum_datagram_size));
    }
    let capacity: usize = maximum_datagram_size - VIDEO_DATAGRAM_HEADER_SIZE;
    proof {
        chunking::lemma_chunks_needed(size as nat, capacity as nat);
    }
    let whole: usize = size / capacity;
    let count: usize = if size % capacity == 0 {
        whole
    } else {
        whole + 1
    };
    if count > u16::MAX as usize {
        return Err(VideoDatagramError::TooManyChunks);
    }
    let ghost expected = datagrams_of(frame@, capacity as nat);
    let mut datagrams: Vec<Vec<u8>> = Vec::with_capacity(count);
    let mut index: usize = 0;
    let mut start: usize = 0;
    while index < count
        invariant
            size == frame.payload@.len(),
            0 < size <= MAX_ENCODED_FRAME_SIZE,
            capacity > 0,
            count == chunking::chunks_needed(size as nat, capacity as nat),
            count <= u16::MAX,
            index <= count,
            index < count ==> start == index * capacity,
            expected == datagrams_of(frame@, capacity as nat),
            chunking::datagram_views(datagrams@) == expected.take(index as int),
        decreases count - index,
    {
        proof {
            chunking::lemma_chunk_bounds(size as nat, capacity as nat, index as int);
            chunking::lemma_chunks_needed(size as nat, capacity as nat);
        }
        let end: usize = if capacity <= size - start {
            start + capacity
        } else {
            size
        };
        let header = Header {
            sequence: frame.sequence,
            captured_at: frame.captured_at_micros,
            encoded_at: frame.encoded_at_micros,
            packetized_at: frame.packetized_at_micros,
            input_sequence: frame.input_sequence,
            target_bitrate_bits_per_second: frame.target_bitrate_bits_per_second,
            estimated_capacity_bits_per_second: frame.estimated_capacity_bits_per_second,
            frame_size: size,
            chunk_index: index,
            chunk_count: count,
            keyframe: frame.keyframe,
        };
        let mut datagram = encode_header(header);
        let chunk = vstd::slice::slice_subrange(frame.payload.as_slice(), start, end);
        datagram.extend_from_slice(chunk);
        assert(chunk@ =~= chunking::chunk_of(frame.payload@, capacity as nat, index as int));
        assert(datagram@ =~= expected[index as int]);
        let ghost before = datagrams@;
        datagrams.push(datagram);
        assert(chunking::datagram_views(datagrams@)
            =~= chunking::datagram_views(before).push(datagram@));
        assert(expected.take(index + 1)
            =~= expected.take(index as int).push(expected[index as int]));
        start = end;
        index = index + 1;
    }
    assert(expected.take(index as int) =~= expected);
    Ok(datagrams)
}

fn encode_header(header: Header) -> (bytes: Vec<u8>)
    requires
        header.well_formed(),
    ensures
        bytes@ == header.wire(),
{
    let mut out: Vec<u8> = Vec::new();
    out.push(82);
    out.push(67);
    out.push(4);
    out.push(
        if header.keyframe {
            1
        } else {
            0
        },
    );
    assert(out@ =~= header.opening());
    let long_words = vec![
        header.sequence,
        header.captured_at,
        header.encoded_at,
        header.packetized_at,
        header.input_sequence,
        header.target_bitrate_bits_per_second,
        header.estimated_capacity_bits_per_second,
    ];
    assert(long_words@ =~= header.long_words());
    put_words8(&mut out, &long_words);
    put_be(&mut out, header.frame_size as u64, 4);
    let short_words = vec![header.chunk_index as u16, header.chunk_count as u16];
    assert(short_words@ =~= header.short_words());
    put_words2(&mut out, &short_words);
    out
}

/// Where the parts of a chunk stand: "RC", the version and the keyframe flag,
/// then seven words of eight bytes, the size of the frame in four and the place
/// and the number of the chunks in two each, the highest byte first, and behind
/// these 68 bytes the payload.
pub proof fn law_chunk_layout(datagram: Seq<u8>)
    requires
        Header::is_chunk(datagram),
    ensures
        ({
            let header = Header::spelled(datagram);
            &&& datagram.len() > 68
            &&& datagram[0] == 82 && datagram[1] == 67 && datagram[2] == 4
            &&& header.keyframe <==> datagram[3] == 1
            &&& !header.keyframe <==> datagram[3] == 0
            &&& header.sequence == bytes::be_value(datagram.subrange(4, 12))
            &&& header.captured_at == bytes::be_value(datagram.subrange(12, 20))
            &&& header.encoded_at == bytes::be_value(datagram.subrange(20, 28))
            &&& header.packetized_at == bytes::be_value(datagram.subrange(28, 36))
            &&& header.input_sequence == bytes::be_value(datagram.subrange(36, 44))
            &&& header.target_bitrate_bits_per_second == bytes::be_value(
                datagram.subrange(44, 52),
            )
            &&& header.estimated_capacity_bits_per_second == bytes::be_value(
                datagram.subrange(52, 60),
            )
            &&& header.frame_size == 0x100_0000 * datagram[60] + 0x1_0000 * datagram[61] + 0x100
                * datagram[62] + datagram[63]
            &&& header.chunk_index == 0x100 * datagram[64] + datagram[65]
            &&& header.chunk_count == 0x100 * datagram[66] + datagram[67]
            &&& 1 <= header.chunk_count <= header.frame_size <= 16_777_216
            &&& header.chunk_index < header.chunk_count
        }),
{
    bytes::lemma_be_bounds();
    bytes::lemma_be_value_bound(datagram.subrange(4, 12));
    bytes::lemma_be_value_bound(datagram.subrange(12, 20));
    bytes::lemma_be_value_bound(datagram.subrange(20, 28));
    bytes::lemma_be_value_bound(datagram.subrange(28, 36));
    bytes::lemma_be_value_bound(datagram.subrange(36, 44));
    bytes::lemma_be_value_bound(datagram.subrange(44, 52));
    bytes::lemma_be_value_bound(datagram.subrange(52, 60));
    bytes::lemma_be_value_bound(datagram.subrange(60, 64));
    bytes::law_most_significant_byte_first(datagram.subrange(60, 64));
    bytes::law_most_significant_byte_first(datagram.subrange(64, 66));
    bytes::law_most_significant_byte_first(datagram.subrange(66, 68));
}

/// Two chunks are of one frame exactly where all that they tell of it agrees,
/// whatever their places are.
pub proof fn law_chunks_of_one_frame(left: Header, right: Header)
    ensures
        left.same_frame(right) <==> {
            &&& left.sequence == right.sequence
            &&& left.captured_at == right.captured_at
            &&& left.encoded_at == right.encoded_at
            &&& left.packetized_at == right.packetized_at
            &&& left.input_sequence == right.input_sequence
            &&& left.target_bitrate_bits_per_second == right.target_bitrate_bits_per_second
            &&& left.estimated_capacity_bits_per_second
                == right.estimated_capacity_bits_per_second
            &&& left.frame_size == right.frame_size
            &&& left.chunk_count == right.chunk_count
            &&& left.keyframe == right.keyframe
        },
{
}

/// Which frames are not cut, and why: an empty one and one of more than 16 MiB
/// for its size, any where a datagram has no room behind the 68 bytes of a
/// header, and one that 65535 such datagrams do not hold.
pub proof fn law_why_frames_are_not_cut(size: usize, maximum_datagram_size: usize)
    ensures
        ({
            let error = packetize_error(size, maximum_datagram_size);
            let fits = 1 <= size <= 16_777_216;
            &&& !fits <==> error == Some(VideoDatagramError::InvalidFrameSize(size))
            &&& fits && maximum_datagram_size <= 68 <==> error == Some(
                VideoDatagramError::DatagramTooSmall(maximum_datagram_size),
            )
            &&& fits && maximum_datagram_size > 68 && size > 65_535 * (maximum_datagram_size - 68)
                <==> error == Some(VideoDatagramError::TooManyChunks)
            &&& error is None <==> fits && maximum_datagram_size > 68 && size <= 65_535 * (
            maximum_datagram_size - 68)
        }),
{
    if 1 <= size <= 16_777_216 && maximum_datagram_size > 68 {
        let capacity = (maximum_datagram_size - 68) as nat;
        let count = chunking::chunks_needed(size as nat, capacity);
        chunking::lemma_chunks_needed(size as nat, capacity);
        assert(count <= 65_535 ==> count * capacity <= 65_535 * capacity) by (nonlinear_arith);
        assert(count > 65_535 ==> 65_535 * capacity <= (count - 1) * capacity) by (nonlinear_arith);
    }
}

} // verus!
