//! Versioned Opus fragment headers, independent of transport and codec libraries.

use crate::bytes;
use crate::bytes::{get_be, put_be, put_words2, put_words8};
use vstd::prelude::*;

verus! {

pub const HEADER_SIZE: usize = 48;

pub const MAX_PACKET_SIZE: usize = 7_657;

pub const MAX_FRAGMENTS: usize = 64;

pub const PACKET_DURATION_MICROS: u64 = 10_000;

/// The two bytes that every audio datagram starts with: "RA".
pub open spec fn magic() -> Seq<u8> {
    seq![82, 65]
}

/// Whether a datagram is one of audio.
pub open spec fn is_audio(datagram: Seq<u8>) -> bool {
    datagram.len() >= 2 && datagram.take(2) == magic()
}

/// Whether a datagram is one of audio.
pub fn has_audio_magic(datagram: &[u8]) -> (result: bool)
    ensures
        result == is_audio(datagram@),
{
    if datagram.len() < 2 {
        return false;
    }
    let result = datagram[0] == 82 && datagram[1] == 65;
    proof {
        let start = datagram@.take(2);
        if result {
            assert(start =~= magic());
        } else if start == magic() {
            assert(start[0] == 82 && start[1] == 65);
        }
    }
    result
}

/// One encoded audio packet.
#[derive(Clone, Debug, PartialEq, Eq)]
pub struct AudioPacket {
    pub generation: u64,
    pub sequence: u64,
    pub captured_at_micros: u64,
    pub decoded_samples: u16,
    pub skip_start_samples: u16,
    pub skip_end_samples: u16,
    pub payload: Vec<u8>,
}

/// The contents of an [`AudioPacket`].
#[verifier::ext_equal]
pub struct AudioPacketModel {
    pub generation: u64,
    pub sequence: u64,
    pub captured_at_micros: u64,
    pub decoded_samples: u16,
    pub skip_start_samples: u16,
    pub skip_end_samples: u16,
    pub payload: Seq<u8>,
}

impl View for AudioPacket {
    type V = AudioPacketModel;

    open spec fn view(&self) -> AudioPacketModel {
        AudioPacketModel {
            generation: self.generation,
            sequence: self.sequence,
            captured_at_micros: self.captured_at_micros,
            decoded_samples: self.decoded_samples,
            skip_start_samples: self.skip_start_samples,
            skip_end_samples: self.skip_end_samples,
            payload: self.payload@,
        }
    }
}

/// The header of one fragment of a packet.
#[derive(Clone, Copy, Debug, PartialEq, Eq, Structural)]
pub struct Header {
    pub generation: u64,
    pub sequence: u64,
    pub captured_at_micros: u64,
    pub decoded_samples: u16,
    pub skip_start_samples: u16,
    pub skip_end_samples: u16,
    pub packet_size: u16,
    pub fragment_index: u16,
    pub fragment_count: u16,
    pub offset: u16,
    pub payload_size: u16,
}

impl Header {
    /// The header describes a fragment that can exist.
    pub open spec fn well_formed(self) -> bool {
        &&& self.generation != 0
        &&& self.decoded_samples == 480
        &&& self.skip_start_samples + self.skip_end_samples <= self.decoded_samples
        &&& 1 <= self.packet_size <= MAX_PACKET_SIZE
        &&& 1 <= self.fragment_count <= MAX_FRAGMENTS
        &&& self.fragment_index < self.fragment_count
        &&& self.payload_size != 0
        &&& self.offset + self.payload_size <= self.packet_size
    }

    pub open spec fn long_words(self) -> Seq<u64> {
        seq![self.generation, self.sequence, self.captured_at_micros]
    }

    pub open spec fn short_words(self) -> Seq<u16> {
        seq![
            self.decoded_samples,
            self.skip_start_samples,
            self.skip_end_samples,
            self.packet_size,
            self.fragment_index,
            self.fragment_count,
            self.offset,
            self.payload_size,
        ]
    }

    /// The 48 bytes of a header: magic, version 1, stereo, the three long
    /// words, the sample rate and the eight short words.
    pub open spec fn wire(self) -> Seq<u8> {
        seq![82, 65, 1, 2] + bytes::words8(self.long_words()) + bytes::be_bytes(48_000, 4)
            + bytes::words2(self.short_words())
    }

    /// The header that the first 48 bytes of `data` spell.
    pub open spec fn spelled(data: Seq<u8>) -> Header {
        Header {
            generation: bytes::be_value(data.subrange(4, 12)) as u64,
            sequence: bytes::be_value(data.subrange(12, 20)) as u64,
            captured_at_micros: bytes::be_value(data.subrange(20, 28)) as u64,
            decoded_samples: bytes::be_value(data.subrange(32, 34)) as u16,
            skip_start_samples: bytes::be_value(data.subrange(34, 36)) as u16,
            skip_end_samples: bytes::be_value(data.subrange(36, 38)) as u16,
            packet_size: bytes::be_value(data.subrange(38, 40)) as u16,
            fragment_index: bytes::be_value(data.subrange(40, 42)) as u16,
            fragment_count: bytes::be_value(data.subrange(42, 44)) as u16,
            offset: bytes::be_value(data.subrange(44, 46)) as u16,
            payload_size: bytes::be_value(data.subrange(46, 48)) as u16,
        }
    }

    /// The datagram has the fixed parts of a header and something after it.
    pub open spec fn is_framed(data: Seq<u8>) -> bool {
        &&& data.len() > HEADER_SIZE
        &&& data[0] == 82
        &&& data[1] == 65
        &&& data[2] == 1
        &&& data[3] == 2
        &&& bytes::be_value(data.subrange(28, 32)) == 48_000
    }

    /// The datagram is one fragment: a well-formed header and its payload.
    pub open spec fn is_fragment(data: Seq<u8>) -> bool {
        &&& Header::is_framed(data)
        &&& Header::spelled(data).well_formed()
        &&& data.len() == HEADER_SIZE + Header::spelled(data).payload_size
    }

    pub fn valid(self) -> (result: bool)
        ensures
            result == self.well_formed(),
    {
        self.generation != 0 && self.decoded_samples == 480 && self.skip_start_samples as u32
            + self.skip_end_samples as u32 <= self.decoded_samples as u32 && 1 <= self.packet_size
            && self.packet_size as usize <= MAX_PACKET_SIZE && 1 <= self.fragment_count
            && self.fragment_count as usize <= MAX_FRAGMENTS && self.fragment_index
            < self.fragment_count && self.payload_size != 0 && self.offset as u32
            + self.payload_size as u32 <= self.packet_size as u32
    }

    pub fn encode(self) -> (result: Result<Vec<u8>, &'static str>)
        ensures
            match result {
                Ok(out) => self.well_formed() && out@ == self.wire(),
                Err(error) => !self.well_formed() && error@ == "invalid audio fragment header"@,
            },
    {
        if !self.valid() {
            return Err("invalid audio fragment header");
        }
        let mut out: Vec<u8> = Vec::with_capacity(HEADER_SIZE);
        out.push(82);
        out.push(65);
        out.push(1);
        // Stereo layout, left then right.
        out.push(2);
        assert(out@ =~= seq![82u8, 65, 1, 2]);
        let long_words = vec![self.generation, self.sequence, self.captured_at_micros];
        assert(long_words@ =~= self.long_words());
        put_words8(&mut out, &long_words);
        put_be(&mut out, 48_000, 4);
        let short_words = vec![
            self.decoded_samples,
            self.skip_start_samples,
            self.skip_end_samples,
            self.packet_size,
            self.fragment_index,
            self.fragment_count,
            self.offset,
            self.payload_size,
        ];
        assert(short_words@ =~= self.short_words());
        put_words2(&mut out, &short_words);
        Ok(out)
    }

    pub fn decode(data: &[u8]) -> (result: Result<(Self, &[u8]), &'static str>)
        ensures
            match result {
                Ok((header, payload)) => Header::is_fragment(data@) && header == Header::spelled(
                    data@,
                ) && payload@ == data@.skip(HEADER_SIZE as int),
                Err(error) => if Header::is_framed(data@) {
                    !Header::is_fragment(data@) && error@ == "invalid audio fragment size"@
                } else {
                    error@ == "invalid audio datagram"@
                },
            },
    {
        if data.len() <= HEADER_SIZE || data[0] != 82 || data[1] != 65 || data[2] != 1 || data[3]
            != 2 || get_be(data, 28, 4) != 48_000 {
            return Err("invalid audio datagram");
        }
        proof {
            bytes::lemma_be_bounds();
        }
        let header = Header {
            generation: get_be(data, 4, 8),
            sequence: get_be(data, 12, 8),
            captured_at_micros: get_be(data, 20, 8),
            decoded_samples: get_be(data, 32, 2) as u16,
            skip_start_samples: get_be(data, 34, 2) as u16,
            skip_end_samples: get_be(data, 36, 2) as u16,
            packet_size: get_be(data, 38, 2) as u16,
            fragment_index: get_be(data, 40, 2) as u16,
            fragment_count: get_be(data, 42, 2) as u16,
            offset: get_be(data, 44, 2) as u16,
            payload_size: get_be(data, 46, 2) as u16,
        };
        if !header.valid() || data.len() != HEADER_SIZE + header.payload_size as usize {
            return Err("invalid audio fragment size");
        }
        let payload = vstd::slice::slice_subrange(data, HEADER_SIZE, data.len());
        assert(payload@ =~= data@.skip(HEADER_SIZE as int));
        Ok((header, payload))
    }
}

/// Every well-formed header with a payload of its size is read back.
#[verifier::spinoff_prover]
#[verifier::rlimit(60)]
pub proof fn law_audio_fragment_round_trip(header: Header, payload: Seq<u8>)
    requires
        header.well_formed(),
        payload.len() == header.payload_size,
    ensures
        Header::is_fragment(header.wire() + payload),
        Header::spelled(header.wire() + payload) == header,
        (header.wire() + payload).skip(HEADER_SIZE as int) == payload,
{
    let data = header.wire() + payload;
    let start = seq![82u8, 65, 1, 2];
    let long = bytes::words8(header.long_words());
    let rate = bytes::be_bytes(48_000, 4);
    let short = bytes::words2(header.short_words());
    bytes::lemma_be_bounds();
    bytes::lemma_be_bytes_size(48_000, 4);
    bytes::lemma_words8(start, header.long_words(), rate + short + payload);
    assert(data =~= start + long + (rate + short + payload));
    bytes::lemma_be_at(start + long, 48_000, 4, short + payload);
    assert(data =~= (start + long) + rate + (short + payload));
    bytes::lemma_words2(start + long + rate, header.short_words(), payload);
    assert(data =~= (start + long + rate) + short + payload);
    let l = header.long_words();
    assert(l[0] == header.generation && l[1] == header.sequence && l[2]
        == header.captured_at_micros);
    let s = header.short_words();
    assert(s[0] == header.decoded_samples && s[1] == header.skip_start_samples && s[2]
        == header.skip_end_samples && s[3] == header.packet_size);
    assert(s[4] == header.fragment_index && s[5] == header.fragment_count && s[6] == header.offset
        && s[7] == header.payload_size);
    assert(data.skip(HEADER_SIZE as int) =~= payload);
}

/// Where the parts of a fragment stand: "RA", the version and the channels, then
/// three words of eight bytes, the sample rate in four and eight words of two,
/// the highest byte first, and behind these 48 bytes the payload.
pub proof fn law_fragment_layout(datagram: Seq<u8>)
    requires
        Header::is_fragment(datagram),
    ensures
        ({
            let header = Header::spelled(datagram);
            &&& datagram.len() == 48 + header.payload_size
            &&& datagram[0] == 82 && datagram[1] == 65 && datagram[2] == 1 && datagram[3] == 2
            &&& header.generation == bytes::be_value(datagram.subrange(4, 12))
            &&& header.sequence == bytes::be_value(datagram.subrange(12, 20))
            &&& header.captured_at_micros == bytes::be_value(datagram.subrange(20, 28))
            &&& 0x100_0000 * datagram[28] + 0x1_0000 * datagram[29] + 0x100 * datagram[30]
                + datagram[31] == 48_000
            &&& header.decoded_samples == 0x100 * datagram[32] + datagram[33]
            &&& header.skip_start_samples == 0x100 * datagram[34] + datagram[35]
            &&& header.skip_end_samples == 0x100 * datagram[36] + datagram[37]
            &&& header.packet_size == 0x100 * datagram[38] + datagram[39]
            &&& header.fragment_index == 0x100 * datagram[40] + datagram[41]
            &&& header.fragment_count == 0x100 * datagram[42] + datagram[43]
            &&& header.offset == 0x100 * datagram[44] + datagram[45]
            &&& header.payload_size == 0x100 * datagram[46] + datagram[47]
            &&& header.generation > 0
            &&& header.decoded_samples == 480
            &&& header.skip_start_samples + header.skip_end_samples <= 480
            &&& 1 <= header.packet_size <= 7_657
            &&& header.fragment_index < header.fragment_count <= 64
            &&& 1 <= header.payload_size
            &&& header.offset + header.payload_size <= header.packet_size
        }),
{
    bytes::lemma_be_bounds();
    bytes::lemma_be_value_bound(datagram.subrange(4, 12));
    bytes::lemma_be_value_bound(datagram.subrange(12, 20));
    bytes::lemma_be_value_bound(datagram.subrange(20, 28));
    bytes::law_most_significant_byte_first(datagram.subrange(28, 32));
    bytes::law_most_significant_byte_first(datagram.subrange(32, 34));
    bytes::law_most_significant_byte_first(datagram.subrange(34, 36));
    bytes::law_most_significant_byte_first(datagram.subrange(36, 38));
    bytes::law_most_significant_byte_first(datagram.subrange(38, 40));
    bytes::law_most_significant_byte_first(datagram.subrange(40, 42));
    bytes::law_most_significant_byte_first(datagram.subrange(42, 44));
    bytes::law_most_significant_byte_first(datagram.subrange(44, 46));
    bytes::law_most_significant_byte_first(datagram.subrange(46, 48));
}

/// A datagram is one of audio where its first two bytes are "RA".
pub proof fn law_audio_starts_with_its_magic(datagram: Seq<u8>)
    ensures
        is_audio(datagram) <==> datagram.len() >= 2 && datagram[0] == 82 && datagram[1] == 65,
{
    if datagram.len() >= 2 {
        assert(datagram.take(2)[0] == datagram[0] && datagram.take(2)[1] == datagram[1]);
        if datagram[0] == 82 && datagram[1] == 65 {
            assert(datagram.take(2) =~= magic());
        }
    }
}

} // verus!
