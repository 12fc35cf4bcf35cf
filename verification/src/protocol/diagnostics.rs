//! Fixed-size records carried on the optional diagnostics QUIC stream.

use crate::bytes;
use crate::bytes::{array32, get_be, put_words8};
use vstd::prelude::*;

verus! {

pub const RECORD_SIZE: usize = 322;

/// The bytes that open a diagnostics stream: "RCDG", zero, revision 2.
pub open spec fn spec_stream_preamble() -> Seq<u8> {
    seq![82, 67, 68, 71, 0, 2]
}

/// The bytes that open a diagnostics stream.
pub fn stream_preamble() -> (preamble: Vec<u8>)
    ensures
        preamble@ == spec_stream_preamble(),
{
    let preamble: Vec<u8> = vec![82, 67, 68, 71, 0, 2];
    assert(preamble@ =~= spec_stream_preamble());
    preamble
}

#[derive(Clone, Copy, Debug, PartialEq, Eq, Structural)]
pub enum MediaKind {
    Audio,
    Video,
}

impl MediaKind {
    pub open spec fn spec_number(self) -> u8 {
        match self {
            MediaKind::Audio => 1,
            MediaKind::Video => 2,
        }
    }

    pub fn number(self) -> (number: u8)
        ensures
            number == self.spec_number(),
    {
        match self {
            MediaKind::Audio => 1,
            MediaKind::Video => 2,
        }
    }

    pub fn try_from(value: u8) -> (result: Result<Self, &'static str>)
        ensures
            match result {
                Ok(kind) => kind.spec_number() == value,
                Err(error) => value != 1 && value != 2 && error@
                    == "unknown diagnostic media kind"@,
            },
    {
        match value {
            1 => Ok(MediaKind::Audio),
            2 => Ok(MediaKind::Video),
            _ => Err("unknown diagnostic media kind"),
        }
    }
}

/// What one endpoint saw of one payload.
#[derive(Clone, Copy, Debug, PartialEq, Eq)]
pub struct PayloadDigest {
    pub kind: MediaKind,
    pub generation: u64,
    pub sequence: u64,
    pub payload_size: u64,
    pub hashed_at_micros: u64,
    pub producer_hash_duration_micros: u64,
    pub boundary_hash_duration_micros: u64,
    pub producer_dropped_records: u64,
    pub boundary_matched: bool,
    pub sha256: [u8; 32],
    pub encode_started_at_micros: u64,
    pub encoded_at_micros: u64,
    pub worker_queued_at_micros: u64,
    pub service_received_at_micros: u64,
    pub packetized_at_micros: u64,
    pub captured_at_micros: u64,
    pub mirror_decode_micros: u64,
    pub quality_present: bool,
    pub quality_presentation_timestamp: i64,
    pub source_readback_micros: u64,
    pub decoded_readback_micros: u64,
    pub scoring_micros: u64,
    pub readback_bytes: u64,
    pub luma_psnr_millidecibels: u64,
    pub luma_mean_absolute_error_ppm: u64,
    pub packetization_completed_at_micros: u64,
    pub first_send_attempt_at_micros: u64,
    pub last_send_completed_at_micros: u64,
    pub capture_acquisition_micros: u64,
    pub cross_adapter_copy_micros: u64,
    pub color_conversion_micros: u64,
    pub encoder_call_micros: u64,
    pub audio_capture_buffer_frames: u64,
    pub audio_capture_discontinuities: u64,
    pub audio_invalid_capture_timestamps: u64,
    pub audio_device_reopens: u64,
    pub audio_encoder_resets: u64,
    pub audio_capture_queue_depth: u64,
    pub audio_capture_queue_capacity: u64,
    pub audio_capture_queue_drops: u64,
}

impl PayloadDigest {
    /// The words before the flags.
    pub open spec fn head_words(self) -> Seq<u64> {
        seq![
            self.generation,
            self.sequence,
            self.payload_size,
            self.hashed_at_micros,
            self.producer_hash_duration_micros,
            self.boundary_hash_duration_micros,
            self.producer_dropped_records,
        ]
    }

    /// The words after the hash.
    pub open spec fn tail_words(self) -> Seq<u64> {
        seq![
            self.encode_started_at_micros,
            self.encoded_at_micros,
            self.worker_queued_at_micros,
            self.service_received_at_micros,
            self.packetized_at_micros,
            self.captured_at_micros,
            self.mirror_decode_micros,
            self.quality_presentation_timestamp as u64,
            self.source_readback_micros,
            self.decoded_readback_micros,
            self.scoring_micros,
            self.readback_bytes,
            self.luma_psnr_millidecibels,
            self.luma_mean_absolute_error_ppm,
            self.packetization_completed_at_micros,
            self.first_send_attempt_at_micros,
            self.last_send_completed_at_micros,
            self.capture_acquisition_micros,
            self.cross_adapter_copy_micros,
            self.color_conversion_micros,
            self.encoder_call_micros,
            self.audio_capture_buffer_frames,
            self.audio_capture_discontinuities,
            self.audio_invalid_capture_timestamps,
            self.audio_device_reopens,
            self.audio_encoder_resets,
            self.audio_capture_queue_depth,
            self.audio_capture_queue_capacity,
            self.audio_capture_queue_drops,
        ]
    }

    /// Bit 0: the boundary matched. Bit 1: quality was measured.
    pub open spec fn flags(self) -> u8 {
        match (self.boundary_matched, self.quality_present) {
            (false, false) => 0,
            (true, false) => 1,
            (false, true) => 2,
            (true, true) => 3,
        }
    }

    /// The 322 bytes of a record.
    pub open spec fn wire(self) -> Seq<u8> {
        seq![self.kind.spec_number()] + bytes::words8(self.head_words()) + seq![self.flags()]
            + self.sha256@ + bytes::words8(self.tail_words())
    }

    pub open spec fn word(record: Seq<u8>, offset: int) -> u64 {
        bytes::be_value(record.subrange(offset, offset + 8)) as u64
    }

    /// The `count` words of `record` from `offset` on.
    pub open spec fn words_at(record: Seq<u8>, offset: int, count: nat) -> Seq<u64> {
        Seq::new(count, |k: int| PayloadDigest::word(record, offset + 8 * k))
    }

    /// Each field is what `record` holds for it.
    pub open spec fn is_spelled_by(self, record: Seq<u8>) -> bool {
        &&& self.kind.spec_number() == record[0]
        &&& self.head_words() == PayloadDigest::words_at(record, 1, 7)
        &&& self.flags() == record[57]
        &&& self.sha256@ == record.subrange(58, 90)
        &&& self.tail_words() == PayloadDigest::words_at(record, 90, 29)
    }

    #[must_use]
    pub fn encode(self) -> (record: Vec<u8>)
        ensures
            record@ == self.wire(),
            record@.len() == RECORD_SIZE,
    {
        let mut record: Vec<u8> = Vec::with_capacity(RECORD_SIZE);
        record.push(self.kind.number());
        assert(record@ =~= seq![self.kind.spec_number()]);
        let head_words = vec![
            self.generation,
            self.sequence,
            self.payload_size,
            self.hashed_at_micros,
            self.producer_hash_duration_micros,
            self.boundary_hash_duration_micros,
            self.producer_dropped_records,
        ];
        assert(head_words@ =~= self.head_words());
        put_words8(&mut record, &head_words);
        let flags: u8 = match (self.boundary_matched, self.quality_present) {
            (false, false) => 0,
            (true, false) => 1,
            (false, true) => 2,
            (true, true) => 3,
        };
        record.push(flags);
        record.extend_from_slice(self.sha256.as_slice());
        let tail_words = vec![
            self.encode_started_at_micros,
            self.encoded_at_micros,
            self.worker_queued_at_micros,
            self.service_received_at_micros,
            self.packetized_at_micros,
            self.captured_at_micros,
            self.mirror_decode_micros,
            self.quality_presentation_timestamp as u64,
            self.source_readback_micros,
            self.decoded_readback_micros,
            self.scoring_micros,
            self.readback_bytes,
            self.luma_psnr_millidecibels,
            self.luma_mean_absolute_error_ppm,
            self.packetization_completed_at_micros,
            self.first_send_attempt_at_micros,
            self.last_send_completed_at_micros,
            self.capture_acquisition_micros,
            self.cross_adapter_copy_micros,
            self.color_conversion_micros,
            self.encoder_call_micros,
            self.audio_capture_buffer_frames,
            self.audio_capture_discontinuities,
            self.audio_invalid_capture_timestamps,
            self.audio_device_reopens,
            self.audio_encoder_resets,
            self.audio_capture_queue_depth,
            self.audio_capture_queue_capacity,
            self.audio_capture_queue_drops,
        ];
        assert(tail_words@ =~= self.tail_words());
        put_words8(&mut record, &tail_words);
        assert(record@ =~= self.wire());
        record
    }

    pub fn decode(record: &[u8]) -> (result: Result<Self, &'static str>)
        ensures
            match result {
                Ok(digest) => record@.len() == RECORD_SIZE && digest.is_spelled_by(record@),
                Err(error) => if record@.len() != RECORD_SIZE {
                    error@ == "invalid diagnostic digest record size"@
                } else if record@[57] > 3 {
                    error@ == "invalid diagnostic flags"@
                } else {
                    record@[0] != 1 && record@[0] != 2 && error@
                        == "unknown diagnostic media kind"@
                },
            },
    {
        if record.len() != RECORD_SIZE {
            return Err("invalid diagnostic digest record size");
        }
        let flags: u8 = record[57];
        if flags > 3 {
            return Err("invalid diagnostic flags");
        }
        let kind = match MediaKind::try_from(record[0]) {
            Ok(kind) => kind,
            Err(error) => {
                return Err(error);
            },
        };
        let digest = PayloadDigest {
            kind,
            boundary_matched: flags == 1 || flags == 3,
            quality_present: flags >= 2,
            sha256: array32(record, 58),
            generation: get_be(record, 1, 8),
            sequence: get_be(record, 9, 8),
            payload_size: get_be(record, 17, 8),
            hashed_at_micros: get_be(record, 25, 8),
            producer_hash_duration_micros: get_be(record, 33, 8),
            boundary_hash_duration_micros: get_be(record, 41, 8),
            producer_dropped_records: get_be(record, 49, 8),
            encode_started_at_micros: get_be(record, 90, 8),
            encoded_at_micros: get_be(record, 98, 8),
            worker_queued_at_micros: get_be(record, 106, 8),
            service_received_at_micros: get_be(record, 114, 8),
            packetized_at_micros: get_be(record, 122, 8),
            captured_at_micros: get_be(record, 130, 8),
            mirror_decode_micros: get_be(record, 138, 8),
            quality_presentation_timestamp: get_be(record, 146, 8) as i64,
            source_readback_micros: get_be(record, 154, 8),
            decoded_readback_micros: get_be(record, 162, 8),
            scoring_micros: get_be(record, 170, 8),
            readback_bytes: get_be(record, 178, 8),
            luma_psnr_millidecibels: get_be(record, 186, 8),
            luma_mean_absolute_error_ppm: get_be(record, 194, 8),
            packetization_completed_at_micros: get_be(record, 202, 8),
            first_send_attempt_at_micros: get_be(record, 210, 8),
            last_send_completed_at_micros: get_be(record, 218, 8),
            capture_acquisition_micros: get_be(record, 226, 8),
            cross_adapter_copy_micros: get_be(record, 234, 8),
            color_conversion_micros: get_be(record, 242, 8),
            encoder_call_micros: get_be(record, 250, 8),
            audio_capture_buffer_frames: get_be(record, 258, 8),
            audio_capture_discontinuities: get_be(record, 266, 8),
            audio_invalid_capture_timestamps: get_be(record, 274, 8),
            audio_device_reopens: get_be(record, 282, 8),
            audio_encoder_resets: get_be(record, 290, 8),
            audio_capture_queue_depth: get_be(record, 298, 8),
            audio_capture_queue_capacity: get_be(record, 306, 8),
            audio_capture_queue_drops: get_be(record, 314, 8),
        };
        proof {
            let stored = PayloadDigest::word(record@, 146);
            assert((stored as i64) as u64 == stored) by (bit_vector);
            assert(digest.head_words() =~= PayloadDigest::words_at(record@, 1, 7));
            assert(digest.tail_words() =~= PayloadDigest::words_at(record@, 90, 29));
        }
        Ok(digest)
    }
}

/// A record decodes to one digest only.
pub proof fn law_spelled_digest_is_unique(
    left: PayloadDigest,
    right: PayloadDigest,
    record: Seq<u8>,
)
    requires
        left.is_spelled_by(record),
        right.is_spelled_by(record),
    ensures
        left == right,
{
    assert(left.sha256 =~= right.sha256);
    let left_time = left.quality_presentation_timestamp;
    let right_time = right.quality_presentation_timestamp;
    assert(left_time as u64 == right_time as u64 ==> left_time == right_time) by (bit_vector);
    lemma_words_determine_fields(left, right);
}

proof fn lemma_words_determine_fields(left: PayloadDigest, right: PayloadDigest)
    requires
        left.head_words() == right.head_words(),
        left.tail_words() == right.tail_words(),
    ensures
        left.generation == right.generation,
        left.sequence == right.sequence,
        left.payload_size == right.payload_size,
        left.hashed_at_micros == right.hashed_at_micros,
        left.producer_hash_duration_micros == right.producer_hash_duration_micros,
        left.boundary_hash_duration_micros == right.boundary_hash_duration_micros,
        left.producer_dropped_records == right.producer_dropped_records,
        left.encode_started_at_micros == right.encode_started_at_micros,
        left.encoded_at_micros == right.encoded_at_micros,
        left.worker_queued_at_micros == right.worker_queued_at_micros,
        left.service_received_at_micros == right.service_received_at_micros,
        left.packetized_at_micros == right.packetized_at_micros,
        left.captured_at_micros == right.captured_at_micros,
        left.mirror_decode_micros == right.mirror_decode_micros,
        left.quality_presentation_timestamp as u64 == right.quality_presentation_timestamp as u64,
        left.source_readback_micros == right.source_readback_micros,
        left.decoded_readback_micros == right.decoded_readback_micros,
        left.scoring_micros == right.scoring_micros,
        left.readback_bytes == right.readback_bytes,
        left.luma_psnr_millidecibels == right.luma_psnr_millidecibels,
        left.luma_mean_absolute_error_ppm == right.luma_mean_absolute_error_ppm,
        left.packetization_completed_at_micros == right.packetization_completed_at_micros,
        left.first_send_attempt_at_micros == right.first_send_attempt_at_micros,
        left.last_send_completed_at_micros == right.last_send_completed_at_micros,
        left.capture_acquisition_micros == right.capture_acquisition_micros,
        left.cross_adapter_copy_micros == right.cross_adapter_copy_micros,
        left.color_conversion_micros == right.color_conversion_micros,
        left.encoder_call_micros == right.encoder_call_micros,
        left.audio_capture_buffer_frames == right.audio_capture_buffer_frames,
        left.audio_capture_discontinuities == right.audio_capture_discontinuities,
        left.audio_invalid_capture_timestamps == right.audio_invalid_capture_timestamps,
        left.audio_device_reopens == right.audio_device_reopens,
        left.audio_encoder_resets == right.audio_encoder_resets,
        left.audio_capture_queue_depth == right.audio_capture_queue_depth,
        left.audio_capture_queue_capacity == right.audio_capture_queue_capacity,
        left.audio_capture_queue_drops == right.audio_capture_queue_drops,
{
    let (a, b) = (left.head_words(), right.head_words());
    assert(a[0] == b[0]);
    assert(a[1] == b[1]);
    assert(a[2] == b[2]);
    assert(a[3] == b[3]);
    assert(a[4] == b[4]);
    assert(a[5] == b[5]);
    assert(a[6] == b[6]);
    let (a, b) = (left.tail_words(), right.tail_words());
    assert(a[0] == b[0]);
    assert(a[1] == b[1]);
    assert(a[2] == b[2]);
    assert(a[3] == b[3]);
    assert(a[4] == b[4]);
    assert(a[5] == b[5]);
    assert(a[6] == b[6]);
    assert(a[7] == b[7]);
    assert(a[8] == b[8]);
    assert(a[9] == b[9]);
    assert(a[10] == b[10]);
    assert(a[11] == b[11]);
    assert(a[12] == b[12]);
    assert(a[13] == b[13]);
    assert(a[14] == b[14]);
    assert(a[15] == b[15]);
    assert(a[16] == b[16]);
    assert(a[17] == b[17]);
    assert(a[18] == b[18]);
    assert(a[19] == b[19]);
    assert(a[20] == b[20]);
    assert(a[21] == b[21]);
    assert(a[22] == b[22]);
    assert(a[23] == b[23]);
    assert(a[24] == b[24]);
    assert(a[25] == b[25]);
    assert(a[26] == b[26]);
    assert(a[27] == b[27]);
    assert(a[28] == b[28]);
}

/// Every digest is spelled by its record, so that decoding gives it back.
pub proof fn law_digest_round_trip(digest: PayloadDigest)
    ensures
        digest.wire().len() == RECORD_SIZE,
        digest.is_spelled_by(digest.wire()),
        digest.wire()[57] <= 3,
{
    let record = digest.wire();
    let kind = seq![digest.kind.spec_number()];
    let (h, t) = (digest.head_words(), digest.tail_words());
    let (head, tail) = (bytes::words8(h), bytes::words8(t));
    let flags = seq![digest.flags()];
    let after_head = flags + digest.sha256@ + tail;
    let before_tail = kind + head + flags + digest.sha256@;
    assert(record =~= kind + head + after_head);
    bytes::lemma_words8(kind, h, after_head);
    assert(h =~= PayloadDigest::words_at(record, 1, 7));
    assert(record =~= before_tail + tail + Seq::<u8>::empty());
    bytes::lemma_words8(before_tail, t, Seq::<u8>::empty());
    assert(before_tail.len() == 90);
    assert(t =~= PayloadDigest::words_at(record, 90, 29));
    assert(record.subrange(58, 90) =~= digest.sha256@);
}

/// Where the parts of a record stand: the kind, seven words of eight bytes, the
/// flags, the hash and 29 words of eight bytes, the highest byte first.
pub proof fn law_record_layout(digest: PayloadDigest, record: Seq<u8>)
    requires
        record.len() == RECORD_SIZE,
        digest.is_spelled_by(record),
    ensures
        record.len() == 322,
        digest.kind is Audio <==> record[0] == 1,
        digest.kind is Video <==> record[0] == 2,
        digest.boundary_matched <==> record[57] == 1 || record[57] == 3,
        digest.quality_present <==> record[57] == 2 || record[57] == 3,
        digest.sha256@ == record.subrange(58, 90),
        digest.generation == bytes::be_value(record.subrange(1, 9)),
        digest.sequence == bytes::be_value(record.subrange(9, 17)),
        digest.payload_size == bytes::be_value(record.subrange(17, 25)),
        digest.hashed_at_micros == bytes::be_value(record.subrange(25, 33)),
        digest.producer_hash_duration_micros == bytes::be_value(record.subrange(33, 41)),
        digest.boundary_hash_duration_micros == bytes::be_value(record.subrange(41, 49)),
        digest.producer_dropped_records == bytes::be_value(record.subrange(49, 57)),
        digest.encode_started_at_micros == bytes::be_value(record.subrange(90, 98)),
        digest.encoded_at_micros == bytes::be_value(record.subrange(98, 106)),
        digest.worker_queued_at_micros == bytes::be_value(record.subrange(106, 114)),
        digest.service_received_at_micros == bytes::be_value(record.subrange(114, 122)),
        digest.packetized_at_micros == bytes::be_value(record.subrange(122, 130)),
        digest.captured_at_micros == bytes::be_value(record.subrange(130, 138)),
        digest.mirror_decode_micros == bytes::be_value(record.subrange(138, 146)),
        digest.quality_presentation_timestamp as u64 == bytes::be_value(record.subrange(146, 154)),
        digest.source_readback_micros == bytes::be_value(record.subrange(154, 162)),
        digest.decoded_readback_micros == bytes::be_value(record.subrange(162, 170)),
        digest.scoring_micros == bytes::be_value(record.subrange(170, 178)),
        digest.readback_bytes == bytes::be_value(record.subrange(178, 186)),
        digest.luma_psnr_millidecibels == bytes::be_value(record.subrange(186, 194)),
        digest.luma_mean_absolute_error_ppm == bytes::be_value(record.subrange(194, 202)),
        digest.packetization_completed_at_micros == bytes::be_value(record.subrange(202, 210)),
        digest.first_send_attempt_at_micros == bytes::be_value(record.subrange(210, 218)),
        digest.last_send_completed_at_micros == bytes::be_value(record.subrange(218, 226)),
        digest.capture_acquisition_micros == bytes::be_value(record.subrange(226, 234)),
        digest.cross_adapter_copy_micros == bytes::be_value(record.subrange(234, 242)),
        digest.color_conversion_micros == bytes::be_value(record.subrange(242, 250)),
        digest.encoder_call_micros == bytes::be_value(record.subrange(250, 258)),
        digest.audio_capture_buffer_frames == bytes::be_value(record.subrange(258, 266)),
        digest.audio_capture_discontinuities == bytes::be_value(record.subrange(266, 274)),
        digest.audio_invalid_capture_timestamps == bytes::be_value(record.subrange(274, 282)),
        digest.audio_device_reopens == bytes::be_value(record.subrange(282, 290)),
        digest.audio_encoder_resets == bytes::be_value(record.subrange(290, 298)),
        digest.audio_capture_queue_depth == bytes::be_value(record.subrange(298, 306)),
        digest.audio_capture_queue_capacity == bytes::be_value(record.subrange(306, 314)),
        digest.audio_capture_queue_drops == bytes::be_value(record.subrange(314, 322)),
{
    lemma_word(record, 1);
    assert(digest.head_words()[0] == PayloadDigest::words_at(record, 1, 7)[0]);
    lemma_word(record, 9);
    assert(digest.head_words()[1] == PayloadDigest::words_at(record, 1, 7)[1]);
    lemma_word(record, 17);
    assert(digest.head_words()[2] == PayloadDigest::words_at(record, 1, 7)[2]);
    lemma_word(record, 25);
    assert(digest.head_words()[3] == PayloadDigest::words_at(record, 1, 7)[3]);
    lemma_word(record, 33);
    assert(digest.head_words()[4] == PayloadDigest::words_at(record, 1, 7)[4]);
    lemma_word(record, 41);
    assert(digest.head_words()[5] == PayloadDigest::words_at(record, 1, 7)[5]);
    lemma_word(record, 49);
    assert(digest.head_words()[6] == PayloadDigest::words_at(record, 1, 7)[6]);
    lemma_word(record, 90);
    assert(digest.tail_words()[0] == PayloadDigest::words_at(record, 90, 29)[0]);
    lemma_word(record, 98);
    assert(digest.tail_words()[1] == PayloadDigest::words_at(record, 90, 29)[1]);
    lemma_word(record, 106);
    assert(digest.tail_words()[2] == PayloadDigest::words_at(record, 90, 29)[2]);
    lemma_word(record, 114);
    assert(digest.tail_words()[3] == PayloadDigest::words_at(record, 90, 29)[3]);
    lemma_word(record, 122);
    assert(digest.tail_words()[4] == PayloadDigest::words_at(record, 90, 29)[4]);
    lemma_word(record, 130);
    assert(digest.tail_words()[5] == PayloadDigest::words_at(record, 90, 29)[5]);
    lemma_word(record, 138);
    assert(digest.tail_words()[6] == PayloadDigest::words_at(record, 90, 29)[6]);
    lemma_word(record, 146);
    assert(digest.tail_words()[7] == PayloadDigest::words_at(record, 90, 29)[7]);
    lemma_word(record, 154);
    assert(digest.tail_words()[8] == PayloadDigest::words_at(record, 90, 29)[8]);
    lemma_word(record, 162);
    assert(digest.tail_words()[9] == PayloadDigest::words_at(record, 90, 29)[9]);
    lemma_word(record, 170);
    assert(digest.tail_words()[10] == PayloadDigest::words_at(record, 90, 29)[10]);
    lemma_word(record, 178);
    assert(digest.tail_words()[11] == PayloadDigest::words_at(record, 90, 29)[11]);
    lemma_word(record, 186);
    assert(digest.tail_words()[12] == PayloadDigest::words_at(record, 90, 29)[12]);
    lemma_word(record, 194);
    assert(digest.tail_words()[13] == PayloadDigest::words_at(record, 90, 29)[13]);
    lemma_word(record, 202);
    assert(digest.tail_words()[14] == PayloadDigest::words_at(record, 90, 29)[14]);
    lemma_word(record, 210);
    assert(digest.tail_words()[15] == PayloadDigest::words_at(record, 90, 29)[15]);
    lemma_word(record, 218);
    assert(digest.tail_words()[16] == PayloadDigest::words_at(record, 90, 29)[16]);
    lemma_word(record, 226);
    assert(digest.tail_words()[17] == PayloadDigest::words_at(record, 90, 29)[17]);
    lemma_word(record, 234);
    assert(digest.tail_words()[18] == PayloadDigest::words_at(record, 90, 29)[18]);
    lemma_word(record, 242);
    assert(digest.tail_words()[19] == PayloadDigest::words_at(record, 90, 29)[19]);
    lemma_word(record, 250);
    assert(digest.tail_words()[20] == PayloadDigest::words_at(record, 90, 29)[20]);
    lemma_word(record, 258);
    assert(digest.tail_words()[21] == PayloadDigest::words_at(record, 90, 29)[21]);
    lemma_word(record, 266);
    assert(digest.tail_words()[22] == PayloadDigest::words_at(record, 90, 29)[22]);
    lemma_word(record, 274);
    assert(digest.tail_words()[23] == PayloadDigest::words_at(record, 90, 29)[23]);
    lemma_word(record, 282);
    assert(digest.tail_words()[24] == PayloadDigest::words_at(record, 90, 29)[24]);
    lemma_word(record, 290);
    assert(digest.tail_words()[25] == PayloadDigest::words_at(record, 90, 29)[25]);
    lemma_word(record, 298);
    assert(digest.tail_words()[26] == PayloadDigest::words_at(record, 90, 29)[26]);
    lemma_word(record, 306);
    assert(digest.tail_words()[27] == PayloadDigest::words_at(record, 90, 29)[27]);
    lemma_word(record, 314);
    assert(digest.tail_words()[28] == PayloadDigest::words_at(record, 90, 29)[28]);
}

proof fn lemma_word(record: Seq<u8>, offset: int)
    requires
        0 <= offset <= record.len() - 8,
    ensures
        PayloadDigest::word(record, offset) == bytes::be_value(record.subrange(offset, offset + 8)),
{
    bytes::lemma_be_bounds();
    bytes::lemma_be_value_bound(record.subrange(offset, offset + 8));
}

/// The streams of digests start with "RCDG" and version 2.
pub proof fn law_stream_preamble()
    ensures
        spec_stream_preamble() == seq![82u8, 67, 68, 71, 0, 2],
{
}

} // verus!
