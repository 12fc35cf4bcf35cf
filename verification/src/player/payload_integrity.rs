//! Whether payloads reach the viewer as the host sent them.

use crate::bytes::same;
use crate::digest;
use crate::digest::sha256;
use crate::player::keyed_records;
use crate::player::keyed_records::{has_key, insert, take, take_first, Keyed, PayloadKey};
use crate::protocol::diagnostics::{MediaKind, PayloadDigest};
use vstd::prelude::*;

verus! {

/// The most records of one side that wait for the other.
pub const MAX_PENDING_DIGESTS: usize = 4_096;

/// What the viewer saw of one payload.
#[derive(Clone, Copy, Debug)]
pub struct LocalPayloadDigest {
    pub kind: MediaKind,
    pub generation: u64,
    pub sequence: u64,
    pub payload_size: u64,
    pub hash_duration_micros: u64,
    pub sha256: [u8; 32],
    pub assembled_at_micros: u64,
}

#[derive(Clone, Copy, Debug)]
pub enum PayloadDigestEvent {
    Host(PayloadDigest),
    Local(LocalPayloadDigest),
}

#[derive(Clone, Copy, Debug, PartialEq, Eq, Structural)]
pub struct PayloadIntegrityCounters {
    pub pending_host_records: u64,
    pub pending_player_payloads: u64,
    pub duplicate_host_records: u64,
    pub duplicate_player_payloads: u64,
    pub unmatched_host_records: u64,
    pub unmatched_player_payloads: u64,
}

/// What both ends say of one payload.
#[derive(Clone, Copy, Debug, PartialEq, Eq, Structural)]
pub struct PayloadIntegritySample {
    pub kind: MediaKind,
    pub generation: u64,
    pub sequence: u64,
    pub payload_size: u64,
    pub matched: bool,
    pub producer_hash_duration_micros: u64,
    pub host_hash_duration_micros: u64,
    pub player_hash_duration_micros: u64,
    pub host_dropped_records: u64,
    pub worker_to_service_matched: bool,
    pub encode_started_at_micros: u64,
    pub encoded_at_micros: u64,
    pub worker_queued_at_micros: u64,
    pub service_received_at_micros: u64,
    pub packetized_at_micros: u64,
    pub assembled_at_micros: u64,
    pub captured_at_micros: u64,
    pub mirror_decode_micros: u64,
    pub quality_present: bool,
    pub quality_presentation_timestamp: i64,
    pub source_readback_micros: u64,
    pub decoded_readback_micros: u64,
    pub scoring_micros: u64,
    pub readback_bytes: u64,
    pub luma_psnr_millidecibels: u64,
    pub luma_mean_absolute_error_ppm: u64,
    pub packetization_completed_at_micros: u64,
    pub first_send_attempt_at_micros: u64,
    pub last_send_completed_at_micros: u64,
    pub capture_acquisition_micros: u64,
    pub cross_adapter_copy_micros: u64,
    pub color_conversion_micros: u64,
    pub encoder_call_micros: u64,
    pub audio_capture_buffer_frames: u64,
    pub audio_capture_discontinuities: u64,
    pub audio_invalid_capture_timestamps: u64,
    pub audio_device_reopens: u64,
    pub audio_encoder_resets: u64,
    pub audio_capture_queue_depth: u64,
    pub audio_capture_queue_capacity: u64,
    pub audio_capture_queue_drops: u64,
}

#[derive(Debug)]
pub struct PayloadDigestMatcher {
    host: Vec<Keyed<PayloadDigest>>,
    local: Vec<Keyed<LocalPayloadDigest>>,
    counters: PayloadIntegrityCounters,
}

/// What waits for its other side, by key, and what was counted.
#[verifier::ext_equal]
pub struct MatcherModel {
    pub host: Seq<Keyed<PayloadDigest>>,
    pub local: Seq<Keyed<LocalPayloadDigest>>,
    pub counters: PayloadIntegrityCounters,
}

impl View for PayloadDigestMatcher {
    type V = MatcherModel;

    closed spec fn view(&self) -> MatcherModel {
        MatcherModel { host: self.host@, local: self.local@, counters: self.counters }
    }
}

/// The sample that the two sides of one payload give.
pub open spec fn sample_of(
    host: PayloadDigest,
    local: LocalPayloadDigest,
) -> PayloadIntegritySample {
    PayloadIntegritySample {
        kind: host.kind,
        generation: host.generation,
        sequence: host.sequence,
        payload_size: host.payload_size,
        matched: host.payload_size == local.payload_size && host.sha256@ == local.sha256@,
        producer_hash_duration_micros: host.producer_hash_duration_micros,
        host_hash_duration_micros: host.boundary_hash_duration_micros,
        player_hash_duration_micros: local.hash_duration_micros,
        host_dropped_records: host.producer_dropped_records,
        worker_to_service_matched: host.boundary_matched,
        encode_started_at_micros: host.encode_started_at_micros,
        encoded_at_micros: host.encoded_at_micros,
        worker_queued_at_micros: host.worker_queued_at_micros,
        service_received_at_micros: host.service_received_at_micros,
        packetized_at_micros: host.packetized_at_micros,
        assembled_at_micros: local.assembled_at_micros,
        captured_at_micros: host.captured_at_micros,
        mirror_decode_micros: host.mirror_decode_micros,
        quality_present: host.quality_present,
        quality_presentation_timestamp: host.quality_presentation_timestamp,
        source_readback_micros: host.source_readback_micros,
        decoded_readback_micros: host.decoded_readback_micros,
        scoring_micros: host.scoring_micros,
        readback_bytes: host.readback_bytes,
        luma_psnr_millidecibels: host.luma_psnr_millidecibels,
        luma_mean_absolute_error_ppm: host.luma_mean_absolute_error_ppm,
        packetization_completed_at_micros: host.packetization_completed_at_micros,
        first_send_attempt_at_micros: host.first_send_attempt_at_micros,
        last_send_completed_at_micros: host.last_send_completed_at_micros,
        capture_acquisition_micros: host.capture_acquisition_micros,
        cross_adapter_copy_micros: host.cross_adapter_copy_micros,
        color_conversion_micros: host.color_conversion_micros,
        encoder_call_micros: host.encoder_call_micros,
        audio_capture_buffer_frames: host.audio_capture_buffer_frames,
        audio_capture_discontinuities: host.audio_capture_discontinuities,
        audio_invalid_capture_timestamps: host.audio_invalid_capture_timestamps,
        audio_device_reopens: host.audio_device_reopens,
        audio_encoder_resets: host.audio_encoder_resets,
        audio_capture_queue_depth: host.audio_capture_queue_depth,
        audio_capture_queue_capacity: host.audio_capture_queue_capacity,
        audio_capture_queue_drops: host.audio_capture_queue_drops,
    }
}

pub open spec fn host_key(host: PayloadDigest) -> PayloadKey {
    PayloadKey {
        kind: host.kind.spec_number(),
        generation: host.generation,
        sequence: host.sequence,
    }
}

pub open spec fn local_key(local: LocalPayloadDigest) -> PayloadKey {
    PayloadKey {
        kind: local.kind.spec_number(),
        generation: local.generation,
        sequence: local.sequence,
    }
}

impl MatcherModel {
    pub open spec fn initial() -> MatcherModel {
        MatcherModel {
            host: Seq::empty(),
            local: Seq::empty(),
            counters: PayloadIntegrityCounters {
                pending_host_records: 0,
                pending_player_payloads: 0,
                duplicate_host_records: 0,
                duplicate_player_payloads: 0,
                unmatched_host_records: 0,
                unmatched_player_payloads: 0,
            },
        }
    }

    pub open spec fn well_formed(self) -> bool {
        &&& keyed_records::is_ascending(self.host)
        &&& keyed_records::is_ascending(self.local)
        &&& self.host.len() <= MAX_PENDING_DIGESTS
        &&& self.local.len() <= MAX_PENDING_DIGESTS
    }

    /// With one more record of the host's side; where there is no room, the one
    /// of the least key goes.
    pub open spec fn with_host(self, host: PayloadDigest) -> MatcherModel {
        let record = Keyed { key: host_key(host), value: host };
        let all = keyed_records::inserted(self.host, record);
        let full = all.len() > MAX_PENDING_DIGESTS;
        MatcherModel {
            host: if full {
                all.skip(1)
            } else {
                all
            },
            counters: PayloadIntegrityCounters {
                duplicate_host_records: if keyed_records::holds(self.host, record.key) {
                    self.counters.duplicate_host_records.saturating_add(1)
                } else {
                    self.counters.duplicate_host_records
                },
                unmatched_host_records: if full {
                    self.counters.unmatched_host_records.saturating_add(1)
                } else {
                    self.counters.unmatched_host_records
                },
                ..self.counters
            },
            ..self
        }
    }

    /// With one more record of the viewer's side, in the same way.
    pub open spec fn with_local(self, local: LocalPayloadDigest) -> MatcherModel {
        let record = Keyed { key: local_key(local), value: local };
        let all = keyed_records::inserted(self.local, record);
        let full = all.len() > MAX_PENDING_DIGESTS;
        MatcherModel {
            local: if full {
                all.skip(1)
            } else {
                all
            },
            counters: PayloadIntegrityCounters {
                duplicate_player_payloads: if keyed_records::holds(self.local, record.key) {
                    self.counters.duplicate_player_payloads.saturating_add(1)
                } else {
                    self.counters.duplicate_player_payloads
                },
                unmatched_player_payloads: if full {
                    self.counters.unmatched_player_payloads.saturating_add(1)
                } else {
                    self.counters.unmatched_player_payloads
                },
                ..self.counters
            },
            ..self
        }
    }

    /// Both sides of a payload, taken out where they are there.
    pub open spec fn matched(self, key: PayloadKey) -> (
        MatcherModel,
        Option<PayloadIntegritySample>,
    ) {
        if keyed_records::holds(self.host, key) && keyed_records::holds(self.local, key) {
            (
                MatcherModel {
                    host: keyed_records::without(self.host, key),
                    local: keyed_records::without(self.local, key),
                    ..self
                },
                Some(
                    sample_of(
                        keyed_records::value_of(self.host, key),
                        keyed_records::value_of(self.local, key),
                    ),
                ),
            )
        } else {
            (self, None)
        }
    }

    pub open spec fn pushed(self, event: PayloadDigestEvent) -> (
        MatcherModel,
        Option<PayloadIntegritySample>,
    ) {
        match event {
            PayloadDigestEvent::Host(host) => self.with_host(host).matched(host_key(host)),
            PayloadDigestEvent::Local(local) => self.with_local(local).matched(local_key(local)),
        }
    }
}

fn sample(host: PayloadDigest, local: LocalPayloadDigest) -> (sample: PayloadIntegritySample)
    ensures
        sample == sample_of(host, local),
{
    let matched = host.payload_size == local.payload_size && same(
        host.sha256.as_slice(),
        local.sha256.as_slice(),
    );
    PayloadIntegritySample {
        kind: host.kind,
        generation: host.generation,
        sequence: host.sequence,
        payload_size: host.payload_size,
        matched,
        producer_hash_duration_micros: host.producer_hash_duration_micros,
        host_hash_duration_micros: host.boundary_hash_duration_micros,
        player_hash_duration_micros: local.hash_duration_micros,
        host_dropped_records: host.producer_dropped_records,
        worker_to_service_matched: host.boundary_matched,
        encode_started_at_micros: host.encode_started_at_micros,
        encoded_at_micros: host.encoded_at_micros,
        worker_queued_at_micros: host.worker_queued_at_micros,
        service_received_at_micros: host.service_received_at_micros,
        packetized_at_micros: host.packetized_at_micros,
        assembled_at_micros: local.assembled_at_micros,
        captured_at_micros: host.captured_at_micros,
        mirror_decode_micros: host.mirror_decode_micros,
        quality_present: host.quality_present,
        quality_presentation_timestamp: host.quality_presentation_timestamp,
        source_readback_micros: host.source_readback_micros,
        decoded_readback_micros: host.decoded_readback_micros,
        scoring_micros: host.scoring_micros,
        readback_bytes: host.readback_bytes,
        luma_psnr_millidecibels: host.luma_psnr_millidecibels,
        luma_mean_absolute_error_ppm: host.luma_mean_absolute_error_ppm,
        packetization_completed_at_micros: host.packetization_completed_at_micros,
        first_send_attempt_at_micros: host.first_send_attempt_at_micros,
        last_send_completed_at_micros: host.last_send_completed_at_micros,
        capture_acquisition_micros: host.capture_acquisition_micros,
        cross_adapter_copy_micros: host.cross_adapter_copy_micros,
        color_conversion_micros: host.color_conversion_micros,
        encoder_call_micros: host.encoder_call_micros,
        audio_capture_buffer_frames: host.audio_capture_buffer_frames,
        audio_capture_discontinuities: host.audio_capture_discontinuities,
        audio_invalid_capture_timestamps: host.audio_invalid_capture_timestamps,
        audio_device_reopens: host.audio_device_reopens,
        audio_encoder_resets: host.audio_encoder_resets,
        audio_capture_queue_depth: host.audio_capture_queue_depth,
        audio_capture_queue_capacity: host.audio_capture_queue_capacity,
        audio_capture_queue_drops: host.audio_capture_queue_drops,
    }
}

impl Default for PayloadDigestMatcher {
    fn default() -> (matcher: Self)
        ensures
            matcher@ == MatcherModel::initial(),
            matcher@.well_formed(),
    {
        let matcher = PayloadDigestMatcher {
            host: Vec::new(),
            local: Vec::new(),
            counters: PayloadIntegrityCounters {
                pending_host_records: 0,
                pending_player_payloads: 0,
                duplicate_host_records: 0,
                duplicate_player_payloads: 0,
                unmatched_host_records: 0,
                unmatched_player_payloads: 0,
            },
        };
        assert(matcher@ =~= MatcherModel::initial());
        matcher
    }
}

impl PayloadDigestMatcher {
    /// Takes what one side saw of a payload: a sample, once both sides are there.
    pub fn push(&mut self, event: PayloadDigestEvent) -> (sample: Option<PayloadIntegritySample>)
        requires
            old(self)@.well_formed(),
        ensures
            (final(self)@, sample) == old(self)@.pushed(event),
            final(self)@.well_formed(),
    {
        let key = match event {
            PayloadDigestEvent::Host(host) => self.push_host(host),
            PayloadDigestEvent::Local(local) => self.push_local(local),
        };
        if !has_key(&self.host, key) || !has_key(&self.local, key) {
            return None;
        }
        let host = take(&mut self.host, key);
        let local = take(&mut self.local, key);
        Some(sample(host, local))
    }

    fn push_host(&mut self, host: PayloadDigest) -> (key: PayloadKey)
        requires
            old(self)@.well_formed(),
        ensures
            final(self)@ == old(self)@.with_host(host),
            final(self)@.well_formed(),
            key == host_key(host),
    {
        let key = PayloadKey {
            kind: host.kind.number(),
            generation: host.generation,
            sequence: host.sequence,
        };
        if insert(&mut self.host, Keyed { key, value: host }) {
            self.counters.duplicate_host_records =
            self.counters.duplicate_host_records.saturating_add(1);
        }
        if self.host.len() > MAX_PENDING_DIGESTS {
            take_first(&mut self.host);
            self.counters.unmatched_host_records =
            self.counters.unmatched_host_records.saturating_add(1);
        }
        key
    }

    fn push_local(&mut self, local: LocalPayloadDigest) -> (key: PayloadKey)
        requires
            old(self)@.well_formed(),
        ensures
            final(self)@ == old(self)@.with_local(local),
            final(self)@.well_formed(),
            key == local_key(local),
    {
        let key = PayloadKey {
            kind: local.kind.number(),
            generation: local.generation,
            sequence: local.sequence,
        };
        if insert(&mut self.local, Keyed { key, value: local }) {
            self.counters.duplicate_player_payloads =
            self.counters.duplicate_player_payloads.saturating_add(1);
        }
        if self.local.len() > MAX_PENDING_DIGESTS {
            take_first(&mut self.local);
            self.counters.unmatched_player_payloads =
            self.counters.unmatched_player_payloads.saturating_add(1);
        }
        key
    }

    /// What was counted, and what waits now.
    pub fn counters(&self) -> (counters: PayloadIntegrityCounters)
        requires
            self@.well_formed(),
        ensures
            counters == (PayloadIntegrityCounters {
                pending_host_records: self@.host.len() as u64,
                pending_player_payloads: self@.local.len() as u64,
                ..self@.counters
            }),
    {
        PayloadIntegrityCounters {
            pending_host_records: self.host.len() as u64,
            pending_player_payloads: self.local.len() as u64,
            duplicate_host_records: self.counters.duplicate_host_records,
            duplicate_player_payloads: self.counters.duplicate_player_payloads,
            unmatched_host_records: self.counters.unmatched_host_records,
            unmatched_player_payloads: self.counters.unmatched_player_payloads,
        }
    }
}

/// What the viewer saw of a payload, whose digest took `hash_duration_micros`.
pub fn local_payload_digest(
    kind: MediaKind,
    generation: u64,
    sequence: u64,
    payload: &[u8],
    hash_duration_micros: u64,
    assembled_at_micros: u64,
) -> (local: LocalPayloadDigest)
    ensures
        local.kind == kind,
        local.generation == generation,
        local.sequence == sequence,
        local.payload_size == payload@.len(),
        local.hash_duration_micros == hash_duration_micros,
        local.sha256@ == digest::sha256_of(payload@),
        local.assembled_at_micros == assembled_at_micros,
{
    LocalPayloadDigest {
        kind,
        generation,
        sequence,
        payload_size: payload.len() as u64,
        hash_duration_micros,
        sha256: sha256(payload),
        assembled_at_micros,
    }
}

/// In whichever order the two sides of a payload come, one sample comes of them
/// and neither side waits any longer.
pub proof fn law_either_order_gives_one_sample(
    matcher: MatcherModel,
    host: PayloadDigest,
    local: LocalPayloadDigest,
)
    requires
        matcher.well_formed(),
        matcher.host.len() < MAX_PENDING_DIGESTS,
        matcher.local.len() < MAX_PENDING_DIGESTS,
        host_key(host) == local_key(local),
        !keyed_records::holds(matcher.host, host_key(host)),
        !keyed_records::holds(matcher.local, host_key(host)),
    ensures
        ({
            let (first, none) = matcher.pushed(PayloadDigestEvent::Host(host));
            let (second, sample) = first.pushed(PayloadDigestEvent::Local(local));
            none is None && second == matcher && sample == Some(sample_of(host, local))
        }),
        ({
            let (first, none) = matcher.pushed(PayloadDigestEvent::Local(local));
            let (second, sample) = first.pushed(PayloadDigestEvent::Host(host));
            none is None && second == matcher && sample == Some(sample_of(host, local))
        }),
{
    let key = host_key(host);
    lemma_insert_and_take(matcher.host, Keyed { key, value: host });
    lemma_insert_and_take(matcher.local, Keyed { key, value: local });
}

proof fn lemma_insert_and_take<T>(records: Seq<Keyed<T>>, record: Keyed<T>)
    requires
        keyed_records::is_ascending(records),
        !keyed_records::holds(records, record.key),
    ensures
        ({
            let after = keyed_records::inserted(records, record);
            &&& after.len() == records.len() + 1
            &&& keyed_records::holds(after, record.key)
            &&& keyed_records::value_of(after, record.key) == record.value
            &&& keyed_records::without(after, record.key) == records
        }),
{
    let at = lemma_some_place(records, record.key);
    keyed_records::lemma_place(records, record.key, at);
    let after = keyed_records::inserted(records, record);
    assert(after =~= records.insert(at, record));
    assert(keyed_records::is_place(after, record.key, at)) by {
        assert forall|i: int| at <= i < after.len() implies !(#[trigger] after[i]).key.before(
            record.key,
        ) by {
            if i > at {
                assert(after[i] == records[i - 1]);
            }
        }
    }
    keyed_records::lemma_place(after, record.key, at);
    assert(keyed_records::without(after, record.key) =~= records);
}

proof fn lemma_some_place<T>(records: Seq<Keyed<T>>, key: PayloadKey) -> (at: int)
    requires
        keyed_records::is_ascending(records),
    ensures
        keyed_records::is_place(records, key, at),
    decreases records.len(),
{
    if records.len() == 0 {
        0
    } else {
        let shorter = records.drop_last();
        let at = lemma_some_place(shorter, key);
        if records.last().key.before(key) {
            assert forall|i: int| 0 <= i < records.len() implies (#[trigger] records[i]).key.before(
                key,
            ) by {
                if i < records.len() - 1 {
                    assert(records[i].key.before(records.last().key));
                }
            }
            records.len() as int
        } else {
            assert forall|i: int| at <= i < records.len() implies !(
            #[trigger] records[i]).key.before(key) by {
                if i < records.len() - 1 {
                    assert(shorter[i] == records[i]);
                }
            }
            assert forall|i: int| 0 <= i < at implies (#[trigger] records[i]).key.before(key) by {
                assert(shorter[i] == records[i]);
            }
            at
        }
    }
}

/// What a sample says of a payload: what the host's record says under the same
/// name, what the player's digest adds to it, and whether size and hash agree.
pub proof fn law_samples_tell_both_sides(host: PayloadDigest, local: LocalPayloadDigest)
    ensures
        ({
            let sample = sample_of(host, local);
            &&& sample.matched <==> host.payload_size == local.payload_size && host.sha256@
                == local.sha256@
        }),
{
}

/// A host's record and a player's digest belong together where kind, generation
/// and sequence are the same.
pub proof fn law_what_belongs_together(host: PayloadDigest, local: LocalPayloadDigest)
    ensures
        host_key(host) == local_key(local) <==> host.kind == local.kind && host.generation
            == local.generation && host.sequence == local.sequence,
{
}

/// A sample comes out only of a host's record and a player's digest that belong
/// together, one of which is the one that came last.
pub proof fn law_samples_are_of_what_came(matcher: MatcherModel, event: PayloadDigestEvent)
    requires
        matcher.well_formed(),
    ensures
        matcher.pushed(event).1 matches Some(sample) ==> match event {
            PayloadDigestEvent::Host(host) => sample.kind == host.kind && sample.generation
                == host.generation && sample.sequence == host.sequence && exists|i: int|
                0 <= i < matcher.local.len() && (#[trigger] matcher.local[i]).key == host_key(host)
                    && sample == sample_of(host, matcher.local[i].value),
            PayloadDigestEvent::Local(local) => exists|i: int|
                0 <= i < matcher.host.len() && (#[trigger] matcher.host[i]).key == local_key(local)
                    && sample == sample_of(matcher.host[i].value, local),
        },
{
    match event {
        PayloadDigestEvent::Host(host) => {
            let key = host_key(host);
            lemma_value_just_put(matcher.host, Keyed { key, value: host });
            let i = lemma_some_place(matcher.local, key);
            keyed_records::lemma_place(matcher.local, key, i);
        },
        PayloadDigestEvent::Local(local) => {
            let key = local_key(local);
            lemma_value_just_put(matcher.local, Keyed { key, value: local });
            let i = lemma_some_place(matcher.host, key);
            keyed_records::lemma_place(matcher.host, key, i);
        },
    }
}

/// What is held under a key that was just put in is what was put in, with or
/// without the first record.
proof fn lemma_value_just_put<T>(records: Seq<Keyed<T>>, record: Keyed<T>)
    requires
        keyed_records::is_ascending(records),
    ensures
        ({
            let all = keyed_records::inserted(records, record);
            &&& keyed_records::holds(all, record.key)
            &&& keyed_records::value_of(all, record.key) == record.value
            &&& keyed_records::holds(all.skip(1), record.key) ==> keyed_records::value_of(
                all.skip(1),
                record.key,
            ) == record.value
        }),
{
    let key = record.key;
    let at = lemma_some_place(records, key);
    keyed_records::lemma_place(records, key, at);
    let all = keyed_records::inserted(records, record);
    let held = keyed_records::holds(records, key);
    assert forall|i: int| at < i < all.len() implies !(#[trigger] all[i]).key.before(key) by {
        if held {
            assert(all[i] == records[i]);
        } else {
            assert(all[i] == records[i - 1]);
        }
    }
    assert forall|i: int| 0 <= i < at implies (#[trigger] all[i]).key.before(key) by {
        assert(all[i] == records[i]);
    }
    assert(all[at] == record);
    assert(keyed_records::is_place(all, key, at));
    keyed_records::lemma_place(all, key, at);
    let rest = all.skip(1);
    if at > 0 {
        assert forall|i: int| 0 <= i < at - 1 implies (#[trigger] rest[i]).key.before(key) by {
            assert(rest[i] == all[i + 1]);
        }
        assert forall|i: int| at - 1 <= i < rest.len() implies !(#[trigger] rest[i]).key.before(
            key,
        ) by {
            assert(rest[i] == all[i + 1]);
        }
        assert(keyed_records::is_place(rest, key, at - 1));
        keyed_records::lemma_place(rest, key, at - 1);
        assert(rest[at - 1] == all[at]);
    } else {
        assert forall|i: int| 0 <= i < rest.len() implies !(#[trigger] rest[i]).key.before(
            key,
        ) by {
            assert(rest[i] == all[i + 1]);
        }
        assert(keyed_records::is_place(rest, key, 0));
        keyed_records::lemma_place(rest, key, 0);
        if rest.len() > 0 {
            assert(rest[0] == all[1]);
            assert(all[1].key != key) by {
                if held {
                    assert(all[1] == records[1]);
                    assert(records[0].key.before(records[1].key));
                } else {
                    assert(all[1] == records[0]);
                }
            }
        }
    }
}

/// What one more record does to its side: it is kept under its key in place of
/// one that was there, which is counted as a duplicate. Of more than 4096 the one
/// of the least key leaves, which is counted as unmatched. The other side stays.
pub proof fn law_records_wait_for_the_other_side(
    matcher: MatcherModel,
    host: PayloadDigest,
    local: LocalPayloadDigest,
)
    requires
        matcher.well_formed(),
        matcher.counters.duplicate_host_records < u64::MAX,
        matcher.counters.duplicate_player_payloads < u64::MAX,
        matcher.counters.unmatched_host_records < u64::MAX,
        matcher.counters.unmatched_player_payloads < u64::MAX,
    ensures
        ({
            let after = matcher.with_host(host);
            let again = keyed_records::holds(matcher.host, host_key(host));
            let full = matcher.host.len() == 4_096 && !again;
            let all = keyed_records::inserted(
                matcher.host,
                Keyed { key: host_key(host), value: host },
            );
            &&& after.local == matcher.local
            &&& after.host == if full {
                all.skip(1)
            } else {
                all
            }
            &&& after.host.len() == if again || full {
                matcher.host.len()
            } else {
                matcher.host.len() + 1
            }
            &&& after.counters.duplicate_host_records == matcher.counters.duplicate_host_records
                + if again {
                1int
            } else {
                0
            }
            &&& after.counters.unmatched_host_records == matcher.counters.unmatched_host_records
                + if full {
                1int
            } else {
                0
            }
            &&& after.counters.duplicate_player_payloads
                == matcher.counters.duplicate_player_payloads
            &&& after.counters.unmatched_player_payloads
                == matcher.counters.unmatched_player_payloads
        }),
        ({
            let after = matcher.with_local(local);
            let again = keyed_records::holds(matcher.local, local_key(local));
            let full = matcher.local.len() == 4_096 && !again;
            let all = keyed_records::inserted(
                matcher.local,
                Keyed { key: local_key(local), value: local },
            );
            &&& after.host == matcher.host
            &&& after.local == if full {
                all.skip(1)
            } else {
                all
            }
            &&& after.local.len() == if again || full {
                matcher.local.len()
            } else {
                matcher.local.len() + 1
            }
            &&& after.counters.duplicate_player_payloads
                == matcher.counters.duplicate_player_payloads + if again {
                1int
            } else {
                0
            }
            &&& after.counters.unmatched_player_payloads
                == matcher.counters.unmatched_player_payloads + if full {
                1int
            } else {
                0
            }
            &&& after.counters.duplicate_host_records == matcher.counters.duplicate_host_records
            &&& after.counters.unmatched_host_records == matcher.counters.unmatched_host_records
        }),
{
    keyed_records::lemma_some_place(matcher.host, host_key(host));
    keyed_records::lemma_some_place(matcher.local, local_key(local));
}

/// A fresh matcher holds no record and has counted none.
pub proof fn law_a_fresh_matcher()
    ensures
        ({
            let fresh = MatcherModel::initial();
            let counters = fresh.counters;
            &&& fresh.host.len() == 0 && fresh.local.len() == 0
            &&& counters.pending_host_records + counters.pending_player_payloads == 0
            &&& counters.duplicate_host_records + counters.duplicate_player_payloads == 0
            &&& counters.unmatched_host_records + counters.unmatched_player_payloads == 0
        }),
{
}

} // verus!
