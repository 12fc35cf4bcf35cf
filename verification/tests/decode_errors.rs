//! What is told of bytes that hold no message, next to what prost tells of them.

use prost::bytes::{Buf, BufMut};
use prost::encoding::{bytes, message, skip_field, string, uint64, DecodeContext, WireType};
use prost::{DecodeError, Message as ProstMessage};
use rustconsole::protocol::wire::{
    decode_reliable_frame, EncodedVideoPacket, Envelope, Message,
};

/// What a field holds.
#[derive(Clone, Copy)]
enum Kind {
    Number,
    Bytes,
    Text,
    Nested(usize),
}

/// A message that prost reads: its name and fields stand in [`SHAPES`].
struct Node<const ID: usize>;

type Shape = (&'static str, &'static [(u32, Kind, &'static str)]);

const SHAPES: [Shape; 36] = [
    (
        "Envelope",
        &[
            (1, Kind::Nested(34), "body"),
            (2, Kind::Nested(26), "body"),
            (3, Kind::Nested(32), "body"),
            (4, Kind::Nested(15), "body"),
            (5, Kind::Nested(16), "body"),
            (6, Kind::Nested(17), "body"),
            (7, Kind::Nested(18), "body"),
            (8, Kind::Nested(23), "body"),
            (9, Kind::Nested(25), "body"),
            (10, Kind::Nested(19), "body"),
            (11, Kind::Nested(20), "body"),
            (12, Kind::Nested(21), "body"),
            (13, Kind::Nested(22), "body"),
            (14, Kind::Nested(30), "body"),
            (15, Kind::Nested(3), "body"),
            (16, Kind::Nested(11), "body"),
            (17, Kind::Nested(14), "body"),
            (18, Kind::Nested(24), "body"),
            (19, Kind::Nested(12), "body"),
            (20, Kind::Nested(13), "body"),
            (21, Kind::Nested(33), "body"),
        ],
    ),
    (
        "EncodedVideoPacket",
        &[
            (1, Kind::Number, "sequence"),
            (2, Kind::Number, "captured_at_micros"),
            (3, Kind::Number, "keyframe"),
            (4, Kind::Bytes, "payload"),
        ],
    ),
    (
        "InputTransition",
        &[
            (1, Kind::Number, "generation"),
            (2, Kind::Number, "sequence"),
            (3, Kind::Nested(4), "action"),
            (4, Kind::Nested(5), "action"),
            (5, Kind::Nested(8), "action"),
            (6, Kind::Nested(9), "action"),
            (7, Kind::Nested(10), "action"),
            (8, Kind::Number, "player_sent_at_micros"),
            (9, Kind::Nested(6), "action"),
            (10, Kind::Nested(7), "action"),
        ],
    ),
    (
        "InputPack",
        &[
            (1, Kind::Nested(2), "transitions"),
        ],
    ),
    (
        "KeyTransition",
        &[
            (1, Kind::Number, "hid_usage"),
            (2, Kind::Number, "pressed"),
        ],
    ),
    (
        "PointerButtonTransition",
        &[
            (1, Kind::Number, "button"),
            (2, Kind::Number, "pressed"),
        ],
    ),
    (
        "PointerMotionTransition",
        &[
            (1, Kind::Number, "delta_x"),
            (2, Kind::Number, "delta_y"),
        ],
    ),
    (
        "PointerPositionTransition",
        &[
            (1, Kind::Number, "x"),
            (2, Kind::Number, "y"),
        ],
    ),
    (
        "WheelTransition",
        &[
            (1, Kind::Number, "horizontal"),
            (2, Kind::Number, "vertical"),
        ],
    ),
    (
        "PointerModeTransition",
        &[
            (1, Kind::Number, "mode"),
        ],
    ),
    (
        "ReleaseAll",
        &[],
    ),
    (
        "InputAck",
        &[
            (1, Kind::Number, "generation"),
            (2, Kind::Number, "through_sequence"),
            (3, Kind::Number, "player_sent_at_micros"),
            (4, Kind::Number, "host_received_at_micros"),
            (5, Kind::Number, "host_submitted_at_micros"),
            (6, Kind::Number, "pointer_datagrams_received"),
            (7, Kind::Number, "pointer_updates_applied"),
            (8, Kind::Number, "pointer_updates_ignored"),
            (9, Kind::Number, "mouse_reports_published"),
            (10, Kind::Number, "keyboard_reports_published"),
            (11, Kind::Number, "reliable_transitions_received"),
            (12, Kind::Number, "reliable_transitions_applied"),
            (13, Kind::Number, "reliable_transitions_rejected"),
            (14, Kind::Number, "reliable_transitions_missing"),
            (15, Kind::Number, "reliable_transitions_duplicate_or_late"),
            (16, Kind::Number, "release_all_transitions"),
            (17, Kind::Number, "pointer_missing_datagrams"),
            (18, Kind::Number, "pointer_stale_generations"),
            (19, Kind::Number, "pointer_duplicate_or_late"),
            (20, Kind::Number, "pointer_mode_rejections"),
            (21, Kind::Number, "pointer_relative_baselines"),
        ],
    ),
    (
        "ClockPing",
        &[
            (1, Kind::Number, "sequence"),
            (2, Kind::Number, "player_sent_at_micros"),
        ],
    ),
    (
        "ClockPong",
        &[
            (1, Kind::Number, "sequence"),
            (2, Kind::Number, "player_sent_at_micros"),
            (3, Kind::Number, "host_received_at_micros"),
            (4, Kind::Number, "host_sent_at_micros"),
        ],
    ),
    (
        "KeyboardLeds",
        &[
            (1, Kind::Number, "generation"),
            (2, Kind::Number, "sequence"),
            (3, Kind::Number, "mask"),
        ],
    ),
    (
        "OpaqueCredentialRequest",
        &[
            (1, Kind::Bytes, "credential_identifier"),
            (2, Kind::Bytes, "message"),
        ],
    ),
    (
        "OpaqueCredentialResponse",
        &[
            (1, Kind::Bytes, "message"),
        ],
    ),
    (
        "OpaqueCredentialFinalization",
        &[
            (1, Kind::Bytes, "message"),
        ],
    ),
    (
        "AuthenticationResult",
        &[
            (1, Kind::Number, "accepted"),
            (2, Kind::Bytes, "host_identity"),
        ],
    ),
    (
        "HostIdentityOffer",
        &[
            (1, Kind::Bytes, "host_identity"),
            (2, Kind::Text, "display_name"),
            (3, Kind::Number, "operating_system"),
        ],
    ),
    (
        "HostIdentityRequest",
        &[],
    ),
    (
        "SessionAvailabilityProbe",
        &[],
    ),
    (
        "SessionAvailabilityResult",
        &[
            (1, Kind::Number, "availability"),
            (2, Kind::Number, "vb_cable_status"),
            (3, Kind::Number, "firewall_status"),
        ],
    ),
    (
        "VideoControl",
        &[
            (1, Kind::Number, "kind"),
        ],
    ),
    (
        "VideoStreamState",
        &[
            (1, Kind::Number, "status"),
            (2, Kind::Number, "cause"),
        ],
    ),
    (
        "VideoReceiverReport",
        &[
            (1, Kind::Number, "newest_sequence"),
            (2, Kind::Number, "received_chunks"),
            (3, Kind::Number, "lost_chunks"),
            (4, Kind::Number, "late_chunks"),
            (5, Kind::Number, "assembly_overflows"),
            (6, Kind::Number, "completed_frames"),
            (7, Kind::Number, "incomplete_frames"),
            (8, Kind::Number, "last_completed_assembly_micros"),
            (9, Kind::Number, "last_assembly_budget_micros"),
            (10, Kind::Number, "completed_payload_bytes"),
            (11, Kind::Number, "measurement_interval_micros"),
        ],
    ),
    (
        "Av1CapabilityOffer",
        &[
            (1, Kind::Nested(27), "encoder_capabilities"),
            (2, Kind::Nested(27), "decoder_capabilities"),
            (3, Kind::Nested(28), "viewer_settings"),
            (4, Kind::Nested(29), "audio_transport"),
            (5, Kind::Number, "full_diagnostics"),
            (6, Kind::Number, "host_pointer_release"),
            (7, Kind::Number, "dedicated_input_stream"),
        ],
    ),
    (
        "Av1HardwareCapability",
        &[
            (1, Kind::Number, "chroma_subsampling"),
            (2, Kind::Number, "bit_depth"),
            (3, Kind::Number, "maximum_width"),
            (4, Kind::Number, "maximum_height"),
            (5, Kind::Number, "maximum_frames_per_second"),
        ],
    ),
    (
        "Av1ViewerSettings",
        &[
            (1, Kind::Number, "width"),
            (2, Kind::Number, "height"),
            (3, Kind::Number, "frames_per_second"),
            (4, Kind::Nested(31), "mode_preferences"),
            (5, Kind::Number, "maximum_bitrate_bits_per_second"),
        ],
    ),
    (
        "AudioConfiguration",
        &[
            (1, Kind::Number, "version"),
            (2, Kind::Number, "codec"),
            (3, Kind::Number, "sample_rate"),
            (4, Kind::Number, "channels"),
            (5, Kind::Number, "packet_duration_micros"),
            (6, Kind::Number, "bitrate_bits_per_second"),
        ],
    ),
    (
        "AudioStreamState",
        &[
            (1, Kind::Number, "generation"),
            (2, Kind::Number, "status"),
            (3, Kind::Number, "dropped_packets"),
            (4, Kind::Text, "detail"),
        ],
    ),
    (
        "Av1Mode",
        &[
            (1, Kind::Number, "chroma_subsampling"),
            (2, Kind::Number, "bit_depth"),
        ],
    ),
    (
        "SelectedAv1Configuration",
        &[
            (1, Kind::Number, "width"),
            (2, Kind::Number, "height"),
            (3, Kind::Number, "frames_per_second"),
            (4, Kind::Nested(31), "mode"),
            (5, Kind::Number, "maximum_bitrate_bits_per_second"),
            (7, Kind::Nested(29), "audio_transport"),
            (8, Kind::Number, "full_diagnostics"),
            (9, Kind::Number, "host_pointer_release"),
            (10, Kind::Number, "dedicated_input_stream"),
        ],
    ),
    (
        "HostSessionControl",
        &[
            (1, Kind::Number, "kind"),
        ],
    ),
    (
        "VersionOffer",
        &[
            (1, Kind::Number, "protocol_major"),
            (2, Kind::Number, "protocol_minor"),
            (3, Kind::Nested(35), "features"),
        ],
    ),
    (
        "FeatureOffer",
        &[
            (1, Kind::Number, "id"),
            (2, Kind::Number, "oldest_version"),
            (3, Kind::Number, "newest_version"),
            (4, Kind::Number, "required"),
        ],
    ),
];

fn merge_nested(
    id: usize,
    wire_type: WireType,
    buf: &mut impl Buf,
    ctx: DecodeContext,
) -> Result<(), DecodeError> {
    match id {
        0 => message::merge(wire_type, &mut Node::<0>, buf, ctx),
        1 => message::merge(wire_type, &mut Node::<1>, buf, ctx),
        2 => message::merge(wire_type, &mut Node::<2>, buf, ctx),
        3 => message::merge(wire_type, &mut Node::<3>, buf, ctx),
        4 => message::merge(wire_type, &mut Node::<4>, buf, ctx),
        5 => message::merge(wire_type, &mut Node::<5>, buf, ctx),
        6 => message::merge(wire_type, &mut Node::<6>, buf, ctx),
        7 => message::merge(wire_type, &mut Node::<7>, buf, ctx),
        8 => message::merge(wire_type, &mut Node::<8>, buf, ctx),
        9 => message::merge(wire_type, &mut Node::<9>, buf, ctx),
        10 => message::merge(wire_type, &mut Node::<10>, buf, ctx),
        11 => message::merge(wire_type, &mut Node::<11>, buf, ctx),
        12 => message::merge(wire_type, &mut Node::<12>, buf, ctx),
        13 => message::merge(wire_type, &mut Node::<13>, buf, ctx),
        14 => message::merge(wire_type, &mut Node::<14>, buf, ctx),
        15 => message::merge(wire_type, &mut Node::<15>, buf, ctx),
        16 => message::merge(wire_type, &mut Node::<16>, buf, ctx),
        17 => message::merge(wire_type, &mut Node::<17>, buf, ctx),
        18 => message::merge(wire_type, &mut Node::<18>, buf, ctx),
        19 => message::merge(wire_type, &mut Node::<19>, buf, ctx),
        20 => message::merge(wire_type, &mut Node::<20>, buf, ctx),
        21 => message::merge(wire_type, &mut Node::<21>, buf, ctx),
        22 => message::merge(wire_type, &mut Node::<22>, buf, ctx),
        23 => message::merge(wire_type, &mut Node::<23>, buf, ctx),
        24 => message::merge(wire_type, &mut Node::<24>, buf, ctx),
        25 => message::merge(wire_type, &mut Node::<25>, buf, ctx),
        26 => message::merge(wire_type, &mut Node::<26>, buf, ctx),
        27 => message::merge(wire_type, &mut Node::<27>, buf, ctx),
        28 => message::merge(wire_type, &mut Node::<28>, buf, ctx),
        29 => message::merge(wire_type, &mut Node::<29>, buf, ctx),
        30 => message::merge(wire_type, &mut Node::<30>, buf, ctx),
        31 => message::merge(wire_type, &mut Node::<31>, buf, ctx),
        32 => message::merge(wire_type, &mut Node::<32>, buf, ctx),
        33 => message::merge(wire_type, &mut Node::<33>, buf, ctx),
        34 => message::merge(wire_type, &mut Node::<34>, buf, ctx),
        35 => message::merge(wire_type, &mut Node::<35>, buf, ctx),
        _ => unreachable!(),
    }
}

impl<const ID: usize> ProstMessage for Node<ID> {
    fn encode_raw(&self, _buf: &mut impl BufMut) {}

    fn merge_field(
        &mut self,
        tag: u32,
        wire_type: WireType,
        buf: &mut impl Buf,
        ctx: DecodeContext,
    ) -> Result<(), DecodeError> {
        let (name, fields) = SHAPES[ID];
        let Some((_, kind, field)) = fields.iter().find(|field| field.0 == tag) else {
            return skip_field(wire_type, tag, buf, ctx);
        };
        let result = match kind {
            Kind::Number => uint64::merge(wire_type, &mut 0, buf, ctx),
            Kind::Bytes => bytes::merge(wire_type, &mut Vec::<u8>::new(), buf, ctx),
            Kind::Text => string::merge(wire_type, &mut String::new(), buf, ctx),
            Kind::Nested(id) => merge_nested(*id, wire_type, buf, ctx),
        };
        result.map_err(|mut error| {
            error.push(name, field);
            error
        })
    }

    fn encoded_len(&self) -> usize {
        0
    }

    fn clear(&mut self) {}
}

struct Dice(u64);

impl Dice {
    fn roll(&mut self, sides: u64) -> u64 {
        self.0 ^= self.0 << 13;
        self.0 ^= self.0 >> 7;
        self.0 ^= self.0 << 17;
        self.0 % sides
    }
}

/// The fields of a message, most of them in order and some of them broken.
fn fields(dice: &mut Dice, id: usize, depth: usize) -> Vec<u8> {
    let mut out = Vec::new();
    for _ in 0..dice.roll(4) {
        let shape = SHAPES[id].1;
        if shape.is_empty() || dice.roll(8) == 0 {
            for _ in 0..dice.roll(6) {
                let byte = match dice.roll(4) {
                    0 => dice.roll(256),
                    1 => dice.roll(8),
                    2 => 0x80 + dice.roll(128),
                    _ => (22 + dice.roll(3)) * 8 + dice.roll(8),
                };
                out.push(byte as u8);
            }
            continue;
        }
        let (tag, kind, _) = shape[dice.roll(shape.len() as u64) as usize];
        let key = if dice.roll(12) == 0 {
            u64::from(tag) * 8 + dice.roll(8)
        } else {
            u64::from(tag) * 8 + if matches!(kind, Kind::Number) { 0 } else { 2 }
        };
        prost::encoding::encode_varint(key, &mut out);
        let value = match kind {
            Kind::Number => {
                prost::encoding::encode_varint(dice.roll(1_000), &mut out);
                continue;
            }
            Kind::Nested(id) if depth > 0 => fields(dice, id, depth - 1),
            _ => (0..dice.roll(4))
                .map(|_| if dice.roll(6) == 0 { 0xff } else { 65 })
                .collect(),
        };
        let wrong = match dice.roll(10) {
            0 => dice.roll(5),
            1 => 0x1_0000_0000,
            _ => 0,
        };
        prost::encoding::encode_varint(value.len() as u64 + wrong, &mut out);
        out.extend(value);
    }
    out
}

fn told(result: Result<(), DecodeError>) -> Option<String> {
    result.err().map(|error| error.to_string())
}

#[test]
fn every_error_is_told_as_prost_tells_it() {
    let mut dice = Dice(0x9e37_79b9_7f4a_7c15);
    let mut seen = String::new();
    let mut accepted = 0;
    for _ in 0..40_000 {
        let bytes = fields(&mut dice, 0, 4);
        let expected = told(Node::<0>.merge(bytes.as_slice()));
        let actual = <Envelope as Message>::decode(&bytes)
            .err()
            .map(|error| error.message());
        assert_eq!(actual, expected, "{bytes:?}");
        match expected {
            Some(text) => {
                let end = text.rsplit(": ").next().unwrap().to_string();
                if !seen.contains(&end) {
                    seen.push_str(&end);
                    seen.push('\n');
                }
            }
            None => accepted += 1,
        }
        let bytes = fields(&mut dice, 1, 0);
        assert_eq!(
            <EncodedVideoPacket as Message>::decode(&bytes)
                .err()
                .map(|error| error.message()),
            told(Node::<1>.merge(bytes.as_slice())),
        );
    }
    assert!(accepted > 1_000);
    for text in [
        "invalid varint",
        "buffer underflow",
        "delimited length exceeded",
        "unexpected end group tag",
        "data is not UTF-8 encoded",
        "EndGroup (expected Varint)",
        "StartGroup (expected LengthDelimited)",
    ] {
        assert!(seen.contains(text), "{text} is not among {seen}");
    }
}

#[test]
fn keys_that_cannot_be_read_are_told_apart() {
    for (bytes, text) in [
        (vec![0x80], "invalid varint"),
        (vec![0xff, 0xff, 0xff, 0xff, 0x7f], "invalid key value: 34359738367"),
        (vec![0x0e], "invalid wire type value: 6"),
        (vec![0x00], "invalid tag value: 0"),
        (vec![0xc4, 0x01], "unexpected end group tag"),
    ] {
        let error = <Envelope as Message>::decode(&bytes).unwrap_err();
        assert_eq!(
            error.message(),
            format!("failed to decode Protobuf message: {text}")
        );
        assert_eq!(Some(error.message()), told(Node::<0>.merge(bytes.as_slice())));
    }
}

#[test]
fn groups_that_nest_too_deep_are_refused() {
    for depth in [98, 99, 100, 101] {
        let mut bytes = Vec::new();
        for _ in 0..depth {
            bytes.extend([0xc3, 0x01]);
        }
        for _ in 0..depth {
            bytes.extend([0xc4, 0x01]);
        }
        assert_eq!(
            <Envelope as Message>::decode(&bytes)
                .err()
                .map(|error| error.message()),
            told(Node::<0>.merge(bytes.as_slice())),
        );
    }
}

#[test]
fn a_frame_tells_what_its_payload_breaks() {
    let frame = [0, 0, 0, 4, 0x0a, 2, 0x08, 0x80];
    assert_eq!(
        decode_reliable_frame(&frame).unwrap_err().message(),
        "failed to decode reliable payload: failed to decode Protobuf message: \
         VersionOffer.protocol_major: Envelope.body: invalid varint"
    );
}
