//! A trial of the whole way of one frame, from a host to a decoder.

use crate::bytes;
use crate::bytes::get_be;
use crate::player::negotiation;
use crate::player::negotiation::{StreamOptions, wire_capability, wire_selected, wire_settings};
use crate::protocol::av1;
use crate::protocol::av1::negotiate_av1_configuration;
use crate::protocol::wire;
use crate::protocol::wire::envelope::{Body, BodyModel};
use crate::protocol::wire::offer_messages::Av1CapabilityOfferModel;
use crate::protocol::wire::{Av1CapabilityOffer, EncodedVideoPacket, Envelope};
use vstd::prelude::*;

verus! {

pub const WIDTH: u32 = 2_560;

pub const HEIGHT: u32 = 1_440;

pub const FRAMES_PER_SECOND: u16 = 120;

pub const DEFAULT_MAXIMUM_BITRATE: u64 = 20_000_000;

/// What a viewer decodes at this depth.
pub open spec fn spec_local_capability(
    bit_depth: av1::VideoBitDepth,
) -> av1::Av1HardwareCapability {
    av1::Av1HardwareCapability {
        mode: av1::Av1Mode {
            chroma_subsampling: av1::ChromaSubsampling::Yuv420,
            bit_depth,
        },
        maximum_width: WIDTH,
        maximum_height: HEIGHT,
        maximum_frames_per_second: FRAMES_PER_SECOND,
    }
}

pub fn local_capability(bit_depth: av1::VideoBitDepth) -> (capability: av1::Av1HardwareCapability)
    ensures
        capability == spec_local_capability(bit_depth),
{
    av1::Av1HardwareCapability {
        mode: av1::Av1Mode {
            chroma_subsampling: av1::ChromaSubsampling::Yuv420,
            bit_depth,
        },
        maximum_width: WIDTH,
        maximum_height: HEIGHT,
        maximum_frames_per_second: FRAMES_PER_SECOND,
    }
}

/// What a viewer streams with: ten bits where the host can, and eight otherwise.
pub fn stream_video(maximum_bitrate_bits_per_second: u64) -> (video: (
    Vec<av1::Av1HardwareCapability>,
    av1::Av1ViewerSettings,
))
    ensures
        video.0@ == seq![
            spec_local_capability(av1::VideoBitDepth::Ten),
            spec_local_capability(av1::VideoBitDepth::Eight),
        ],
        video.1.width == WIDTH,
        video.1.height == HEIGHT,
        video.1.frames_per_second == FRAMES_PER_SECOND,
        video.1.mode_preferences@ == seq![
            spec_local_capability(av1::VideoBitDepth::Ten).mode,
            spec_local_capability(av1::VideoBitDepth::Eight).mode,
        ],
        video.1.maximum_bitrate_bits_per_second == maximum_bitrate_bits_per_second,
{
    let ten = local_capability(av1::VideoBitDepth::Ten);
    let eight = local_capability(av1::VideoBitDepth::Eight);
    let capabilities: Vec<av1::Av1HardwareCapability> = vec![ten, eight];
    let mode_preferences: Vec<av1::Av1Mode> = vec![ten.mode, eight.mode];
    (
        capabilities,
        av1::Av1ViewerSettings {
            width: WIDTH,
            height: HEIGHT,
            frames_per_second: FRAMES_PER_SECOND,
            mode_preferences,
            maximum_bitrate_bits_per_second,
        },
    )
}

/// The settings of the trial: eight bits alone.
pub open spec fn are_trial_settings(settings: av1::Av1ViewerSettings) -> bool {
    &&& settings.width == WIDTH
    &&& settings.height == HEIGHT
    &&& settings.frames_per_second == FRAMES_PER_SECOND
    &&& settings.mode_preferences@ == seq![spec_local_capability(av1::VideoBitDepth::Eight).mode]
    &&& settings.maximum_bitrate_bits_per_second == DEFAULT_MAXIMUM_BITRATE
}

pub fn trial_settings() -> (settings: av1::Av1ViewerSettings)
    ensures
        are_trial_settings(settings),
{
    let mode_preferences: Vec<av1::Av1Mode> = vec![
        local_capability(av1::VideoBitDepth::Eight).mode,
    ];
    assert(mode_preferences@ =~= seq![spec_local_capability(av1::VideoBitDepth::Eight).mode]);
    av1::Av1ViewerSettings {
        width: WIDTH,
        height: HEIGHT,
        frames_per_second: FRAMES_PER_SECOND,
        mode_preferences,
        maximum_bitrate_bits_per_second: DEFAULT_MAXIMUM_BITRATE,
    }
}

pub open spec fn no_options() -> StreamOptions {
    StreamOptions {
        full_diagnostics: false,
        host_pointer_release: false,
        dedicated_input_stream: false,
    }
}

/// What the viewer offers in the trial.
pub open spec fn is_trial_offer(envelope: Envelope, settings: av1::Av1ViewerSettings) -> bool {
    envelope@.body == Some(
        BodyModel::Av1CapabilityOffer(
            Av1CapabilityOfferModel {
                encoder_capabilities: Seq::empty(),
                decoder_capabilities: seq![
                    negotiation::capability_on_wire(
                        spec_local_capability(av1::VideoBitDepth::Eight),
                    ),
                ],
                viewer_settings: Some(negotiation::settings_on_wire(settings)),
                audio_transport: None,
                full_diagnostics: false,
                host_pointer_release: false,
                dedicated_input_stream: false,
            },
        ),
    )
}

pub fn trial_offer(settings: &av1::Av1ViewerSettings) -> (envelope: Envelope)
    ensures
        is_trial_offer(envelope, *settings),
{
    let decoder_capabilities: Vec<wire::Av1HardwareCapability> = vec![
        wire_capability(local_capability(av1::VideoBitDepth::Eight)),
    ];
    let offer = Av1CapabilityOffer {
        encoder_capabilities: Vec::new(),
        decoder_capabilities,
        viewer_settings: Some(wire_settings(settings)),
        audio_transport: None,
        full_diagnostics: false,
        host_pointer_release: false,
        dedicated_input_stream: false,
    };
    assert(offer@.encoder_capabilities =~= Seq::<wire::Av1HardwareCapability>::empty());
    assert(offer@.decoder_capabilities =~= seq![
        negotiation::capability_on_wire(spec_local_capability(av1::VideoBitDepth::Eight)),
    ]);
    Envelope { body: Some(Body::Av1CapabilityOffer(offer)) }
}

/// Why the trial does not go on.
#[derive(Clone, Copy, Debug, PartialEq, Eq, Structural)]
pub enum TrialFault {
    /// The host advertised another mode than the one of the trial.
    UnsupportedMode,
    FrameRateOutOfRange(u32),
    InvalidOffer,
    Configuration(av1::Av1NegotiationError),
    FrameTooLarge { size: usize, maximum: usize },
    /// The packet is empty or no keyframe.
    NotAKeyframe,
    UnexpectedDimensions { width: u32, height: u32 },
}

/// What a host advertised, in the one mode of the trial.
pub open spec fn trial_capability_of(capability: wire::Av1HardwareCapability) -> Result<
    av1::Av1HardwareCapability,
    TrialFault,
> {
    if capability.chroma_subsampling != wire::ChromaSubsampling::Yuv420.spec_number()
        || capability.bit_depth != wire::VideoBitDepth::Eight.spec_number() {
        Err(TrialFault::UnsupportedMode)
    } else if capability.maximum_frames_per_second > u16::MAX {
        Err(TrialFault::FrameRateOutOfRange(capability.maximum_frames_per_second))
    } else {
        Ok(
            av1::Av1HardwareCapability {
                mode: spec_local_capability(av1::VideoBitDepth::Eight).mode,
                maximum_width: capability.maximum_width,
                maximum_height: capability.maximum_height,
                maximum_frames_per_second: capability.maximum_frames_per_second as u16,
            },
        )
    }
}

pub fn trial_capability(capability: &wire::Av1HardwareCapability) -> (result: Result<
    av1::Av1HardwareCapability,
    TrialFault,
>)
    ensures
        result == trial_capability_of(*capability),
{
    if capability.chroma_subsampling != wire::ChromaSubsampling::Yuv420.number()
        || capability.bit_depth != wire::VideoBitDepth::Eight.number() {
        return Err(TrialFault::UnsupportedMode);
    }
    if capability.maximum_frames_per_second > 0xffff {
        return Err(TrialFault::FrameRateOutOfRange(capability.maximum_frames_per_second));
    }
    Ok(
        av1::Av1HardwareCapability {
            mode: local_capability(av1::VideoBitDepth::Eight).mode,
            maximum_width: capability.maximum_width,
            maximum_height: capability.maximum_height,
            maximum_frames_per_second: capability.maximum_frames_per_second as u16,
        },
    )
}

/// All that a host advertised, or what is wrong with the first bad one.
pub open spec fn trial_capabilities_of(
    capabilities: Seq<wire::Av1HardwareCapability>,
    start: int,
) -> Result<Seq<av1::Av1HardwareCapability>, TrialFault>
    decreases capabilities.len() - start,
{
    if start >= capabilities.len() {
        Ok(Seq::empty())
    } else {
        match trial_capability_of(capabilities[start]) {
            Err(fault) => Err(fault),
            Ok(first) => match trial_capabilities_of(capabilities, start + 1) {
                Ok(others) => Ok(seq![first] + others),
                Err(fault) => Err(fault),
            },
        }
    }
}

/// What the viewer makes of the host's offer.
pub open spec fn trial_offer_of(body: Option<BodyModel>) -> Result<
    Seq<av1::Av1HardwareCapability>,
    TrialFault,
> {
    match body {
        Some(BodyModel::Av1CapabilityOffer(offer)) => if offer.decoder_capabilities.len() == 0
            && offer.viewer_settings is None {
            trial_capabilities_of(offer.encoder_capabilities, 0)
        } else {
            Err(TrialFault::InvalidOffer)
        },
        _ => Err(TrialFault::InvalidOffer),
    }
}

/// Reads the host's offer. A host offers no decoders and has no settings.
pub fn read_trial_offer(envelope: &Envelope) -> (result: Result<
    Vec<av1::Av1HardwareCapability>,
    TrialFault,
>)
    ensures
        match result {
            Ok(capabilities) => trial_offer_of(envelope@.body) == Ok::<
                Seq<av1::Av1HardwareCapability>,
                TrialFault,
            >(capabilities@),
            Err(fault) => trial_offer_of(envelope@.body) == Err::<
                Seq<av1::Av1HardwareCapability>,
                TrialFault,
            >(fault),
        },
{
    let offer: &Av1CapabilityOffer = match &envelope.body {
        Some(Body::Av1CapabilityOffer(offer)) => offer,
        _ => return Err(TrialFault::InvalidOffer),
    };
    if offer.decoder_capabilities.len() > 0 || offer.viewer_settings.is_some() {
        return Err(TrialFault::InvalidOffer);
    }
    let ghost all = offer.encoder_capabilities@;
    assert(envelope@.body == Some(BodyModel::Av1CapabilityOffer(offer@)));
    assert(offer@.encoder_capabilities =~= all);
    let mut capabilities: Vec<av1::Av1HardwareCapability> = Vec::new();
    let mut index: usize = 0;
    let ghost whole = trial_capabilities_of(all, 0);
    assert(match whole {
        Ok(found) => found == capabilities@ + found,
        Err(_) => true,
    });
    while index < offer.encoder_capabilities.len()
        invariant
            all == offer.encoder_capabilities@,
            index <= all.len(),
            whole == trial_capabilities_of(all, 0),
            whole == trial_offer_of(envelope@.body),
            match trial_capabilities_of(all, index as int) {
                Ok(others) => whole == Ok::<Seq<av1::Av1HardwareCapability>, TrialFault>(
                    capabilities@ + others,
                ),
                Err(fault) => whole == Err::<Seq<av1::Av1HardwareCapability>, TrialFault>(fault),
            },
        decreases all.len() - index,
    {
        let ghost before = capabilities@;
        match trial_capability(&offer.encoder_capabilities[index]) {
            Ok(capability) => {
                capabilities.push(capability);
                proof {
                    if let Ok(others) = trial_capabilities_of(all, index + 1) {
                        assert(before + (seq![capability] + others) =~= capabilities@ + others);
                    }
                }
            },
            Err(fault) => return Err(fault),
        }
        index = index + 1;
    }
    assert(capabilities@ + Seq::<av1::Av1HardwareCapability>::empty() =~= capabilities@);
    Ok(capabilities)
}

/// What is streamed in the trial, as the viewer tells it.
pub fn trial_selection(
    host_capabilities: &Vec<av1::Av1HardwareCapability>,
    settings: &av1::Av1ViewerSettings,
) -> (result: Result<wire::SelectedAv1Configuration, TrialFault>)
    ensures
        result == match av1::negotiated(
            host_capabilities@,
            seq![spec_local_capability(av1::VideoBitDepth::Eight)],
            *settings,
        ) {
            Ok(selected) => Ok::<wire::SelectedAv1Configuration, TrialFault>(
                negotiation::selection_on_wire(selected, None, no_options()),
            ),
            Err(error) => Err(TrialFault::Configuration(error)),
        },
{
    let local: Vec<av1::Av1HardwareCapability> = vec![local_capability(av1::VideoBitDepth::Eight)];
    assert(local@ =~= seq![spec_local_capability(av1::VideoBitDepth::Eight)]);
    match negotiate_av1_configuration(host_capabilities.as_slice(), local.as_slice(), settings) {
        Ok(selected) => Ok(
            wire_selected(
                selected,
                None,
                StreamOptions {
                    full_diagnostics: false,
                    host_pointer_release: false,
                    dedicated_input_stream: false,
                },
            ),
        ),
        Err(error) => Err(TrialFault::Configuration(error)),
    }
}

/// The size of the frame that a prefix announces, within `maximum`.
pub fn announced_frame_size(prefix: &[u8], maximum: usize) -> (result: Result<usize, TrialFault>)
    requires
        prefix@.len() == 4,
    ensures
        result == if bytes::be_value(prefix@) > maximum {
            Err::<usize, TrialFault>(
                TrialFault::FrameTooLarge { size: bytes::be_value(prefix@) as usize, maximum },
            )
        } else {
            Ok(bytes::be_value(prefix@) as usize)
        },
{
    proof {
        bytes::lemma_be_bounds();
    }
    let size: usize = get_be(prefix, 0, 4) as usize;
    assert(prefix@.subrange(0, 4) =~= prefix@);
    if size > maximum {
        return Err(TrialFault::FrameTooLarge { size, maximum });
    }
    Ok(size)
}

/// The packet of the trial is a keyframe with something in it.
pub fn require_keyframe(packet: &EncodedVideoPacket) -> (result: Result<(), TrialFault>)
    ensures
        result == if packet@.keyframe && packet@.payload.len() > 0 {
            Ok::<(), TrialFault>(())
        } else {
            Err(TrialFault::NotAKeyframe)
        },
{
    if !packet.keyframe || packet.payload.len() == 0 {
        return Err(TrialFault::NotAKeyframe);
    }
    Ok(())
}

/// A decoded frame has the size of the trial.
pub fn require_dimensions(width: u32, height: u32) -> (result: Result<(), TrialFault>)
    ensures
        result == if width == WIDTH && height == HEIGHT {
            Ok::<(), TrialFault>(())
        } else {
            Err(TrialFault::UnexpectedDimensions { width, height })
        },
{
    if width != WIDTH || height != HEIGHT {
        return Err(TrialFault::UnexpectedDimensions { width, height });
    }
    Ok(())
}

/// The sum of all bytes.
pub open spec fn byte_sum(bytes: Seq<u8>) -> nat
    decreases bytes.len(),
{
    if bytes.len() == 0 {
        0
    } else {
        byte_sum(bytes.drop_last()) + bytes.last() as nat
    }
}

fn summed(start: u64, bytes: &[u8]) -> (sum: u64)
    ensures
        sum == (start + byte_sum(bytes@)) % 0x1_0000_0000_0000_0000,
{
    let mut sum: u64 = start;
    let mut index: usize = 0;
    while index < bytes.len()
        invariant
            index <= bytes@.len(),
            sum == (start + byte_sum(bytes@.take(index as int))) % 0x1_0000_0000_0000_0000,
        decreases bytes@.len() - index,
    {
        assert(bytes@.take(index + 1).drop_last() =~= bytes@.take(index as int));
        sum = sum.wrapping_add(bytes[index] as u64);
        index = index + 1;
    }
    assert(bytes@.take(index as int) =~= bytes@);
    sum
}

/// The sum of the bytes of both planes, as far as 64 bits hold it.
pub fn checksum(luma: &[u8], chroma: &[u8]) -> (sum: u64)
    ensures
        sum == (byte_sum(luma@) + byte_sum(chroma@)) % 0x1_0000_0000_0000_0000,
{
    summed(summed(0, luma), chroma)
}

/// What this player decodes: 2560 by 1440 at 120 frames a second in 4:2:0.
pub proof fn law_what_is_decoded_here(bit_depth: av1::VideoBitDepth)
    ensures
        ({
            let capability = spec_local_capability(bit_depth);
            &&& capability.maximum_width == 2_560
            &&& capability.maximum_height == 1_440
            &&& capability.maximum_frames_per_second == 120
            &&& capability.mode.chroma_subsampling is Yuv420
            &&& capability.mode.bit_depth == bit_depth
        }),
{
}

/// Which capabilities of the host the trial takes: those of 4:2:0 and eight bits
/// with a frame rate of sixteen bits, with their own limits.
pub proof fn law_what_the_trial_takes(capability: wire::Av1HardwareCapability)
    ensures
        trial_capability_of(capability) is Ok <==> capability.chroma_subsampling == 1
            && capability.bit_depth == 1 && capability.maximum_frames_per_second <= 65_535,
        trial_capability_of(capability) matches Ok(taken) ==> {
            &&& taken.maximum_width == capability.maximum_width
            &&& taken.maximum_height == capability.maximum_height
            &&& taken.maximum_frames_per_second == capability.maximum_frames_per_second
            &&& taken.mode.chroma_subsampling is Yuv420
            &&& taken.mode.bit_depth is Eight
        },
{
}

/// The sum of bytes does not depend on where they are cut.
pub proof fn law_sums_add_up(first: Seq<u8>, second: Seq<u8>)
    ensures
        byte_sum(first + second) == byte_sum(first) + byte_sum(second),
        first.len() == 1 ==> byte_sum(first) == first[0],
    decreases second.len(),
{
    reveal_with_fuel(byte_sum, 2);
    if second.len() == 0 {
        assert(first + second =~= first);
    } else {
        law_sums_add_up(first, second.drop_last());
        assert((first + second).drop_last() =~= first + second.drop_last());
    }
}

/// The settings of the trial: 2560 by 1440 at 120 frames a second, eight bits in
/// 4:2:0 alone, at 20 Mbit/s.
pub proof fn law_settings_of_the_trial(settings: av1::Av1ViewerSettings)
    requires
        are_trial_settings(settings),
    ensures
        settings.width == 2_560,
        settings.height == 1_440,
        settings.frames_per_second == 120,
        settings.maximum_bitrate_bits_per_second == 20_000_000,
        settings.mode_preferences@.len() == 1,
        settings.mode_preferences@[0].bit_depth is Eight,
        settings.mode_preferences@[0].chroma_subsampling is Yuv420,
{
}

/// What the trial offers: no encoder, one decoder of eight bits, its settings,
/// no audio, and nothing beside.
pub proof fn law_what_the_trial_offers(envelope: Envelope, settings: av1::Av1ViewerSettings)
    requires
        is_trial_offer(envelope, settings),
    ensures
        envelope@.body matches Some(BodyModel::Av1CapabilityOffer(offer)) && {
            &&& offer.encoder_capabilities.len() == 0
            &&& offer.decoder_capabilities.len() == 1
            &&& offer.decoder_capabilities[0].maximum_width == 2_560
            &&& offer.decoder_capabilities[0].maximum_height == 1_440
            &&& offer.decoder_capabilities[0].maximum_frames_per_second == 120
            &&& offer.decoder_capabilities[0].bit_depth == 1
            &&& offer.decoder_capabilities[0].chroma_subsampling == 1
            &&& offer.viewer_settings matches Some(told)
            &&& told.width == settings.width && told.height == settings.height
            &&& told.frames_per_second == settings.frames_per_second
            &&& told.maximum_bitrate_bits_per_second == settings.maximum_bitrate_bits_per_second
            &&& offer.audio_transport is None
            &&& !offer.full_diagnostics && !offer.host_pointer_release
            &&& !offer.dedicated_input_stream
        },
{
}

} // verus!
