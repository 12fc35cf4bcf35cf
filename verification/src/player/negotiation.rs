//! How a viewer and a host agree on what is streamed.

use crate::protocol::av1;
use crate::protocol::av1::negotiate_av1_configuration;
use crate::protocol::wire;
use crate::protocol::wire::envelope::{Body, BodyModel};
use crate::protocol::wire::negotiation_messages::Av1ViewerSettingsModel;
use crate::protocol::wire::offer_messages::Av1CapabilityOfferModel;
use crate::protocol::wire::{AudioConfiguration, Av1CapabilityOffer, Envelope};
use vstd::prelude::*;

verus! {

/// Why no stream comes about.
#[derive(Clone, Copy, Debug, PartialEq, Eq, Structural)]
pub enum NegotiationFault {
    UnknownChroma(i32),
    UnspecifiedChroma,
    UnknownBitDepth(i32),
    UnspecifiedBitDepth,
    FrameRateOutOfRange(u32),
    InvalidOffer,
    Configuration(av1::Av1NegotiationError),
    DifferentConfiguration,
}

/// What a viewer asks for beside the video and the audio.
#[derive(Clone, Copy, Debug, PartialEq, Eq, Structural)]
pub struct StreamOptions {
    pub full_diagnostics: bool,
    pub host_pointer_release: bool,
    pub dedicated_input_stream: bool,
}

/// The number of a chroma subsampling.
pub open spec fn chroma_number(chroma: av1::ChromaSubsampling) -> i32 {
    match chroma {
        av1::ChromaSubsampling::Yuv420 => wire::ChromaSubsampling::Yuv420.spec_number(),
        av1::ChromaSubsampling::Yuv422 => wire::ChromaSubsampling::Yuv422.spec_number(),
        av1::ChromaSubsampling::Yuv444 => wire::ChromaSubsampling::Yuv444.spec_number(),
    }
}

/// The number of a bit depth.
pub open spec fn depth_number(depth: av1::VideoBitDepth) -> i32 {
    match depth {
        av1::VideoBitDepth::Eight => wire::VideoBitDepth::Eight.spec_number(),
        av1::VideoBitDepth::Ten => wire::VideoBitDepth::Ten.spec_number(),
    }
}

pub open spec fn mode_on_wire(mode: av1::Av1Mode) -> wire::Av1Mode {
    wire::Av1Mode {
        chroma_subsampling: chroma_number(mode.chroma_subsampling),
        bit_depth: depth_number(mode.bit_depth),
    }
}

pub open spec fn capability_on_wire(capability: av1::Av1HardwareCapability) ->
    wire::Av1HardwareCapability {
    wire::Av1HardwareCapability {
        chroma_subsampling: chroma_number(capability.mode.chroma_subsampling),
        bit_depth: depth_number(capability.mode.bit_depth),
        maximum_width: capability.maximum_width,
        maximum_height: capability.maximum_height,
        maximum_frames_per_second: capability.maximum_frames_per_second as u32,
    }
}

/// The chroma subsampling of a number.
pub open spec fn chroma_of(number: i32) -> Result<av1::ChromaSubsampling, NegotiationFault> {
    if number == wire::ChromaSubsampling::Yuv420.spec_number() {
        Ok(av1::ChromaSubsampling::Yuv420)
    } else if number == wire::ChromaSubsampling::Yuv422.spec_number() {
        Ok(av1::ChromaSubsampling::Yuv422)
    } else if number == wire::ChromaSubsampling::Yuv444.spec_number() {
        Ok(av1::ChromaSubsampling::Yuv444)
    } else if number == wire::ChromaSubsampling::Unspecified.spec_number() {
        Err(NegotiationFault::UnspecifiedChroma)
    } else {
        Err(NegotiationFault::UnknownChroma(number))
    }
}

/// The bit depth of a number.
pub open spec fn depth_of(number: i32) -> Result<av1::VideoBitDepth, NegotiationFault> {
    if number == wire::VideoBitDepth::Eight.spec_number() {
        Ok(av1::VideoBitDepth::Eight)
    } else if number == wire::VideoBitDepth::Ten.spec_number() {
        Ok(av1::VideoBitDepth::Ten)
    } else if number == wire::VideoBitDepth::Unspecified.spec_number() {
        Err(NegotiationFault::UnspecifiedBitDepth)
    } else {
        Err(NegotiationFault::UnknownBitDepth(number))
    }
}

/// The capability that a host advertised.
pub open spec fn capability_of(capability: wire::Av1HardwareCapability) -> Result<
    av1::Av1HardwareCapability,
    NegotiationFault,
> {
    match (chroma_of(capability.chroma_subsampling), depth_of(capability.bit_depth)) {
        (Err(fault), _) => Err(fault),
        (_, Err(fault)) => Err(fault),
        (Ok(chroma_subsampling), Ok(bit_depth)) => if capability.maximum_frames_per_second
            > u16::MAX {
            Err(NegotiationFault::FrameRateOutOfRange(capability.maximum_frames_per_second))
        } else {
            Ok(
                av1::Av1HardwareCapability {
                    mode: av1::Av1Mode { chroma_subsampling, bit_depth },
                    maximum_width: capability.maximum_width,
                    maximum_height: capability.maximum_height,
                    maximum_frames_per_second: capability.maximum_frames_per_second as u16,
                },
            )
        },
    }
}

/// The capabilities that a host advertised, or what is wrong with the first bad
/// one.
pub open spec fn capabilities_of(capabilities: Seq<wire::Av1HardwareCapability>) -> Result<
    Seq<av1::Av1HardwareCapability>,
    NegotiationFault,
>
    decreases capabilities.len(),
{
    if capabilities.len() == 0 {
        Ok(Seq::empty())
    } else {
        match capabilities_of(capabilities.drop_last()) {
            Err(fault) => Err(fault),
            Ok(before) => match capability_of(capabilities.last()) {
                Ok(capability) => Ok(before.push(capability)),
                Err(fault) => Err(fault),
            },
        }
    }
}

pub open spec fn settings_on_wire(settings: av1::Av1ViewerSettings) -> Av1ViewerSettingsModel {
    Av1ViewerSettingsModel {
        width: settings.width,
        height: settings.height,
        frames_per_second: settings.frames_per_second as u32,
        mode_preferences: settings.mode_preferences@.map_values(
            |mode: av1::Av1Mode| mode_on_wire(mode),
        ),
        maximum_bitrate_bits_per_second: settings.maximum_bitrate_bits_per_second,
    }
}

pub open spec fn selection_on_wire(
    selected: av1::NegotiatedAv1Configuration,
    audio_transport: Option<AudioConfiguration>,
    options: StreamOptions,
) -> wire::SelectedAv1Configuration {
    wire::SelectedAv1Configuration {
        width: selected.width,
        height: selected.height,
        frames_per_second: selected.frames_per_second as u32,
        mode: Some(mode_on_wire(selected.mode)),
        maximum_bitrate_bits_per_second: selected.maximum_bitrate_bits_per_second,
        audio_transport,
        full_diagnostics: options.full_diagnostics,
        host_pointer_release: options.host_pointer_release,
        dedicated_input_stream: options.dedicated_input_stream,
    }
}

fn wire_chroma(chroma: av1::ChromaSubsampling) -> (number: i32)
    ensures
        number == chroma_number(chroma),
{
    match chroma {
        av1::ChromaSubsampling::Yuv420 => wire::ChromaSubsampling::Yuv420.number(),
        av1::ChromaSubsampling::Yuv422 => wire::ChromaSubsampling::Yuv422.number(),
        av1::ChromaSubsampling::Yuv444 => wire::ChromaSubsampling::Yuv444.number(),
    }
}

fn wire_depth(depth: av1::VideoBitDepth) -> (number: i32)
    ensures
        number == depth_number(depth),
{
    match depth {
        av1::VideoBitDepth::Eight => wire::VideoBitDepth::Eight.number(),
        av1::VideoBitDepth::Ten => wire::VideoBitDepth::Ten.number(),
    }
}

fn wire_mode(mode: av1::Av1Mode) -> (result: wire::Av1Mode)
    ensures
        result == mode_on_wire(mode),
{
    wire::Av1Mode {
        chroma_subsampling: wire_chroma(mode.chroma_subsampling),
        bit_depth: wire_depth(mode.bit_depth),
    }
}

pub fn wire_capability(capability: av1::Av1HardwareCapability) -> (result:
    wire::Av1HardwareCapability)
    ensures
        result == capability_on_wire(capability),
{
    wire::Av1HardwareCapability {
        chroma_subsampling: wire_chroma(capability.mode.chroma_subsampling),
        bit_depth: wire_depth(capability.mode.bit_depth),
        maximum_width: capability.maximum_width,
        maximum_height: capability.maximum_height,
        maximum_frames_per_second: capability.maximum_frames_per_second as u32,
    }
}

pub fn domain_capability(capability: &wire::Av1HardwareCapability) -> (result: Result<
    av1::Av1HardwareCapability,
    NegotiationFault,
>)
    ensures
        result == capability_of(*capability),
{
    let chroma_subsampling = match wire::ChromaSubsampling::try_from(
        capability.chroma_subsampling,
    ) {
        Ok(wire::ChromaSubsampling::Yuv420) => av1::ChromaSubsampling::Yuv420,
        Ok(wire::ChromaSubsampling::Yuv422) => av1::ChromaSubsampling::Yuv422,
        Ok(wire::ChromaSubsampling::Yuv444) => av1::ChromaSubsampling::Yuv444,
        Ok(wire::ChromaSubsampling::Unspecified) => {
            return Err(NegotiationFault::UnspecifiedChroma);
        },
        Err(error) => {
            return Err(NegotiationFault::UnknownChroma(error.0));
        },
    };
    let bit_depth = match wire::VideoBitDepth::try_from(capability.bit_depth) {
        Ok(wire::VideoBitDepth::Eight) => av1::VideoBitDepth::Eight,
        Ok(wire::VideoBitDepth::Ten) => av1::VideoBitDepth::Ten,
        Ok(wire::VideoBitDepth::Unspecified) => {
            return Err(NegotiationFault::UnspecifiedBitDepth);
        },
        Err(error) => {
            return Err(NegotiationFault::UnknownBitDepth(error.0));
        },
    };
    if capability.maximum_frames_per_second > 0xffff {
        return Err(NegotiationFault::FrameRateOutOfRange(capability.maximum_frames_per_second));
    }
    Ok(
        av1::Av1HardwareCapability {
            mode: av1::Av1Mode { chroma_subsampling, bit_depth },
            maximum_width: capability.maximum_width,
            maximum_height: capability.maximum_height,
            maximum_frames_per_second: capability.maximum_frames_per_second as u16,
        },
    )
}

pub fn wire_settings(settings: &av1::Av1ViewerSettings) -> (result: wire::Av1ViewerSettings)
    ensures
        result@ == settings_on_wire(*settings),
{
    let mut mode_preferences: Vec<wire::Av1Mode> = Vec::new();
    let mut index: usize = 0;
    while index < settings.mode_preferences.len()
        invariant
            index <= settings.mode_preferences@.len(),
            mode_preferences@.len() == index,
            forall|i: int|
                0 <= i < index ==> #[trigger] mode_preferences@[i] == mode_on_wire(
                    settings.mode_preferences@[i],
                ),
        decreases settings.mode_preferences@.len() - index,
    {
        mode_preferences.push(wire_mode(settings.mode_preferences[index]));
        index = index + 1;
    }
    let result = wire::Av1ViewerSettings {
        width: settings.width,
        height: settings.height,
        frames_per_second: settings.frames_per_second as u32,
        mode_preferences,
        maximum_bitrate_bits_per_second: settings.maximum_bitrate_bits_per_second,
    };
    assert(result@.mode_preferences =~= settings_on_wire(*settings).mode_preferences);
    result
}

pub fn wire_selected(
    selected: av1::NegotiatedAv1Configuration,
    audio_transport: Option<AudioConfiguration>,
    options: StreamOptions,
) -> (result: wire::SelectedAv1Configuration)
    ensures
        result == selection_on_wire(selected, audio_transport, options),
{
    wire::SelectedAv1Configuration {
        width: selected.width,
        height: selected.height,
        frames_per_second: selected.frames_per_second as u32,
        mode: Some(wire_mode(selected.mode)),
        maximum_bitrate_bits_per_second: selected.maximum_bitrate_bits_per_second,
        audio_transport,
        full_diagnostics: options.full_diagnostics,
        host_pointer_release: options.host_pointer_release,
        dedicated_input_stream: options.dedicated_input_stream,
    }
}

/// What a viewer offers a host.
pub fn viewer_offer(
    decoder_capabilities: &Vec<av1::Av1HardwareCapability>,
    settings: &av1::Av1ViewerSettings,
    options: StreamOptions,
) -> (envelope: Envelope)
    ensures
        envelope@.body == Some(
            BodyModel::Av1CapabilityOffer(
                Av1CapabilityOfferModel {
                    encoder_capabilities: Seq::empty(),
                    decoder_capabilities: decoder_capabilities@.map_values(
                        |capability: av1::Av1HardwareCapability| capability_on_wire(capability),
                    ),
                    viewer_settings: Some(settings_on_wire(*settings)),
                    audio_transport: Some(AudioConfiguration::spec_standard()),
                    full_diagnostics: options.full_diagnostics,
                    host_pointer_release: options.host_pointer_release,
                    dedicated_input_stream: options.dedicated_input_stream,
                },
            ),
        ),
{
    let mut capabilities: Vec<wire::Av1HardwareCapability> = Vec::new();
    let mut index: usize = 0;
    while index < decoder_capabilities.len()
        invariant
            index <= decoder_capabilities@.len(),
            capabilities@.len() == index,
            forall|i: int|
                0 <= i < index ==> #[trigger] capabilities@[i] == capability_on_wire(
                    decoder_capabilities@[i],
                ),
        decreases decoder_capabilities@.len() - index,
    {
        capabilities.push(wire_capability(decoder_capabilities[index]));
        index = index + 1;
    }
    let offer = Av1CapabilityOffer {
        encoder_capabilities: Vec::new(),
        decoder_capabilities: capabilities,
        viewer_settings: Some(wire_settings(settings)),
        audio_transport: Some(AudioConfiguration::standard()),
        full_diagnostics: options.full_diagnostics,
        host_pointer_release: options.host_pointer_release,
        dedicated_input_stream: options.dedicated_input_stream,
    };
    assert(offer@.encoder_capabilities =~= Seq::<wire::Av1HardwareCapability>::empty());
    assert(offer@.decoder_capabilities =~= decoder_capabilities@.map_values(
        |capability: av1::Av1HardwareCapability| capability_on_wire(capability),
    ));
    Envelope { body: Some(Body::Av1CapabilityOffer(offer)) }
}

/// A host's offer: what it can encode, and the audio it sends if it is of a kind
/// that is supported.
pub struct HostOffer {
    pub capabilities: Vec<av1::Av1HardwareCapability>,
    pub audio_transport: Option<AudioConfiguration>,
}

/// The audio of an offer, where it is supported.
pub open spec fn supported_audio(audio: Option<AudioConfiguration>) -> Option<AudioConfiguration> {
    match audio {
        Some(configuration) if configuration == AudioConfiguration::spec_standard() => audio,
        _ => None,
    }
}

/// Reads a host's answer to an offer. A host offers no decoders and has no
/// settings.
pub fn read_host_offer(envelope: Envelope) -> (result: Result<HostOffer, NegotiationFault>)
    ensures
        match envelope@.body {
            Some(BodyModel::Av1CapabilityOffer(offer)) if offer.decoder_capabilities.len() == 0
                && offer.viewer_settings is None => match capabilities_of(
                offer.encoder_capabilities,
            ) {
                Ok(capabilities) => {
                    &&& result is Ok
                    &&& result->Ok_0.capabilities@ == capabilities
                    &&& result->Ok_0.audio_transport == supported_audio(offer.audio_transport)
                },
                Err(fault) => result == Err::<HostOffer, _>(fault),
            },
            _ => result == Err::<HostOffer, _>(NegotiationFault::InvalidOffer),
        },
{
    let offer = match envelope.body {
        Some(Body::Av1CapabilityOffer(offer)) => offer,
        _ => {
            return Err(NegotiationFault::InvalidOffer);
        },
    };
    if offer.decoder_capabilities.len() > 0 || offer.viewer_settings.is_some() {
        return Err(NegotiationFault::InvalidOffer);
    }
    let audio_transport = match offer.audio_transport {
        Some(configuration) => if configuration.supported() {
            Some(configuration)
        } else {
            None
        },
        None => None,
    };
    let ghost all = offer.encoder_capabilities@;
    let mut capabilities: Vec<av1::Av1HardwareCapability> = Vec::new();
    let mut index: usize = 0;
    assert(all.take(0) =~= Seq::<wire::Av1HardwareCapability>::empty());
    assert(capabilities@ =~= Seq::<av1::Av1HardwareCapability>::empty());
    while index < offer.encoder_capabilities.len()
        invariant
            all == offer.encoder_capabilities@,
            index <= all.len(),
            capabilities_of(all.take(index as int)) == Ok::<_, NegotiationFault>(capabilities@),
            envelope@.body matches Some(BodyModel::Av1CapabilityOffer(model))
                && model.decoder_capabilities.len() == 0 && model.viewer_settings is None
                && model.encoder_capabilities == all,
        decreases all.len() - index,
    {
        proof {
            assert(all.take(index + 1).drop_last() =~= all.take(index as int));
        }
        match domain_capability(&offer.encoder_capabilities[index]) {
            Ok(capability) => {
                capabilities.push(capability);
            },
            Err(fault) => {
                proof {
                    lemma_fault_stays(all, index + 1, fault);
                }
                return Err(fault);
            },
        }
        index = index + 1;
    }
    assert(all.take(index as int) =~= all);
    Ok(HostOffer { capabilities, audio_transport })
}

proof fn lemma_fault_stays(
    capabilities: Seq<wire::Av1HardwareCapability>,
    count: int,
    fault: NegotiationFault,
)
    requires
        0 <= count <= capabilities.len(),
        capabilities_of(capabilities.take(count)) == Err::<Seq<av1::Av1HardwareCapability>, _>(
            fault,
        ),
    ensures
        capabilities_of(capabilities) == Err::<Seq<av1::Av1HardwareCapability>, _>(fault),
    decreases capabilities.len() - count,
{
    if count == capabilities.len() {
        assert(capabilities.take(count) =~= capabilities);
    } else {
        assert(capabilities.take(count + 1).drop_last() =~= capabilities.take(count));
        lemma_fault_stays(capabilities, count + 1, fault);
    }
}

/// Selects what is streamed: the configuration, and the message that tells it.
pub fn select(
    offer: &HostOffer,
    decoder_capabilities: &Vec<av1::Av1HardwareCapability>,
    settings: &av1::Av1ViewerSettings,
    options: StreamOptions,
) -> (result: Result<
    (av1::NegotiatedAv1Configuration, wire::SelectedAv1Configuration),
    NegotiationFault,
>)
    ensures
        result == match av1::negotiated(offer.capabilities@, decoder_capabilities@, *settings) {
            Ok(selected) => Ok(
                (selected, selection_on_wire(selected, offer.audio_transport, options)),
            ),
            Err(error) => Err(NegotiationFault::Configuration(error)),
        },
{
    match negotiate_av1_configuration(
        offer.capabilities.as_slice(),
        decoder_capabilities.as_slice(),
        settings,
    ) {
        Ok(selected) => Ok((selected, wire_selected(selected, offer.audio_transport, options))),
        Err(error) => Err(NegotiationFault::Configuration(error)),
    }
}

/// Whether the host selected the same.
pub fn confirm(selected: wire::SelectedAv1Configuration, envelope: &Envelope) -> (result: Result<
    (),
    NegotiationFault,
>)
    ensures
        result == if envelope@.body == Some(BodyModel::SelectedAv1Configuration(selected)) {
            Ok(())
        } else {
            Err(NegotiationFault::DifferentConfiguration)
        },
{
    match &envelope.body {
        Some(Body::SelectedAv1Configuration(peer)) => if *peer == selected {
            Ok(())
        } else {
            Err(NegotiationFault::DifferentConfiguration)
        },
        _ => Err(NegotiationFault::DifferentConfiguration),
    }
}

/// A capability is understood as it was meant.
pub proof fn law_capabilities_are_understood(capability: av1::Av1HardwareCapability)
    ensures
        capability_of(capability_on_wire(capability)) == Ok::<_, NegotiationFault>(capability),
{
}

/// What a capability is on the wire: chroma from one to three by how much of
/// it there is, eight bits as one and ten as two, and the limits as they are.
pub proof fn law_capabilities_on_the_wire(capability: av1::Av1HardwareCapability)
    ensures
        ({
            let sent = capability_on_wire(capability);
            let mode = mode_on_wire(capability.mode);
            &&& sent.chroma_subsampling == 1 <==> capability.mode.chroma_subsampling is Yuv420
            &&& sent.chroma_subsampling == 2 <==> capability.mode.chroma_subsampling is Yuv422
            &&& sent.chroma_subsampling == 3 <==> capability.mode.chroma_subsampling is Yuv444
            &&& sent.bit_depth == 1 <==> capability.mode.bit_depth is Eight
            &&& sent.bit_depth == 2 <==> capability.mode.bit_depth is Ten
            &&& sent.maximum_width == capability.maximum_width
            &&& sent.maximum_height == capability.maximum_height
            &&& sent.maximum_frames_per_second == capability.maximum_frames_per_second
            &&& mode.chroma_subsampling == sent.chroma_subsampling
            &&& mode.bit_depth == sent.bit_depth
        }),
{
}

/// Which capabilities of the wire are understood: those with a chroma and a
/// depth that have a meaning, and a frame rate of sixteen bits. Their limits are
/// taken as they are.
pub proof fn law_which_capabilities_are_understood(capability: wire::Av1HardwareCapability)
    ensures
        capability_of(capability) is Ok <==> 1 <= capability.chroma_subsampling <= 3 && 1
            <= capability.bit_depth <= 2 && capability.maximum_frames_per_second <= 65_535,
        capability_of(capability) matches Ok(understood) ==> {
            &&& understood.maximum_width == capability.maximum_width
            &&& understood.maximum_height == capability.maximum_height
            &&& understood.maximum_frames_per_second == capability.maximum_frames_per_second
            &&& understood.mode.chroma_subsampling is Yuv420 <==> capability.chroma_subsampling
                == 1
            &&& understood.mode.chroma_subsampling is Yuv422 <==> capability.chroma_subsampling
                == 2
            &&& understood.mode.chroma_subsampling is Yuv444 <==> capability.chroma_subsampling
                == 3
            &&& understood.mode.bit_depth is Eight <==> capability.bit_depth == 1
            &&& understood.mode.bit_depth is Ten <==> capability.bit_depth == 2
        },
        capability.chroma_subsampling == 0 <==> (capability_of(capability) matches Err(fault)
            && fault is UnspecifiedChroma),
        !(0 <= capability.chroma_subsampling <= 3) <==> (capability_of(capability) matches Err(
            fault,
        ) && fault is UnknownChroma),
{
}

/// A list of capabilities is understood where each of them is, in its order.
pub proof fn law_lists_of_capabilities(capabilities: Seq<wire::Av1HardwareCapability>)
    ensures
        capabilities_of(capabilities) is Ok <==> forall|i: int|
            0 <= i < capabilities.len() ==> capability_of(#[trigger] capabilities[i]) is Ok,
        capabilities_of(capabilities) matches Ok(understood) ==> {
            &&& understood.len() == capabilities.len()
            &&& forall|i: int|
                0 <= i < capabilities.len() ==> capability_of(#[trigger] capabilities[i]) == Ok::<
                    _,
                    NegotiationFault,
                >(understood[i])
        },
    decreases capabilities.len(),
{
    if capabilities.len() > 0 {
        let shorter = capabilities.drop_last();
        law_lists_of_capabilities(shorter);
        assert(capabilities[capabilities.len() - 1] == capabilities.last());
        assert forall|i: int| 0 <= i < shorter.len() implies shorter[i] == #[trigger] capabilities[
            i
        ] by {}
        if capabilities_of(shorter) is Err {
            let i = choose|i: int|
                0 <= i < shorter.len() && !(capability_of(#[trigger] shorter[i]) is Ok);
            assert(capability_of(capabilities[i]) is Err);
        }
    }
}

/// What the viewer asks for and what is selected go over the wire field by
/// field, the preferences in their order.
pub proof fn law_settings_on_the_wire(
    settings: av1::Av1ViewerSettings,
    selected: av1::NegotiatedAv1Configuration,
    audio: Option<AudioConfiguration>,
    options: StreamOptions,
)
    ensures
        ({
            let asked = settings_on_wire(settings);
            let answer = selection_on_wire(selected, audio, options);
            &&& asked.width == settings.width
            &&& asked.height == settings.height
            &&& asked.frames_per_second == settings.frames_per_second
            &&& asked.maximum_bitrate_bits_per_second == settings.maximum_bitrate_bits_per_second
            &&& asked.mode_preferences.len() == settings.mode_preferences@.len()
            &&& forall|i: int|
                0 <= i < asked.mode_preferences.len() ==> #[trigger] asked.mode_preferences[i]
                    == mode_on_wire(settings.mode_preferences@[i])
            &&& answer.width == selected.width
            &&& answer.height == selected.height
            &&& answer.frames_per_second == selected.frames_per_second
            &&& answer.maximum_bitrate_bits_per_second == selected.maximum_bitrate_bits_per_second
            &&& answer.mode == Some(mode_on_wire(selected.mode))
            &&& answer.audio_transport == audio
            &&& answer.full_diagnostics == options.full_diagnostics
            &&& answer.host_pointer_release == options.host_pointer_release
            &&& answer.dedicated_input_stream == options.dedicated_input_stream
        }),
{
}

/// Audio is carried in the one way that is known: stereo Opus of 48 kHz in
/// packets of 10 ms, and not at all where anything else is offered.
pub proof fn law_one_way_of_carrying_audio(audio: Option<AudioConfiguration>)
    ensures
        supported_audio(audio) is Some <==> (audio matches Some(offered) && offered
            == AudioConfiguration::spec_standard()),
        supported_audio(audio) is Some ==> supported_audio(audio) == audio,
        AudioConfiguration::spec_standard().sample_rate == 48_000,
        AudioConfiguration::spec_standard().channels == 2,
        AudioConfiguration::spec_standard().packet_duration_micros == 10_000,
{
}

} // verus!
