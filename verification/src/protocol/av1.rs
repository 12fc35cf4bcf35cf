//! Deterministic hardware-only AV1 capability negotiation.

use vstd::prelude::*;

verus! {

pub const MAXIMUM_VIDEO_BITRATE_BITS_PER_SECOND: u64 = 100_000_000;

#[derive(Clone, Copy, Debug, PartialEq, Eq, PartialOrd, Ord, Structural)]
pub enum ChromaSubsampling {
    Yuv420,
    Yuv422,
    Yuv444,
}

#[derive(Clone, Copy, Debug, PartialEq, Eq, PartialOrd, Ord, Structural)]
pub enum VideoBitDepth {
    Eight,
    Ten,
}

#[derive(Clone, Copy, Debug, PartialEq, Eq, PartialOrd, Ord, Structural)]
pub struct Av1Mode {
    pub chroma_subsampling: ChromaSubsampling,
    pub bit_depth: VideoBitDepth,
}

/// A mode that a piece of hardware supports, up to its limits.
#[derive(Clone, Copy, Debug, PartialEq, Eq, Structural)]
pub struct Av1HardwareCapability {
    pub mode: Av1Mode,
    pub maximum_width: u32,
    pub maximum_height: u32,
    pub maximum_frames_per_second: u16,
}

/// What the viewer asks for, with the modes in the order it prefers them.
#[derive(Clone, Debug, PartialEq, Eq)]
pub struct Av1ViewerSettings {
    pub width: u32,
    pub height: u32,
    pub frames_per_second: u16,
    pub mode_preferences: Vec<Av1Mode>,
    pub maximum_bitrate_bits_per_second: u64,
}

#[derive(Clone, Copy, Debug, PartialEq, Eq, Structural)]
pub struct NegotiatedAv1Configuration {
    pub width: u32,
    pub height: u32,
    pub frames_per_second: u16,
    pub mode: Av1Mode,
    pub maximum_bitrate_bits_per_second: u64,
}

#[derive(Clone, Copy, Debug, PartialEq, Eq, Structural)]
pub enum Av1NegotiationError {
    EmptyEncoderCapabilities,
    EmptyDecoderCapabilities,
    EmptyModePreferences,
    ZeroWidth,
    ZeroHeight,
    ZeroFramesPerSecond,
    ZeroMaximumBitrate,
    MaximumBitrateTooHigh,
    InvalidEncoderCapability(Av1Mode),
    InvalidDecoderCapability(Av1Mode),
    DuplicateEncoderCapability(Av1Mode),
    DuplicateDecoderCapability(Av1Mode),
    DuplicateModePreference(Av1Mode),
    NoCompatibleHardwareMode,
}

/// What is wrong with a list of capabilities.
#[derive(Clone, Copy, Debug, PartialEq, Eq, Structural)]
pub enum CapabilityTrouble {
    Empty,
    ZeroLimit(Av1Mode),
    Duplicate(Av1Mode),
}

impl Av1HardwareCapability {
    /// The capability covers the whole of what the viewer asks for, in `mode`.
    pub open spec fn covers(self, settings: Av1ViewerSettings, mode: Av1Mode) -> bool {
        self.mode == mode && settings.width <= self.maximum_width && settings.height
            <= self.maximum_height && settings.frames_per_second <= self.maximum_frames_per_second
    }

    pub open spec fn limits_are_positive(self) -> bool {
        self.maximum_width != 0 && self.maximum_height != 0 && self.maximum_frames_per_second != 0
    }

    fn supports(self, settings: &Av1ViewerSettings, mode: Av1Mode) -> (result: bool)
        ensures
            result == self.covers(*settings, mode),
    {
        self.mode == mode && settings.width <= self.maximum_width && settings.height
            <= self.maximum_height && settings.frames_per_second <= self.maximum_frames_per_second
    }

    fn has_valid_limits(self) -> (result: bool)
        ensures
            result == self.limits_are_positive(),
    {
        self.maximum_width != 0 && self.maximum_height != 0 && self.maximum_frames_per_second != 0
    }
}

/// One of `capabilities` covers the settings in `mode`.
pub open spec fn some_covers(
    capabilities: Seq<Av1HardwareCapability>,
    settings: Av1ViewerSettings,
    mode: Av1Mode,
) -> bool {
    exists|i: int| 0 <= i < capabilities.len()
        && (#[trigger] capabilities[i]).covers(settings, mode)
}

/// The first entry of a list that is wrong: a zero limit, or a mode that an earlier entry has.
pub open spec fn list_trouble(capabilities: Seq<Av1HardwareCapability>) -> Option<CapabilityTrouble>
    decreases capabilities.len(),
{
    if capabilities.len() == 0 {
        None
    } else {
        match list_trouble(capabilities.drop_last()) {
            Some(trouble) => Some(trouble),
            None => {
                let last = capabilities.last();
                if !last.limits_are_positive() {
                    Some(CapabilityTrouble::ZeroLimit(last.mode))
                } else if exists|i: int|
                    0 <= i < capabilities.len() - 1 && (#[trigger] capabilities[i]).mode
                        == last.mode {
                    Some(CapabilityTrouble::Duplicate(last.mode))
                } else {
                    None
                }
            },
        }
    }
}

pub open spec fn capability_trouble(capabilities: Seq<Av1HardwareCapability>) -> Option<
    CapabilityTrouble,
> {
    if capabilities.len() == 0 {
        Some(CapabilityTrouble::Empty)
    } else {
        list_trouble(capabilities)
    }
}

pub open spec fn encoder_error(trouble: CapabilityTrouble) -> Av1NegotiationError {
    match trouble {
        CapabilityTrouble::Empty => Av1NegotiationError::EmptyEncoderCapabilities,
        CapabilityTrouble::ZeroLimit(mode) => Av1NegotiationError::InvalidEncoderCapability(mode),
        CapabilityTrouble::Duplicate(mode) => Av1NegotiationError::DuplicateEncoderCapability(mode),
    }
}

pub open spec fn decoder_error(trouble: CapabilityTrouble) -> Av1NegotiationError {
    match trouble {
        CapabilityTrouble::Empty => Av1NegotiationError::EmptyDecoderCapabilities,
        CapabilityTrouble::ZeroLimit(mode) => Av1NegotiationError::InvalidDecoderCapability(mode),
        CapabilityTrouble::Duplicate(mode) => Av1NegotiationError::DuplicateDecoderCapability(mode),
    }
}

/// The first mode that an earlier preference repeats.
pub open spec fn repeated_mode(modes: Seq<Av1Mode>) -> Option<Av1Mode>
    decreases modes.len(),
{
    if modes.len() == 0 {
        None
    } else {
        match repeated_mode(modes.drop_last()) {
            Some(mode) => Some(mode),
            None => if modes.drop_last().contains(modes.last()) {
                Some(modes.last())
            } else {
                None
            },
        }
    }
}

/// What is wrong with the settings: the first of these in order.
pub open spec fn settings_error(settings: Av1ViewerSettings) -> Option<Av1NegotiationError> {
    if settings.width == 0 {
        Some(Av1NegotiationError::ZeroWidth)
    } else if settings.height == 0 {
        Some(Av1NegotiationError::ZeroHeight)
    } else if settings.frames_per_second == 0 {
        Some(Av1NegotiationError::ZeroFramesPerSecond)
    } else if settings.maximum_bitrate_bits_per_second == 0 {
        Some(Av1NegotiationError::ZeroMaximumBitrate)
    } else if settings.maximum_bitrate_bits_per_second > MAXIMUM_VIDEO_BITRATE_BITS_PER_SECOND {
        Some(Av1NegotiationError::MaximumBitrateTooHigh)
    } else if settings.mode_preferences@.len() == 0 {
        Some(Av1NegotiationError::EmptyModePreferences)
    } else {
        match repeated_mode(settings.mode_preferences@) {
            Some(mode) => Some(Av1NegotiationError::DuplicateModePreference(mode)),
            None => None,
        }
    }
}

/// The first of `modes` that both sides cover.
pub open spec fn first_covered(
    modes: Seq<Av1Mode>,
    encoder: Seq<Av1HardwareCapability>,
    decoder: Seq<Av1HardwareCapability>,
    settings: Av1ViewerSettings,
) -> Option<Av1Mode>
    decreases modes.len(),
{
    if modes.len() == 0 {
        None
    } else if some_covers(encoder, settings, modes[0]) && some_covers(decoder, settings, modes[0]) {
        Some(modes[0])
    } else {
        first_covered(modes.skip(1), encoder, decoder, settings)
    }
}

/// What negotiation returns.
pub open spec fn negotiated(
    encoder: Seq<Av1HardwareCapability>,
    decoder: Seq<Av1HardwareCapability>,
    settings: Av1ViewerSettings,
) -> Result<NegotiatedAv1Configuration, Av1NegotiationError> {
    if capability_trouble(encoder) is Some {
        Err(encoder_error(capability_trouble(encoder)->0))
    } else if capability_trouble(decoder) is Some {
        Err(decoder_error(capability_trouble(decoder)->0))
    } else if settings_error(settings) is Some {
        Err(settings_error(settings)->0)
    } else {
        match first_covered(settings.mode_preferences@, encoder, decoder, settings) {
            Some(mode) => Ok(
                NegotiatedAv1Configuration {
                    width: settings.width,
                    height: settings.height,
                    frames_per_second: settings.frames_per_second,
                    mode,
                    maximum_bitrate_bits_per_second: settings.maximum_bitrate_bits_per_second,
                },
            ),
            None => Err(Av1NegotiationError::NoCompatibleHardwareMode),
        }
    }
}

/// The mode found is a preference that both sides cover, and no earlier one is.
pub proof fn lemma_first_covered(
    modes: Seq<Av1Mode>,
    encoder: Seq<Av1HardwareCapability>,
    decoder: Seq<Av1HardwareCapability>,
    settings: Av1ViewerSettings,
)
    ensures
        match first_covered(modes, encoder, decoder, settings) {
            Some(mode) => exists|i: int|
                0 <= i < modes.len() && #[trigger] modes[i] == mode && some_covers(
                    encoder,
                    settings,
                    mode,
                ) && some_covers(decoder, settings, mode) && forall|j: int|
                    0 <= j < i ==> !(some_covers(encoder, settings, #[trigger] modes[j])
                        && some_covers(decoder, settings, modes[j])),
            None => forall|j: int|
                0 <= j < modes.len() ==> !(some_covers(encoder, settings, #[trigger] modes[j])
                    && some_covers(decoder, settings, modes[j])),
        },
    decreases modes.len(),
{
    if modes.len() > 0 && !(some_covers(encoder, settings, modes[0]) && some_covers(
        decoder,
        settings,
        modes[0],
    )) {
        let rest = modes.skip(1);
        lemma_first_covered(rest, encoder, decoder, settings);
        match first_covered(rest, encoder, decoder, settings) {
            Some(mode) => {
                let k = choose|k: int|
                    0 <= k < rest.len() && #[trigger] rest[k] == mode && some_covers(
                        encoder,
                        settings,
                        mode,
                    ) && some_covers(decoder, settings, mode) && forall|j: int|
                        0 <= j < k ==> !(some_covers(encoder, settings, #[trigger] rest[j])
                            && some_covers(decoder, settings, rest[j]));
                assert(modes[k + 1] == mode);
                assert forall|j: int| 0 <= j < k + 1 implies !(some_covers(
                    encoder,
                    settings,
                    #[trigger] modes[j],
                ) && some_covers(decoder, settings, modes[j])) by {
                    if j > 0 {
                        assert(rest[j - 1] == modes[j]);
                    }
                }
            },
            None => {
                assert forall|j: int| 0 <= j < modes.len() implies !(some_covers(
                    encoder,
                    settings,
                    #[trigger] modes[j],
                ) && some_covers(decoder, settings, modes[j])) by {
                    if j > 0 {
                        assert(rest[j - 1] == modes[j]);
                    }
                }
            },
        }
    }
}

/// The viewer's order of preference decides: the mode selected is the first
/// preference that both the encoder and the decoder cover in full.
pub proof fn law_first_supported_preference_is_selected(
    encoder: Seq<Av1HardwareCapability>,
    decoder: Seq<Av1HardwareCapability>,
    settings: Av1ViewerSettings,
)
    ensures
        negotiated(encoder, decoder, settings) matches Ok(configuration) ==> exists|i: int|
            0 <= i < settings.mode_preferences@.len() && #[trigger] settings.mode_preferences@[i]
                == configuration.mode && some_covers(encoder, settings, configuration.mode)
                && some_covers(decoder, settings, configuration.mode) && forall|j: int|
                0 <= j < i ==> !(some_covers(
                    encoder,
                    settings,
                    #[trigger] settings.mode_preferences@[j],
                ) && some_covers(decoder, settings, settings.mode_preferences@[j])),
{
    lemma_first_covered(settings.mode_preferences@, encoder, decoder, settings);
}

/// Selects the first preferred mode that the encoder and the decoder both support.
pub fn negotiate_av1_configuration(
    encoder_capabilities: &[Av1HardwareCapability],
    decoder_capabilities: &[Av1HardwareCapability],
    settings: &Av1ViewerSettings,
) -> (result: Result<NegotiatedAv1Configuration, Av1NegotiationError>)
    ensures
        result == negotiated(encoder_capabilities@, decoder_capabilities@, *settings),
{
    match validate_capabilities(encoder_capabilities) {
        Some(CapabilityTrouble::Empty) => {
            return Err(Av1NegotiationError::EmptyEncoderCapabilities);
        },
        Some(CapabilityTrouble::ZeroLimit(mode)) => {
            return Err(Av1NegotiationError::InvalidEncoderCapability(mode));
        },
        Some(CapabilityTrouble::Duplicate(mode)) => {
            return Err(Av1NegotiationError::DuplicateEncoderCapability(mode));
        },
        None => {},
    }
    match validate_capabilities(decoder_capabilities) {
        Some(CapabilityTrouble::Empty) => {
            return Err(Av1NegotiationError::EmptyDecoderCapabilities);
        },
        Some(CapabilityTrouble::ZeroLimit(mode)) => {
            return Err(Av1NegotiationError::InvalidDecoderCapability(mode));
        },
        Some(CapabilityTrouble::Duplicate(mode)) => {
            return Err(Av1NegotiationError::DuplicateDecoderCapability(mode));
        },
        None => {},
    }
    match validate_settings(settings) {
        Some(error) => {
            return Err(error);
        },
        None => {},
    }
    let ghost modes = settings.mode_preferences@;
    let mut index: usize = 0;
    assert(modes.skip(0) =~= modes);
    while index < settings.mode_preferences.len()
        invariant
            modes == settings.mode_preferences@,
            index <= modes.len(),
            first_covered(modes, encoder_capabilities@, decoder_capabilities@, *settings)
                == first_covered(
                modes.skip(index as int),
                encoder_capabilities@,
                decoder_capabilities@,
                *settings,
            ),
            capability_trouble(encoder_capabilities@) is None,
            capability_trouble(decoder_capabilities@) is None,
            settings_error(*settings) is None,
        decreases modes.len() - index,
    {
        let mode = settings.mode_preferences[index];
        let ghost rest = modes.skip(index as int);
        assert(rest[0] == mode);
        if any_supports(encoder_capabilities, settings, mode) && any_supports(
            decoder_capabilities,
            settings,
            mode,
        ) {
            return Ok(
                NegotiatedAv1Configuration {
                    width: settings.width,
                    height: settings.height,
                    frames_per_second: settings.frames_per_second,
                    mode,
                    maximum_bitrate_bits_per_second: settings.maximum_bitrate_bits_per_second,
                },
            );
        }
        assert(rest.skip(1) =~= modes.skip(index + 1));
        index = index + 1;
    }
    Err(Av1NegotiationError::NoCompatibleHardwareMode)
}

fn any_supports(
    capabilities: &[Av1HardwareCapability],
    settings: &Av1ViewerSettings,
    mode: Av1Mode,
) -> (result: bool)
    ensures
        result == some_covers(capabilities@, *settings, mode),
{
    let mut index: usize = 0;
    while index < capabilities.len()
        invariant
            index <= capabilities@.len(),
            forall|i: int|
                0 <= i < index ==> !(#[trigger] capabilities@[i]).covers(*settings, mode),
        decreases capabilities@.len() - index,
    {
        if capabilities[index].supports(settings, mode) {
            return true;
        }
        index = index + 1;
    }
    false
}

proof fn lemma_trouble_stays(capabilities: Seq<Av1HardwareCapability>, count: int)
    requires
        0 <= count <= capabilities.len(),
        list_trouble(capabilities.take(count)) is Some,
    ensures
        list_trouble(capabilities) == list_trouble(capabilities.take(count)),
    decreases capabilities.len(),
{
    if count == capabilities.len() {
        assert(capabilities.take(count) =~= capabilities);
    } else {
        assert(capabilities.drop_last().take(count) =~= capabilities.take(count));
        lemma_trouble_stays(capabilities.drop_last(), count);
    }
}

fn validate_capabilities(capabilities: &[Av1HardwareCapability]) -> (trouble: Option<
    CapabilityTrouble,
>)
    ensures
        trouble == capability_trouble(capabilities@),
{
    if capabilities.len() == 0 {
        return Some(CapabilityTrouble::Empty);
    }
    let mut index: usize = 0;
    while index < capabilities.len()
        invariant
            capabilities@.len() > 0,
            index <= capabilities@.len(),
            list_trouble(capabilities@.take(index as int)) is None,
        decreases capabilities@.len() - index,
    {
        let capability = capabilities[index];
        let ghost next = capabilities@.take(index + 1);
        assert(next.drop_last() =~= capabilities@.take(index as int));
        assert(next.last() == capability);
        if !capability.has_valid_limits() {
            proof {
                lemma_trouble_stays(capabilities@, index + 1);
            }
            return Some(CapabilityTrouble::ZeroLimit(capability.mode));
        }
        let mut earlier: usize = 0;
        while earlier < index
            invariant
                earlier <= index < capabilities@.len(),
                next == capabilities@.take(index + 1),
                next.drop_last() == capabilities@.take(index as int),
                next.last() == capability,
                capability == capabilities@[index as int],
                capability.limits_are_positive(),
                list_trouble(capabilities@.take(index as int)) is None,
                forall|i: int|
                    0 <= i < earlier ==> (#[trigger] capabilities@[i]).mode != capability.mode,
            decreases index - earlier,
        {
            if capabilities[earlier].mode == capability.mode {
                proof {
                    assert(next[earlier as int].mode == capability.mode);
                    lemma_trouble_stays(capabilities@, index + 1);
                }
                return Some(CapabilityTrouble::Duplicate(capability.mode));
            }
            earlier = earlier + 1;
        }
        assert forall|i: int| 0 <= i < next.len() - 1 implies (#[trigger] next[i]).mode
            != capability.mode by {
            assert(next[i] == capabilities@[i]);
        }
        index = index + 1;
    }
    assert(capabilities@.take(index as int) =~= capabilities@);
    None
}

proof fn lemma_repeat_stays(modes: Seq<Av1Mode>, count: int)
    requires
        0 <= count <= modes.len(),
        repeated_mode(modes.take(count)) is Some,
    ensures
        repeated_mode(modes) == repeated_mode(modes.take(count)),
    decreases modes.len(),
{
    if count == modes.len() {
        assert(modes.take(count) =~= modes);
    } else {
        assert(modes.drop_last().take(count) =~= modes.take(count));
        lemma_repeat_stays(modes.drop_last(), count);
    }
}

fn find_repeated_mode(modes: &Vec<Av1Mode>) -> (mode: Option<Av1Mode>)
    ensures
        mode == repeated_mode(modes@),
{
    let mut index: usize = 0;
    while index < modes.len()
        invariant
            index <= modes@.len(),
            repeated_mode(modes@.take(index as int)) is None,
        decreases modes@.len() - index,
    {
        let mode = modes[index];
        let ghost next = modes@.take(index + 1);
        assert(next.drop_last() =~= modes@.take(index as int));
        assert(next.last() == mode);
        let mut earlier: usize = 0;
        while earlier < index
            invariant
                earlier <= index < modes@.len(),
                next == modes@.take(index + 1),
                next.drop_last() == modes@.take(index as int),
                next.last() == mode,
                repeated_mode(modes@.take(index as int)) is None,
                forall|i: int| 0 <= i < earlier ==> #[trigger] modes@[i] != mode,
            decreases index - earlier,
        {
            if modes[earlier] == mode {
                proof {
                    assert(next.drop_last()[earlier as int] == mode);
                    lemma_repeat_stays(modes@, index + 1);
                }
                return Some(mode);
            }
            earlier = earlier + 1;
        }
        assert(!next.drop_last().contains(mode)) by {
            assert forall|i: int| 0 <= i < next.drop_last().len() implies next.drop_last()[i]
                != mode by {
                assert(next.drop_last()[i] == modes@[i]);
            }
        }
        index = index + 1;
    }
    assert(modes@.take(index as int) =~= modes@);
    None
}

fn validate_settings(settings: &Av1ViewerSettings) -> (error: Option<Av1NegotiationError>)
    ensures
        error == settings_error(*settings),
{
    if settings.width == 0 {
        return Some(Av1NegotiationError::ZeroWidth);
    }
    if settings.height == 0 {
        return Some(Av1NegotiationError::ZeroHeight);
    }
    if settings.frames_per_second == 0 {
        return Some(Av1NegotiationError::ZeroFramesPerSecond);
    }
    if settings.maximum_bitrate_bits_per_second == 0 {
        return Some(Av1NegotiationError::ZeroMaximumBitrate);
    }
    if settings.maximum_bitrate_bits_per_second > MAXIMUM_VIDEO_BITRATE_BITS_PER_SECOND {
        return Some(Av1NegotiationError::MaximumBitrateTooHigh);
    }
    if settings.mode_preferences.len() == 0 {
        return Some(Av1NegotiationError::EmptyModePreferences);
    }
    match find_repeated_mode(&settings.mode_preferences) {
        Some(mode) => Some(Av1NegotiationError::DuplicateModePreference(mode)),
        None => None,
    }
}

/// Where negotiation gives a configuration, the encoder and the decoder each
/// have a capability of its mode whose width, height and frame rate reach that
/// far, the mode is one of the viewer's preferences and no earlier preference
/// has such capabilities on both sides. Width, height, frame rate and bitrate
/// are those of the settings.
pub proof fn law_both_sides_reach_the_configuration(
    encoder: Seq<Av1HardwareCapability>,
    decoder: Seq<Av1HardwareCapability>,
    settings: Av1ViewerSettings,
    configuration: NegotiatedAv1Configuration,
)
    requires
        negotiated(encoder, decoder, settings) == Ok::<
            NegotiatedAv1Configuration,
            Av1NegotiationError,
        >(configuration),
    ensures
        exists|i: int|
            0 <= i < encoder.len() && (#[trigger] encoder[i]).mode == configuration.mode
                && configuration.width <= encoder[i].maximum_width && configuration.height
                <= encoder[i].maximum_height && configuration.frames_per_second
                <= encoder[i].maximum_frames_per_second,
        exists|i: int|
            0 <= i < decoder.len() && (#[trigger] decoder[i]).mode == configuration.mode
                && configuration.width <= decoder[i].maximum_width && configuration.height
                <= decoder[i].maximum_height && configuration.frames_per_second
                <= decoder[i].maximum_frames_per_second,
        configuration.width == settings.width,
        configuration.height == settings.height,
        configuration.frames_per_second == settings.frames_per_second,
        configuration.maximum_bitrate_bits_per_second == settings.maximum_bitrate_bits_per_second,
        0 < configuration.width,
        0 < configuration.height,
        0 < configuration.frames_per_second,
        0 < configuration.maximum_bitrate_bits_per_second <= 100_000_000,
        exists|k: int|
            0 <= k < settings.mode_preferences@.len() && #[trigger] settings.mode_preferences@[k]
                == configuration.mode,
{
    let mode = configuration.mode;
    lemma_first_covered(settings.mode_preferences@, encoder, decoder, settings);
    assert(some_covers(encoder, settings, mode) && some_covers(decoder, settings, mode));
    let i = choose|i: int|
        0 <= i < encoder.len() && (#[trigger] encoder[i]).covers(settings, mode);
    assert(encoder[i].mode == mode);
    let j = choose|j: int|
        0 <= j < decoder.len() && (#[trigger] decoder[j]).covers(settings, mode);
    assert(decoder[j].mode == mode);
}

/// No preference that comes before the negotiated mode has capabilities on
/// both sides that reach the settings.
pub proof fn law_no_earlier_preference_is_passed_over(
    encoder: Seq<Av1HardwareCapability>,
    decoder: Seq<Av1HardwareCapability>,
    settings: Av1ViewerSettings,
    configuration: NegotiatedAv1Configuration,
    earlier: int,
    selected: int,
    i: int,
    j: int,
)
    requires
        negotiated(encoder, decoder, settings) == Ok::<
            NegotiatedAv1Configuration,
            Av1NegotiationError,
        >(configuration),
        0 <= earlier < selected < settings.mode_preferences@.len(),
        settings.mode_preferences@[selected] == configuration.mode,
        0 <= i < encoder.len(),
        0 <= j < decoder.len(),
        encoder[i].mode == settings.mode_preferences@[earlier],
        decoder[j].mode == settings.mode_preferences@[earlier],
    ensures
        encoder[i].maximum_width < settings.width || encoder[i].maximum_height < settings.height
            || encoder[i].maximum_frames_per_second < settings.frames_per_second
            || decoder[j].maximum_width < settings.width || decoder[j].maximum_height
            < settings.height || decoder[j].maximum_frames_per_second < settings.frames_per_second,
{
    let modes = settings.mode_preferences@;
    lemma_clean_preferences(modes);
    lemma_first_covered(modes, encoder, decoder, settings);
    let k = choose|k: int|
        0 <= k < modes.len() && #[trigger] modes[k] == configuration.mode && some_covers(
            encoder,
            settings,
            configuration.mode,
        ) && some_covers(decoder, settings, configuration.mode) && forall|l: int|
            0 <= l < k ==> !(some_covers(encoder, settings, #[trigger] modes[l]) && some_covers(
                decoder,
                settings,
                modes[l],
            ));
    assert(k == selected);
    assert(encoder[i].covers(settings, modes[earlier]) ==> some_covers(
        encoder,
        settings,
        modes[earlier],
    ));
    assert(decoder[j].covers(settings, modes[earlier]) ==> some_covers(
        decoder,
        settings,
        modes[earlier],
    ));
}

/// Negotiation succeeds wherever it can: with lists in which every limit is
/// positive and no mode comes twice, settings that are positive and within the
/// bitrate limit, and a preference that both sides reach.
pub proof fn law_negotiation_succeeds_where_both_sides_reach(
    encoder: Seq<Av1HardwareCapability>,
    decoder: Seq<Av1HardwareCapability>,
    settings: Av1ViewerSettings,
    i: int,
    j: int,
    k: int,
)
    requires
        forall|a: int|
            0 <= a < encoder.len() ==> (#[trigger] encoder[a]).maximum_width > 0
                && encoder[a].maximum_height > 0 && encoder[a].maximum_frames_per_second > 0,
        forall|a: int|
            0 <= a < decoder.len() ==> (#[trigger] decoder[a]).maximum_width > 0
                && decoder[a].maximum_height > 0 && decoder[a].maximum_frames_per_second > 0,
        forall|a: int, b: int|
            0 <= a < b < encoder.len() ==> (#[trigger] encoder[a]).mode
                != (#[trigger] encoder[b]).mode,
        forall|a: int, b: int|
            0 <= a < b < decoder.len() ==> (#[trigger] decoder[a]).mode
                != (#[trigger] decoder[b]).mode,
        forall|a: int, b: int|
            0 <= a < b < settings.mode_preferences@.len()
                ==> #[trigger] settings.mode_preferences@[a]
                != #[trigger] settings.mode_preferences@[b],
        0 < settings.width,
        0 < settings.height,
        0 < settings.frames_per_second,
        0 < settings.maximum_bitrate_bits_per_second <= 100_000_000,
        0 <= i < encoder.len(),
        0 <= j < decoder.len(),
        0 <= k < settings.mode_preferences@.len(),
        encoder[i].mode == settings.mode_preferences@[k],
        decoder[j].mode == settings.mode_preferences@[k],
        settings.width <= encoder[i].maximum_width,
        settings.height <= encoder[i].maximum_height,
        settings.frames_per_second <= encoder[i].maximum_frames_per_second,
        settings.width <= decoder[j].maximum_width,
        settings.height <= decoder[j].maximum_height,
        settings.frames_per_second <= decoder[j].maximum_frames_per_second,
    ensures
        negotiated(encoder, decoder, settings) is Ok,
{
    lemma_clean_list(encoder);
    lemma_clean_list(decoder);
    lemma_clean_preferences(settings.mode_preferences@);
    lemma_first_covered(settings.mode_preferences@, encoder, decoder, settings);
    let mode = settings.mode_preferences@[k];
    assert(encoder[i].covers(settings, mode));
    assert(decoder[j].covers(settings, mode));
}

/// A list is without trouble where every limit is positive and no mode comes
/// twice, and only there.
proof fn lemma_clean_list(capabilities: Seq<Av1HardwareCapability>)
    ensures
        list_trouble(capabilities) != Some(CapabilityTrouble::Empty),
        list_trouble(capabilities) is None <==> {
            &&& forall|a: int|
                0 <= a < capabilities.len() ==> (#[trigger] capabilities[a]).maximum_width > 0
                    && capabilities[a].maximum_height > 0
                    && capabilities[a].maximum_frames_per_second > 0
            &&& forall|a: int, b: int|
                0 <= a < b < capabilities.len() ==> (#[trigger] capabilities[a]).mode
                    != (#[trigger] capabilities[b]).mode
        },
    decreases capabilities.len(),
{
    if capabilities.len() > 0 {
        let shorter = capabilities.drop_last();
        lemma_clean_list(shorter);
        assert forall|a: int| 0 <= a < shorter.len() implies shorter[a] == #[trigger] capabilities[
            a
        ] by {}
        if list_trouble(capabilities) is Some && list_trouble(shorter) is Some {
            if forall|a: int|
                0 <= a < shorter.len() ==> (#[trigger] shorter[a]).maximum_width > 0
                    && shorter[a].maximum_height > 0 && shorter[a].maximum_frames_per_second > 0 {
                let (a, b) = choose|a: int, b: int|
                    0 <= a < b < shorter.len() && (#[trigger] shorter[a]).mode
                        == (#[trigger] shorter[b]).mode;
                assert(capabilities[a].mode == capabilities[b].mode);
            } else {
                let a = choose|a: int|
                    0 <= a < shorter.len() && !((#[trigger] shorter[a]).maximum_width > 0
                        && shorter[a].maximum_height > 0 && shorter[a].maximum_frames_per_second
                        > 0);
                assert(capabilities[a] == shorter[a]);
            }
        }
    }
}

proof fn lemma_clean_preferences(modes: Seq<Av1Mode>)
    ensures
        repeated_mode(modes) is None <==> forall|a: int, b: int|
            0 <= a < b < modes.len() ==> #[trigger] modes[a] != #[trigger] modes[b],
    decreases modes.len(),
{
    if modes.len() > 0 {
        let shorter = modes.drop_last();
        lemma_clean_preferences(shorter);
        if repeated_mode(shorter) is Some {
            let (a, b) = choose|a: int, b: int|
                0 <= a < b < shorter.len() && #[trigger] shorter[a] == #[trigger] shorter[b];
            assert(modes[a] == modes[b]);
        } else if shorter.contains(modes.last()) {
            let a = choose|a: int| 0 <= a < shorter.len() && shorter[a] == modes.last();
            assert(modes[a] == modes[modes.len() - 1]);
        } else {
            assert forall|a: int, b: int| 0 <= a < b < modes.len() implies #[trigger] modes[a]
                != #[trigger] modes[b] by {
                assert(shorter[a] == modes[a]);
                if b < shorter.len() {
                    assert(shorter[b] == modes[b]);
                }
            }
        }
    }
}

/// A list of capabilities that is not empty, in which every limit is positive
/// and no mode comes twice.
pub open spec fn is_clean(capabilities: Seq<Av1HardwareCapability>) -> bool {
    &&& capabilities.len() > 0
    &&& forall|a: int|
        0 <= a < capabilities.len() ==> (#[trigger] capabilities[a]).maximum_width > 0
            && capabilities[a].maximum_height > 0 && capabilities[a].maximum_frames_per_second > 0
    &&& forall|a: int, b: int|
        0 <= a < b < capabilities.len() ==> (#[trigger] capabilities[a]).mode
            != (#[trigger] capabilities[b]).mode
}

/// Which error negotiation gives, in the order in which it looks: an empty
/// list, a capability without a limit or a mode that comes twice, first the
/// encoder's and then the decoder's, and then what is wrong with the settings.
pub proof fn law_negotiation_names_what_is_wrong(
    encoder: Seq<Av1HardwareCapability>,
    decoder: Seq<Av1HardwareCapability>,
    settings: Av1ViewerSettings,
)
    ensures
        ({
            let result = negotiated(encoder, decoder, settings);
            let encoder_is_clean = is_clean(encoder);
            let decoder_is_clean = is_clean(decoder);
            let bitrate = settings.maximum_bitrate_bits_per_second;
            &&& !encoder_is_clean <==> (result matches Err(error) && (
            error is EmptyEncoderCapabilities || error is InvalidEncoderCapability
                || error is DuplicateEncoderCapability))
            &&& encoder.len() == 0 <==> (result matches Err(error)
                && error is EmptyEncoderCapabilities)
            &&& encoder_is_clean && !decoder_is_clean <==> (result matches Err(error) && (
            error is EmptyDecoderCapabilities || error is InvalidDecoderCapability
                || error is DuplicateDecoderCapability))
            &&& encoder_is_clean && decoder.len() == 0 <==> (result matches Err(error)
                && error is EmptyDecoderCapabilities)
            &&& encoder_is_clean && decoder_is_clean ==> {
                &&& settings.width == 0 <==> (result matches Err(error) && error is ZeroWidth)
                &&& settings.width > 0 && settings.height == 0 <==> (result matches Err(error)
                    && error is ZeroHeight)
                &&& settings.width > 0 && settings.height > 0 && settings.frames_per_second == 0
                    <==> (result matches Err(error) && error is ZeroFramesPerSecond)
                &&& settings.width > 0 && settings.height > 0 && settings.frames_per_second > 0 ==> {
                    &&& bitrate == 0 <==> (result matches Err(error)
                        && error is ZeroMaximumBitrate)
                    &&& bitrate > 100_000_000 <==> (result matches Err(error)
                        && error is MaximumBitrateTooHigh)
                    &&& 0 < bitrate <= 100_000_000 && settings.mode_preferences@.len() == 0 <==> (
                    result matches Err(error) && error is EmptyModePreferences)
                    &&& (result matches Err(error) && error is DuplicateModePreference) <==> 0
                        < bitrate <= 100_000_000 && (exists|a: int, b: int|
                        0 <= a < b < settings.mode_preferences@.len()
                            && #[trigger] settings.mode_preferences@[a]
                            == #[trigger] settings.mode_preferences@[b])
                }
            }
        }),
{
    lemma_clean_list(encoder);
    lemma_clean_list(decoder);
    lemma_clean_preferences(settings.mode_preferences@);
}

/// An entry that is named as wrong is in its list: one without a limit, or one
/// whose mode another entry has too.
pub proof fn law_named_entries_are_wrong(capabilities: Seq<Av1HardwareCapability>)
    ensures
        list_trouble(capabilities) matches Some(CapabilityTrouble::ZeroLimit(mode)) ==> exists|
            i: int,
        |
            0 <= i < capabilities.len() && (#[trigger] capabilities[i]).mode == mode && (
            capabilities[i].maximum_width == 0 || capabilities[i].maximum_height == 0
                || capabilities[i].maximum_frames_per_second == 0),
        list_trouble(capabilities) matches Some(CapabilityTrouble::Duplicate(mode)) ==> exists|
            i: int,
            j: int,
        |
            0 <= i < j < capabilities.len() && (#[trigger] capabilities[i]).mode == mode && (
            #[trigger] capabilities[j]).mode == mode,
    decreases capabilities.len(),
{
    if capabilities.len() > 0 {
        let shorter = capabilities.drop_last();
        law_named_entries_are_wrong(shorter);
        match list_trouble(shorter) {
            Some(CapabilityTrouble::ZeroLimit(mode)) => {
                let i = choose|i: int|
                    0 <= i < shorter.len() && (#[trigger] shorter[i]).mode == mode && (
                    shorter[i].maximum_width == 0 || shorter[i].maximum_height == 0
                        || shorter[i].maximum_frames_per_second == 0);
                assert(capabilities[i] == shorter[i]);
            },
            Some(CapabilityTrouble::Duplicate(mode)) => {
                let (i, j) = choose|i: int, j: int|
                    0 <= i < j < shorter.len() && (#[trigger] shorter[i]).mode == mode && (
                    #[trigger] shorter[j]).mode == mode;
                assert(capabilities[i] == shorter[i] && capabilities[j] == shorter[j]);
            },
            _ => {
                let last = capabilities.len() - 1;
                assert(capabilities[last] == capabilities.last());
            },
        }
    }
}

} // verus!
