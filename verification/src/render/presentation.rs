//! What is told of a frame that goes to the screen.

use crate::time::{Duration, Instant};
use vstd::prelude::*;

verus! {

#[derive(Clone, Copy, Debug, PartialEq, Eq, Structural)]
pub enum DecodedVideoColor {
    Bt709Limited,
    Bt2020PqLimited,
}

#[derive(Clone, Copy, Debug, PartialEq, Eq, Structural)]
pub struct PresentationDiagnostics {
    pub pre_import: Duration,
    pub native_frame_import: Duration,
    pub command_preparation: Duration,
    pub queue_submission: Duration,
    pub presentation_queueing: Duration,
}

#[derive(Clone, Copy, Debug, PartialEq, Eq)]
pub struct PresentationSubmission {
    pub id: u64,
    pub queued_at: Instant,
    pub feedback_available: bool,
    pub diagnostics: Option<PresentationDiagnostics>,
}

#[derive(Clone, Copy, Debug, PartialEq, Eq, Structural)]
pub struct PresentationFeedback {
    pub id: u64,
    pub presented_at: Instant,
}

/// How a shader turns the samples of a frame into colours.
#[derive(Clone, Copy, Debug, PartialEq, Eq, Structural)]
pub enum VideoColorMode {
    Bt709LimitedToSrgb,
    Bt2020PqLimitedToHdr10,
    Bt2020PqLimitedToSrgbBt2390,
}

impl Default for VideoColorMode {
    fn default() -> (mode: Self)
        ensures
            mode == VideoColorMode::Bt709LimitedToSrgb,
    {
        VideoColorMode::Bt709LimitedToSrgb
    }
}

impl VideoColorMode {
    pub open spec fn spec_number(self) -> u32 {
        match self {
            VideoColorMode::Bt709LimitedToSrgb => 0,
            VideoColorMode::Bt2020PqLimitedToHdr10 => 1,
            VideoColorMode::Bt2020PqLimitedToSrgbBt2390 => 2,
        }
    }

    /// The number by which the shader knows the mode.
    pub fn number(self) -> (number: u32)
        ensures
            number == self.spec_number(),
    {
        match self {
            VideoColorMode::Bt709LimitedToSrgb => 0,
            VideoColorMode::Bt2020PqLimitedToHdr10 => 1,
            VideoColorMode::Bt2020PqLimitedToSrgbBt2390 => 2,
        }
    }
}

/// The numbers of the colour modes, by which the shader tells them apart.
pub proof fn law_numbers_of_colour_modes(first: VideoColorMode, second: VideoColorMode)
    ensures
        first is Bt709LimitedToSrgb <==> first.spec_number() == 0,
        first is Bt2020PqLimitedToHdr10 <==> first.spec_number() == 1,
        first is Bt2020PqLimitedToSrgbBt2390 <==> first.spec_number() == 2,
        first.spec_number() == second.spec_number() ==> first == second,
{
}

} // verus!
