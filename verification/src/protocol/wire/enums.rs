//! Enumerations and the numbers that stand for them on the wire.

use vstd::prelude::*;

verus! {

/// A number that stands for no variant.
#[derive(Clone, Copy, Debug, PartialEq, Eq, Structural)]
pub struct UnknownEnumValue(pub i32);

/// How pointer input is understood.
#[derive(Clone, Copy, Debug, PartialEq, Eq, Structural)]
pub enum PointerMode {
    Unspecified,
    Absolute,
    Relative,
}

impl PointerMode {
    pub open spec fn spec_number(self) -> i32 {
        match self {
            PointerMode::Unspecified => 0,
            PointerMode::Absolute => 1,
            PointerMode::Relative => 2,
        }
    }

    /// Whether a variant has the number.
    pub open spec fn is_number(number: i32) -> bool {
        0 <= number <= 2
    }

    /// The number of the variant.
    pub fn number(self) -> (number: i32)
        ensures
            number == self.spec_number(),
    {
        match self {
            PointerMode::Unspecified => 0,
            PointerMode::Absolute => 1,
            PointerMode::Relative => 2,
        }
    }

    /// The variant that `number` stands for.
    pub fn try_from(number: i32) -> (result: Result<PointerMode, UnknownEnumValue>)
        ensures
            match result {
                Ok(variant) => variant.spec_number() == number,
                Err(error) => error == UnknownEnumValue(number) && !PointerMode::is_number(number),
            },
            result is Ok <==> PointerMode::is_number(number),
    {
        match number {
            0 => Ok(PointerMode::Unspecified),
            1 => Ok(PointerMode::Absolute),
            2 => Ok(PointerMode::Relative),
            _ => Err(UnknownEnumValue(number)),
        }
    }
}

/// The operating system of a host.
#[derive(Clone, Copy, Debug, PartialEq, Eq, Structural)]
pub enum HostOperatingSystem {
    Unknown,
    Windows,
}

impl HostOperatingSystem {
    pub open spec fn spec_number(self) -> i32 {
        match self {
            HostOperatingSystem::Unknown => 0,
            HostOperatingSystem::Windows => 1,
        }
    }

    /// Whether a variant has the number.
    pub open spec fn is_number(number: i32) -> bool {
        0 <= number <= 1
    }

    /// The number of the variant.
    pub fn number(self) -> (number: i32)
        ensures
            number == self.spec_number(),
    {
        match self {
            HostOperatingSystem::Unknown => 0,
            HostOperatingSystem::Windows => 1,
        }
    }

    /// The variant that `number` stands for.
    pub fn try_from(number: i32) -> (result: Result<HostOperatingSystem, UnknownEnumValue>)
        ensures
            match result {
                Ok(variant) => variant.spec_number() == number,
                Err(error) => {
                    error == UnknownEnumValue(number)
                        && !HostOperatingSystem::is_number(number)
                },
            },
            result is Ok <==> HostOperatingSystem::is_number(number),
    {
        match number {
            0 => Ok(HostOperatingSystem::Unknown),
            1 => Ok(HostOperatingSystem::Windows),
            _ => Err(UnknownEnumValue(number)),
        }
    }
}

/// What the host's firewall lets in.
#[derive(Clone, Copy, Debug, PartialEq, Eq, Structural)]
pub enum HostFirewallStatus {
    Unknown,
    Missing,
    PrivateLocalSubnet,
    AllProfilesLocalSubnet,
    AllAddresses,
    CheckFailed,
}

impl HostFirewallStatus {
    pub open spec fn spec_number(self) -> i32 {
        match self {
            HostFirewallStatus::Unknown => 0,
            HostFirewallStatus::Missing => 1,
            HostFirewallStatus::PrivateLocalSubnet => 2,
            HostFirewallStatus::AllProfilesLocalSubnet => 3,
            HostFirewallStatus::AllAddresses => 4,
            HostFirewallStatus::CheckFailed => 5,
        }
    }

    /// Whether a variant has the number.
    pub open spec fn is_number(number: i32) -> bool {
        0 <= number <= 5
    }

    /// The number of the variant.
    pub fn number(self) -> (number: i32)
        ensures
            number == self.spec_number(),
    {
        match self {
            HostFirewallStatus::Unknown => 0,
            HostFirewallStatus::Missing => 1,
            HostFirewallStatus::PrivateLocalSubnet => 2,
            HostFirewallStatus::AllProfilesLocalSubnet => 3,
            HostFirewallStatus::AllAddresses => 4,
            HostFirewallStatus::CheckFailed => 5,
        }
    }

    /// The variant that `number` stands for.
    pub fn try_from(number: i32) -> (result: Result<HostFirewallStatus, UnknownEnumValue>)
        ensures
            match result {
                Ok(variant) => variant.spec_number() == number,
                Err(error) => {
                    error == UnknownEnumValue(number)
                        && !HostFirewallStatus::is_number(number)
                },
            },
            result is Ok <==> HostFirewallStatus::is_number(number),
    {
        match number {
            0 => Ok(HostFirewallStatus::Unknown),
            1 => Ok(HostFirewallStatus::Missing),
            2 => Ok(HostFirewallStatus::PrivateLocalSubnet),
            3 => Ok(HostFirewallStatus::AllProfilesLocalSubnet),
            4 => Ok(HostFirewallStatus::AllAddresses),
            5 => Ok(HostFirewallStatus::CheckFailed),
            _ => Err(UnknownEnumValue(number)),
        }
    }
}

/// Whether a session can start.
#[derive(Clone, Copy, Debug, PartialEq, Eq, Structural)]
pub enum SessionAvailability {
    Unspecified,
    Available,
    Busy,
    DesktopSessionUnavailable,
}

impl SessionAvailability {
    pub open spec fn spec_number(self) -> i32 {
        match self {
            SessionAvailability::Unspecified => 0,
            SessionAvailability::Available => 1,
            SessionAvailability::Busy => 2,
            SessionAvailability::DesktopSessionUnavailable => 3,
        }
    }

    /// Whether a variant has the number.
    pub open spec fn is_number(number: i32) -> bool {
        0 <= number <= 3
    }

    /// The number of the variant.
    pub fn number(self) -> (number: i32)
        ensures
            number == self.spec_number(),
    {
        match self {
            SessionAvailability::Unspecified => 0,
            SessionAvailability::Available => 1,
            SessionAvailability::Busy => 2,
            SessionAvailability::DesktopSessionUnavailable => 3,
        }
    }

    /// The variant that `number` stands for.
    pub fn try_from(number: i32) -> (result: Result<SessionAvailability, UnknownEnumValue>)
        ensures
            match result {
                Ok(variant) => variant.spec_number() == number,
                Err(error) => {
                    error == UnknownEnumValue(number)
                        && !SessionAvailability::is_number(number)
                },
            },
            result is Ok <==> SessionAvailability::is_number(number),
    {
        match number {
            0 => Ok(SessionAvailability::Unspecified),
            1 => Ok(SessionAvailability::Available),
            2 => Ok(SessionAvailability::Busy),
            3 => Ok(SessionAvailability::DesktopSessionUnavailable),
            _ => Err(UnknownEnumValue(number)),
        }
    }
}

/// The state of the host's virtual audio cable.
#[derive(Clone, Copy, Debug, PartialEq, Eq, Structural)]
pub enum VbCableStatus {
    Unspecified,
    Ready,
    Unavailable,
    CheckFailed,
}

impl VbCableStatus {
    pub open spec fn spec_number(self) -> i32 {
        match self {
            VbCableStatus::Unspecified => 0,
            VbCableStatus::Ready => 1,
            VbCableStatus::Unavailable => 2,
            VbCableStatus::CheckFailed => 3,
        }
    }

    /// Whether a variant has the number.
    pub open spec fn is_number(number: i32) -> bool {
        0 <= number <= 3
    }

    /// The number of the variant.
    pub fn number(self) -> (number: i32)
        ensures
            number == self.spec_number(),
    {
        match self {
            VbCableStatus::Unspecified => 0,
            VbCableStatus::Ready => 1,
            VbCableStatus::Unavailable => 2,
            VbCableStatus::CheckFailed => 3,
        }
    }

    /// The variant that `number` stands for.
    pub fn try_from(number: i32) -> (result: Result<VbCableStatus, UnknownEnumValue>)
        ensures
            match result {
                Ok(variant) => variant.spec_number() == number,
                Err(error) => {
                    error == UnknownEnumValue(number)
                        && !VbCableStatus::is_number(number)
                },
            },
            result is Ok <==> VbCableStatus::is_number(number),
    {
        match number {
            0 => Ok(VbCableStatus::Unspecified),
            1 => Ok(VbCableStatus::Ready),
            2 => Ok(VbCableStatus::Unavailable),
            3 => Ok(VbCableStatus::CheckFailed),
            _ => Err(UnknownEnumValue(number)),
        }
    }
}

/// What the player asks of the video stream.
#[derive(Clone, Copy, Debug, PartialEq, Eq, Structural)]
pub enum VideoControlKind {
    Unspecified,
    RequestKeyframe,
    Stop,
}

impl VideoControlKind {
    pub open spec fn spec_number(self) -> i32 {
        match self {
            VideoControlKind::Unspecified => 0,
            VideoControlKind::RequestKeyframe => 1,
            VideoControlKind::Stop => 2,
        }
    }

    /// Whether a variant has the number.
    pub open spec fn is_number(number: i32) -> bool {
        0 <= number <= 2
    }

    /// The number of the variant.
    pub fn number(self) -> (number: i32)
        ensures
            number == self.spec_number(),
    {
        match self {
            VideoControlKind::Unspecified => 0,
            VideoControlKind::RequestKeyframe => 1,
            VideoControlKind::Stop => 2,
        }
    }

    /// The variant that `number` stands for.
    pub fn try_from(number: i32) -> (result: Result<VideoControlKind, UnknownEnumValue>)
        ensures
            match result {
                Ok(variant) => variant.spec_number() == number,
                Err(error) => {
                    error == UnknownEnumValue(number)
                        && !VideoControlKind::is_number(number)
                },
            },
            result is Ok <==> VideoControlKind::is_number(number),
    {
        match number {
            0 => Ok(VideoControlKind::Unspecified),
            1 => Ok(VideoControlKind::RequestKeyframe),
            2 => Ok(VideoControlKind::Stop),
            _ => Err(UnknownEnumValue(number)),
        }
    }
}

/// The state of the video stream.
#[derive(Clone, Copy, Debug, PartialEq, Eq, Structural)]
pub enum VideoStreamStatus {
    Unspecified,
    ReconfigurationRequired,
}

impl VideoStreamStatus {
    pub open spec fn spec_number(self) -> i32 {
        match self {
            VideoStreamStatus::Unspecified => 0,
            VideoStreamStatus::ReconfigurationRequired => 1,
        }
    }

    /// Whether a variant has the number.
    pub open spec fn is_number(number: i32) -> bool {
        0 <= number <= 1
    }

    /// The number of the variant.
    pub fn number(self) -> (number: i32)
        ensures
            number == self.spec_number(),
    {
        match self {
            VideoStreamStatus::Unspecified => 0,
            VideoStreamStatus::ReconfigurationRequired => 1,
        }
    }

    /// The variant that `number` stands for.
    pub fn try_from(number: i32) -> (result: Result<VideoStreamStatus, UnknownEnumValue>)
        ensures
            match result {
                Ok(variant) => variant.spec_number() == number,
                Err(error) => {
                    error == UnknownEnumValue(number)
                        && !VideoStreamStatus::is_number(number)
                },
            },
            result is Ok <==> VideoStreamStatus::is_number(number),
    {
        match number {
            0 => Ok(VideoStreamStatus::Unspecified),
            1 => Ok(VideoStreamStatus::ReconfigurationRequired),
            _ => Err(UnknownEnumValue(number)),
        }
    }
}

/// Why the video stream has to be set up anew.
#[derive(Clone, Copy, Debug, PartialEq, Eq, Structural)]
pub enum VideoReconfigurationCause {
    Unspecified,
    CaptureEngine,
    Dimensions,
    RefreshRate,
    PixelFormat,
    Color,
}

impl VideoReconfigurationCause {
    pub open spec fn spec_number(self) -> i32 {
        match self {
            VideoReconfigurationCause::Unspecified => 0,
            VideoReconfigurationCause::CaptureEngine => 1,
            VideoReconfigurationCause::Dimensions => 2,
            VideoReconfigurationCause::RefreshRate => 3,
            VideoReconfigurationCause::PixelFormat => 4,
            VideoReconfigurationCause::Color => 5,
        }
    }

    /// Whether a variant has the number.
    pub open spec fn is_number(number: i32) -> bool {
        0 <= number <= 5
    }

    /// The number of the variant.
    pub fn number(self) -> (number: i32)
        ensures
            number == self.spec_number(),
    {
        match self {
            VideoReconfigurationCause::Unspecified => 0,
            VideoReconfigurationCause::CaptureEngine => 1,
            VideoReconfigurationCause::Dimensions => 2,
            VideoReconfigurationCause::RefreshRate => 3,
            VideoReconfigurationCause::PixelFormat => 4,
            VideoReconfigurationCause::Color => 5,
        }
    }

    /// The variant that `number` stands for.
    pub fn try_from(number: i32) -> (result: Result<VideoReconfigurationCause, UnknownEnumValue>)
        ensures
            match result {
                Ok(variant) => variant.spec_number() == number,
                Err(error) => {
                    error == UnknownEnumValue(number)
                        && !VideoReconfigurationCause::is_number(number)
                },
            },
            result is Ok <==> VideoReconfigurationCause::is_number(number),
    {
        match number {
            0 => Ok(VideoReconfigurationCause::Unspecified),
            1 => Ok(VideoReconfigurationCause::CaptureEngine),
            2 => Ok(VideoReconfigurationCause::Dimensions),
            3 => Ok(VideoReconfigurationCause::RefreshRate),
            4 => Ok(VideoReconfigurationCause::PixelFormat),
            5 => Ok(VideoReconfigurationCause::Color),
            _ => Err(UnknownEnumValue(number)),
        }
    }
}

/// The state of the audio stream.
#[derive(Clone, Copy, Debug, PartialEq, Eq, Structural)]
pub enum AudioStatus {
    NotNegotiated,
    Waiting,
    Active,
    Unavailable,
    Failed,
    Stopped,
}

impl AudioStatus {
    pub open spec fn spec_number(self) -> i32 {
        match self {
            AudioStatus::NotNegotiated => 0,
            AudioStatus::Waiting => 1,
            AudioStatus::Active => 2,
            AudioStatus::Unavailable => 3,
            AudioStatus::Failed => 4,
            AudioStatus::Stopped => 5,
        }
    }

    /// Whether a variant has the number.
    pub open spec fn is_number(number: i32) -> bool {
        0 <= number <= 5
    }

    /// The number of the variant.
    pub fn number(self) -> (number: i32)
        ensures
            number == self.spec_number(),
    {
        match self {
            AudioStatus::NotNegotiated => 0,
            AudioStatus::Waiting => 1,
            AudioStatus::Active => 2,
            AudioStatus::Unavailable => 3,
            AudioStatus::Failed => 4,
            AudioStatus::Stopped => 5,
        }
    }

    /// The variant that `number` stands for.
    pub fn try_from(number: i32) -> (result: Result<AudioStatus, UnknownEnumValue>)
        ensures
            match result {
                Ok(variant) => variant.spec_number() == number,
                Err(error) => error == UnknownEnumValue(number) && !AudioStatus::is_number(number),
            },
            result is Ok <==> AudioStatus::is_number(number),
    {
        match number {
            0 => Ok(AudioStatus::NotNegotiated),
            1 => Ok(AudioStatus::Waiting),
            2 => Ok(AudioStatus::Active),
            3 => Ok(AudioStatus::Unavailable),
            4 => Ok(AudioStatus::Failed),
            5 => Ok(AudioStatus::Stopped),
            _ => Err(UnknownEnumValue(number)),
        }
    }
}

/// What the host asks of the player.
#[derive(Clone, Copy, Debug, PartialEq, Eq, Structural)]
pub enum HostSessionControlKind {
    Unspecified,
    ReleasePointerCapture,
}

impl HostSessionControlKind {
    pub open spec fn spec_number(self) -> i32 {
        match self {
            HostSessionControlKind::Unspecified => 0,
            HostSessionControlKind::ReleasePointerCapture => 1,
        }
    }

    /// Whether a variant has the number.
    pub open spec fn is_number(number: i32) -> bool {
        0 <= number <= 1
    }

    /// The number of the variant.
    pub fn number(self) -> (number: i32)
        ensures
            number == self.spec_number(),
    {
        match self {
            HostSessionControlKind::Unspecified => 0,
            HostSessionControlKind::ReleasePointerCapture => 1,
        }
    }

    /// The variant that `number` stands for.
    pub fn try_from(number: i32) -> (result: Result<HostSessionControlKind, UnknownEnumValue>)
        ensures
            match result {
                Ok(variant) => variant.spec_number() == number,
                Err(error) => {
                    error == UnknownEnumValue(number)
                        && !HostSessionControlKind::is_number(number)
                },
            },
            result is Ok <==> HostSessionControlKind::is_number(number),
    {
        match number {
            0 => Ok(HostSessionControlKind::Unspecified),
            1 => Ok(HostSessionControlKind::ReleasePointerCapture),
            _ => Err(UnknownEnumValue(number)),
        }
    }
}

/// How colour is sampled.
#[derive(Clone, Copy, Debug, PartialEq, Eq, Structural)]
pub enum ChromaSubsampling {
    Unspecified,
    Yuv420,
    Yuv422,
    Yuv444,
}

impl ChromaSubsampling {
    pub open spec fn spec_number(self) -> i32 {
        match self {
            ChromaSubsampling::Unspecified => 0,
            ChromaSubsampling::Yuv420 => 1,
            ChromaSubsampling::Yuv422 => 2,
            ChromaSubsampling::Yuv444 => 3,
        }
    }

    /// Whether a variant has the number.
    pub open spec fn is_number(number: i32) -> bool {
        0 <= number <= 3
    }

    /// The number of the variant.
    pub fn number(self) -> (number: i32)
        ensures
            number == self.spec_number(),
    {
        match self {
            ChromaSubsampling::Unspecified => 0,
            ChromaSubsampling::Yuv420 => 1,
            ChromaSubsampling::Yuv422 => 2,
            ChromaSubsampling::Yuv444 => 3,
        }
    }

    /// The variant that `number` stands for.
    pub fn try_from(number: i32) -> (result: Result<ChromaSubsampling, UnknownEnumValue>)
        ensures
            match result {
                Ok(variant) => variant.spec_number() == number,
                Err(error) => {
                    error == UnknownEnumValue(number)
                        && !ChromaSubsampling::is_number(number)
                },
            },
            result is Ok <==> ChromaSubsampling::is_number(number),
    {
        match number {
            0 => Ok(ChromaSubsampling::Unspecified),
            1 => Ok(ChromaSubsampling::Yuv420),
            2 => Ok(ChromaSubsampling::Yuv422),
            3 => Ok(ChromaSubsampling::Yuv444),
            _ => Err(UnknownEnumValue(number)),
        }
    }
}

/// Bits of a sample.
#[derive(Clone, Copy, Debug, PartialEq, Eq, Structural)]
pub enum VideoBitDepth {
    Unspecified,
    Eight,
    Ten,
}

impl VideoBitDepth {
    pub open spec fn spec_number(self) -> i32 {
        match self {
            VideoBitDepth::Unspecified => 0,
            VideoBitDepth::Eight => 1,
            VideoBitDepth::Ten => 2,
        }
    }

    /// Whether a variant has the number.
    pub open spec fn is_number(number: i32) -> bool {
        0 <= number <= 2
    }

    /// The number of the variant.
    pub fn number(self) -> (number: i32)
        ensures
            number == self.spec_number(),
    {
        match self {
            VideoBitDepth::Unspecified => 0,
            VideoBitDepth::Eight => 1,
            VideoBitDepth::Ten => 2,
        }
    }

    /// The variant that `number` stands for.
    pub fn try_from(number: i32) -> (result: Result<VideoBitDepth, UnknownEnumValue>)
        ensures
            match result {
                Ok(variant) => variant.spec_number() == number,
                Err(error) => {
                    error == UnknownEnumValue(number)
                        && !VideoBitDepth::is_number(number)
                },
            },
            result is Ok <==> VideoBitDepth::is_number(number),
    {
        match number {
            0 => Ok(VideoBitDepth::Unspecified),
            1 => Ok(VideoBitDepth::Eight),
            2 => Ok(VideoBitDepth::Ten),
            _ => Err(UnknownEnumValue(number)),
        }
    }
}

/// The numbers of the variants on the wire, and which numbers have one.
pub proof fn law_enumeration_numbers(number: i32)
    ensures
        PointerMode::Unspecified.spec_number() == 0,
        PointerMode::Absolute.spec_number() == 1,
        PointerMode::Relative.spec_number() == 2,
        PointerMode::is_number(number) <==> 0 <= number <= 2,
        HostOperatingSystem::Unknown.spec_number() == 0,
        HostOperatingSystem::Windows.spec_number() == 1,
        HostOperatingSystem::is_number(number) <==> 0 <= number <= 1,
        HostFirewallStatus::Unknown.spec_number() == 0,
        HostFirewallStatus::Missing.spec_number() == 1,
        HostFirewallStatus::PrivateLocalSubnet.spec_number() == 2,
        HostFirewallStatus::AllProfilesLocalSubnet.spec_number() == 3,
        HostFirewallStatus::AllAddresses.spec_number() == 4,
        HostFirewallStatus::CheckFailed.spec_number() == 5,
        HostFirewallStatus::is_number(number) <==> 0 <= number <= 5,
        SessionAvailability::Unspecified.spec_number() == 0,
        SessionAvailability::Available.spec_number() == 1,
        SessionAvailability::Busy.spec_number() == 2,
        SessionAvailability::DesktopSessionUnavailable.spec_number() == 3,
        SessionAvailability::is_number(number) <==> 0 <= number <= 3,
        VbCableStatus::Unspecified.spec_number() == 0,
        VbCableStatus::Ready.spec_number() == 1,
        VbCableStatus::Unavailable.spec_number() == 2,
        VbCableStatus::CheckFailed.spec_number() == 3,
        VbCableStatus::is_number(number) <==> 0 <= number <= 3,
        VideoControlKind::Unspecified.spec_number() == 0,
        VideoControlKind::RequestKeyframe.spec_number() == 1,
        VideoControlKind::Stop.spec_number() == 2,
        VideoControlKind::is_number(number) <==> 0 <= number <= 2,
        VideoStreamStatus::Unspecified.spec_number() == 0,
        VideoStreamStatus::ReconfigurationRequired.spec_number() == 1,
        VideoStreamStatus::is_number(number) <==> 0 <= number <= 1,
        VideoReconfigurationCause::Unspecified.spec_number() == 0,
        VideoReconfigurationCause::CaptureEngine.spec_number() == 1,
        VideoReconfigurationCause::Dimensions.spec_number() == 2,
        VideoReconfigurationCause::RefreshRate.spec_number() == 3,
        VideoReconfigurationCause::PixelFormat.spec_number() == 4,
        VideoReconfigurationCause::Color.spec_number() == 5,
        VideoReconfigurationCause::is_number(number) <==> 0 <= number <= 5,
        AudioStatus::NotNegotiated.spec_number() == 0,
        AudioStatus::Waiting.spec_number() == 1,
        AudioStatus::Active.spec_number() == 2,
        AudioStatus::Unavailable.spec_number() == 3,
        AudioStatus::Failed.spec_number() == 4,
        AudioStatus::Stopped.spec_number() == 5,
        AudioStatus::is_number(number) <==> 0 <= number <= 5,
        HostSessionControlKind::Unspecified.spec_number() == 0,
        HostSessionControlKind::ReleasePointerCapture.spec_number() == 1,
        HostSessionControlKind::is_number(number) <==> 0 <= number <= 1,
        ChromaSubsampling::Unspecified.spec_number() == 0,
        ChromaSubsampling::Yuv420.spec_number() == 1,
        ChromaSubsampling::Yuv422.spec_number() == 2,
        ChromaSubsampling::Yuv444.spec_number() == 3,
        ChromaSubsampling::is_number(number) <==> 0 <= number <= 3,
        VideoBitDepth::Unspecified.spec_number() == 0,
        VideoBitDepth::Eight.spec_number() == 1,
        VideoBitDepth::Ten.spec_number() == 2,
        VideoBitDepth::is_number(number) <==> 0 <= number <= 2,
{
}

} // verus!
