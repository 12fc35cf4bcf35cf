//! What is told of the errors of the wire protocol.

use crate::protocol::av1::{Av1Mode, Av1NegotiationError, ChromaSubsampling, VideoBitDepth};
use crate::protocol::display::DisplayError;
use crate::protocol::features::{
    FeatureNegotiationError, InvalidFeatureVersionRange, ProtocolVersionMismatch,
};
use crate::protocol::wire::fault::{DecodeError, DecodeErrorModel, DecodeFault};
use crate::protocol::wire::{ReliableFrameError, RELIABLE_FRAME_PREFIX_SIZE};
use crate::text;
use crate::text::decimal_text;
use vstd::prelude::*;
use vstd::string::StringExecFns;

verus! {

impl ProtocolVersionMismatch {
    /// What is told of it.
    pub open spec fn spec_message(self) -> Seq<char> {
        "protocol major mismatch: local "@
            + text::decimal(self.local.major as nat)
            + "."@
            + text::decimal(self.local.minor as nat)
            + ", peer "@
            + text::decimal(self.peer.major as nat)
            + "."@
            + text::decimal(self.peer.minor as nat)
    }

    pub fn message(&self) -> (message: String)
        ensures
            message@ == self.spec_message(),
    {
        let mut message: String = "protocol major mismatch: local ".to_owned();
        message.append(decimal_text(self.local.major as u64).as_str());
        message.append(".");
        message.append(decimal_text(self.local.minor as u64).as_str());
        message.append(", peer ");
        message.append(decimal_text(self.peer.major as u64).as_str());
        message.append(".");
        message.append(decimal_text(self.peer.minor as u64).as_str());
        message
    }
}

impl InvalidFeatureVersionRange {
    /// What is told of it.
    pub open spec fn spec_message(self) -> Seq<char> {
        "invalid feature version range: "@
            + text::decimal(self.oldest as nat)
            + " is newer than "@
            + text::decimal(self.newest as nat)
    }

    pub fn message(&self) -> (message: String)
        ensures
            message@ == self.spec_message(),
    {
        let mut message: String = "invalid feature version range: ".to_owned();
        message.append(decimal_text(self.oldest as u64).as_str());
        message.append(" is newer than ");
        message.append(decimal_text(self.newest as u64).as_str());
        message
    }
}

impl FeatureNegotiationError {
    /// What is told of it.
    pub open spec fn spec_message(self) -> Seq<char> {
        match self {
            FeatureNegotiationError::DuplicateLocalFeature(id) => {
                "duplicate local feature: "@
                    + text::decimal(id.number() as nat)
            },
            FeatureNegotiationError::DuplicatePeerFeature(id) => {
                "duplicate peer feature: "@
                    + text::decimal(id.number() as nat)
            },
            FeatureNegotiationError::MissingRequiredLocalFeature(id) => {
                "peer is missing required local feature: "@
                    + text::decimal(id.number() as nat)
            },
            FeatureNegotiationError::MissingRequiredPeerFeature(id) => {
                "local is missing required peer feature: "@
                    + text::decimal(id.number() as nat)
            },
            FeatureNegotiationError::IncompatibleRequiredFeature(id) => {
                "required feature has no common version: "@
                    + text::decimal(id.number() as nat)
            },
        }
    }

    pub fn message(&self) -> (message: String)
        ensures
            message@ == self.spec_message(),
    {
        match self {
            FeatureNegotiationError::DuplicateLocalFeature(id) => {
                let mut message: String = "duplicate local feature: ".to_owned();
                message.append(decimal_text(id.get() as u64).as_str());
                message
            },
            FeatureNegotiationError::DuplicatePeerFeature(id) => {
                let mut message: String = "duplicate peer feature: ".to_owned();
                message.append(decimal_text(id.get() as u64).as_str());
                message
            },
            FeatureNegotiationError::MissingRequiredLocalFeature(id) => {
                let mut message: String = "peer is missing required local feature: ".to_owned();
                message.append(decimal_text(id.get() as u64).as_str());
                message
            },
            FeatureNegotiationError::MissingRequiredPeerFeature(id) => {
                let mut message: String = "local is missing required peer feature: ".to_owned();
                message.append(decimal_text(id.get() as u64).as_str());
                message
            },
            FeatureNegotiationError::IncompatibleRequiredFeature(id) => {
                let mut message: String = "required feature has no common version: ".to_owned();
                message.append(decimal_text(id.get() as u64).as_str());
                message
            },
        }
    }
}

impl ChromaSubsampling {
    /// Its name.
    pub open spec fn spec_name(self) -> Seq<char> {
        match self {
            ChromaSubsampling::Yuv420 => "Yuv420"@,
            ChromaSubsampling::Yuv422 => "Yuv422"@,
            ChromaSubsampling::Yuv444 => "Yuv444"@,
        }
    }

    pub fn name(&self) -> (name: String)
        ensures
            name@ == self.spec_name(),
    {
        match self {
            ChromaSubsampling::Yuv420 => "Yuv420".to_owned(),
            ChromaSubsampling::Yuv422 => "Yuv422".to_owned(),
            ChromaSubsampling::Yuv444 => "Yuv444".to_owned(),
        }
    }
}

impl VideoBitDepth {
    /// Its name.
    pub open spec fn spec_name(self) -> Seq<char> {
        match self {
            VideoBitDepth::Eight => "Eight"@,
            VideoBitDepth::Ten => "Ten"@,
        }
    }

    pub fn name(&self) -> (name: String)
        ensures
            name@ == self.spec_name(),
    {
        match self {
            VideoBitDepth::Eight => "Eight".to_owned(),
            VideoBitDepth::Ten => "Ten".to_owned(),
        }
    }
}

impl Av1Mode {
    /// Its fields by name.
    pub open spec fn spec_message(self) -> Seq<char> {
        "Av1Mode { chroma_subsampling: "@ + self.chroma_subsampling.spec_name() + ", bit_depth: "@
            + self.bit_depth.spec_name() + " }"@
    }

    pub fn message(&self) -> (message: String)
        ensures
            message@ == self.spec_message(),
    {
        let mut message: String = "Av1Mode { chroma_subsampling: ".to_owned();
        message.append(self.chroma_subsampling.name().as_str());
        message.append(", bit_depth: ");
        message.append(self.bit_depth.name().as_str());
        message.append(" }");
        message
    }
}

impl Av1NegotiationError {
    /// What is told of it.
    pub open spec fn spec_message(self) -> Seq<char> {
        match self {
            Av1NegotiationError::EmptyEncoderCapabilities => "empty AV1 encoder capabilities"@,
            Av1NegotiationError::EmptyDecoderCapabilities => "empty AV1 decoder capabilities"@,
            Av1NegotiationError::EmptyModePreferences => "empty AV1 mode preferences"@,
            Av1NegotiationError::ZeroWidth => "AV1 stream width is zero"@,
            Av1NegotiationError::ZeroHeight => "AV1 stream height is zero"@,
            Av1NegotiationError::ZeroFramesPerSecond => "AV1 stream frame rate is zero"@,
            Av1NegotiationError::ZeroMaximumBitrate => "AV1 maximum bitrate is zero"@,
            Av1NegotiationError::MaximumBitrateTooHigh => "AV1 maximum bitrate exceeds 100 Mbit/s"@,
            Av1NegotiationError::InvalidEncoderCapability(mode) => {
                "AV1 encoder capability has a zero limit: "@
                    + mode.spec_message()
            },
            Av1NegotiationError::InvalidDecoderCapability(mode) => {
                "AV1 decoder capability has a zero limit: "@
                    + mode.spec_message()
            },
            Av1NegotiationError::DuplicateEncoderCapability(mode) => {
                "duplicate AV1 encoder capability: "@
                    + mode.spec_message()
            },
            Av1NegotiationError::DuplicateDecoderCapability(mode) => {
                "duplicate AV1 decoder capability: "@
                    + mode.spec_message()
            },
            Av1NegotiationError::DuplicateModePreference(mode) => {
                "duplicate AV1 mode preference: "@
                    + mode.spec_message()
            },
            Av1NegotiationError::NoCompatibleHardwareMode => "no compatible hardware AV1 mode"@,
        }
    }

    pub fn message(&self) -> (message: String)
        ensures
            message@ == self.spec_message(),
    {
        match self {
            Av1NegotiationError::EmptyEncoderCapabilities => {
                "empty AV1 encoder capabilities".to_owned()
            },
            Av1NegotiationError::EmptyDecoderCapabilities => {
                "empty AV1 decoder capabilities".to_owned()
            },
            Av1NegotiationError::EmptyModePreferences => "empty AV1 mode preferences".to_owned(),
            Av1NegotiationError::ZeroWidth => "AV1 stream width is zero".to_owned(),
            Av1NegotiationError::ZeroHeight => "AV1 stream height is zero".to_owned(),
            Av1NegotiationError::ZeroFramesPerSecond => "AV1 stream frame rate is zero".to_owned(),
            Av1NegotiationError::ZeroMaximumBitrate => "AV1 maximum bitrate is zero".to_owned(),
            Av1NegotiationError::MaximumBitrateTooHigh => {
                "AV1 maximum bitrate exceeds 100 Mbit/s".to_owned()
            },
            Av1NegotiationError::InvalidEncoderCapability(mode) => {
                let mut message: String = "AV1 encoder capability has a zero limit: ".to_owned();
                message.append(mode.message().as_str());
                message
            },
            Av1NegotiationError::InvalidDecoderCapability(mode) => {
                let mut message: String = "AV1 decoder capability has a zero limit: ".to_owned();
                message.append(mode.message().as_str());
                message
            },
            Av1NegotiationError::DuplicateEncoderCapability(mode) => {
                let mut message: String = "duplicate AV1 encoder capability: ".to_owned();
                message.append(mode.message().as_str());
                message
            },
            Av1NegotiationError::DuplicateDecoderCapability(mode) => {
                let mut message: String = "duplicate AV1 decoder capability: ".to_owned();
                message.append(mode.message().as_str());
                message
            },
            Av1NegotiationError::DuplicateModePreference(mode) => {
                let mut message: String = "duplicate AV1 mode preference: ".to_owned();
                message.append(mode.message().as_str());
                message
            },
            Av1NegotiationError::NoCompatibleHardwareMode => {
                "no compatible hardware AV1 mode".to_owned()
            },
        }
    }
}

impl DisplayError {
    /// What is told of it.
    pub open spec fn spec_message(self) -> Seq<char> {
        match self {
            DisplayError::InvalidIdentity => "invalid display identity"@,
            DisplayError::TooManyDevices => "display inventory exceeds its device bound"@,
            DisplayError::DuplicateIdentity => "duplicate device identity"@,
            DisplayError::MissingAdapter => "display references an unavailable adapter"@,
            DisplayError::InvalidDimensions => "display dimensions are zero"@,
            DisplayError::Unavailable => "selected display is unavailable"@,
            DisplayError::Ambiguous => "display selection is ambiguous"@,
        }
    }

    pub fn message(&self) -> (message: String)
        ensures
            message@ == self.spec_message(),
    {
        match self {
            DisplayError::InvalidIdentity => "invalid display identity".to_owned(),
            DisplayError::TooManyDevices => "display inventory exceeds its device bound".to_owned(),
            DisplayError::DuplicateIdentity => "duplicate device identity".to_owned(),
            DisplayError::MissingAdapter => "display references an unavailable adapter".to_owned(),
            DisplayError::InvalidDimensions => "display dimensions are zero".to_owned(),
            DisplayError::Unavailable => "selected display is unavailable".to_owned(),
            DisplayError::Ambiguous => "display selection is ambiguous".to_owned(),
        }
    }
}

/// The name of a wire type.
pub open spec fn spec_wire_type_name(wire_type: u32) -> Seq<char> {
    if wire_type == 0 {
        "Varint"@
    } else if wire_type == 1 {
        "SixtyFourBit"@
    } else if wire_type == 2 {
        "LengthDelimited"@
    } else if wire_type == 3 {
        "StartGroup"@
    } else if wire_type == 4 {
        "EndGroup"@
    } else {
        "ThirtyTwoBit"@
    }
}

fn wire_type_name(wire_type: u32) -> (name: &'static str)
    ensures
        name@ == spec_wire_type_name(wire_type),
{
    match wire_type {
        0 => "Varint",
        1 => "SixtyFourBit",
        2 => "LengthDelimited",
        3 => "StartGroup",
        4 => "EndGroup",
        _ => "ThirtyTwoBit",
    }
}

impl DecodeFault {
    /// What is told of it.
    pub open spec fn spec_message(self) -> Seq<char> {
        match self {
            DecodeFault::InvalidVarint => "invalid varint"@,
            DecodeFault::RecursionLimitReached => "recursion limit reached"@,
            DecodeFault::InvalidWireType { value } => {
                "invalid wire type value: "@ + text::decimal(value as nat)
            },
            DecodeFault::InvalidKey { key } => "invalid key value: "@ + text::decimal(key as nat),
            DecodeFault::InvalidTag => "invalid tag value: 0"@,
            DecodeFault::UnexpectedWireType { actual, expected } => {
                "invalid wire type: "@
                    + spec_wire_type_name(actual)
                    + " (expected "@
                    + spec_wire_type_name(expected)
                    + ")"@
            },
            DecodeFault::BufferUnderflow => "buffer underflow"@,
            DecodeFault::DelimitedLengthExceeded => "delimited length exceeded"@,
            DecodeFault::UnexpectedEndGroupTag => "unexpected end group tag"@,
            DecodeFault::InvalidString => "invalid string value: data is not UTF-8 encoded"@,
        }
    }

    pub fn message(&self) -> (message: String)
        ensures
            message@ == self.spec_message(),
    {
        match self {
            DecodeFault::InvalidVarint => "invalid varint".to_owned(),
            DecodeFault::RecursionLimitReached => "recursion limit reached".to_owned(),
            DecodeFault::InvalidWireType { value } => {
                let mut message: String = "invalid wire type value: ".to_owned();
                message.append(decimal_text(*value).as_str());
                message
            },
            DecodeFault::InvalidKey { key } => {
                let mut message: String = "invalid key value: ".to_owned();
                message.append(decimal_text(*key).as_str());
                message
            },
            DecodeFault::InvalidTag => "invalid tag value: 0".to_owned(),
            DecodeFault::UnexpectedWireType { actual, expected } => {
                let mut message: String = "invalid wire type: ".to_owned();
                message.append(wire_type_name(*actual));
                message.append(" (expected ");
                message.append(wire_type_name(*expected));
                message.append(")");
                message
            },
            DecodeFault::BufferUnderflow => "buffer underflow".to_owned(),
            DecodeFault::DelimitedLengthExceeded => "delimited length exceeded".to_owned(),
            DecodeFault::UnexpectedEndGroupTag => "unexpected end group tag".to_owned(),
            DecodeFault::InvalidString => {
                "invalid string value: data is not UTF-8 encoded".to_owned()
            },
        }
    }
}

/// The fields that something stands in, each with its message.
pub open spec fn path_message(path: Seq<(Seq<char>, Seq<char>)>) -> Seq<char>
    decreases path.len(),
{
    if path.len() == 0 {
        Seq::empty()
    } else {
        path_message(path.drop_last()) + path.last().0 + "."@ + path.last().1 + ": "@
    }
}

impl DecodeErrorModel {
    /// What is told of it.
    pub open spec fn spec_message(self) -> Seq<char> {
        "failed to decode Protobuf message: "@ + path_message(self.path)
            + self.fault.spec_message()
    }
}

impl DecodeError {
    pub fn message(&self) -> (message: String)
        ensures
            message@ == self@.spec_message(),
    {
        let start = "failed to decode Protobuf message: ";
        let mut message: String = start.to_owned();
        let mut index: usize = 0;
        assert(message@ =~= start@ + path_message(self@.path.take(0)));
        while index < self.path.len()
            invariant
                index <= self.path@.len(),
                self@.path.len() == self.path@.len(),
                message@ == start@ + path_message(self@.path.take(index as int)),
            decreases self.path@.len() - index,
        {
            let ghost before = self@.path.take(index as int);
            let ghost after = self@.path.take(index + 1);
            let place = self.path[index];
            message.append(place.message);
            message.append(".");
            message.append(place.field);
            message.append(": ");
            assert(after.drop_last() =~= before);
            assert(after.last() == place@);
            assert(message@ =~= start@ + path_message(after));
            index = index + 1;
        }
        assert(self@.path.take(index as int) =~= self@.path);
        message.append(self.fault.message().as_str());
        message
    }
}

impl ReliableFrameError {
    /// What is told of it.
    pub open spec fn spec_message(self) -> Seq<char> {
        match self {
            ReliableFrameError::PayloadTooLarge { size, maximum } => {
                "reliable payload is "@
                    + text::decimal(size as nat)
                    + " bytes; maximum is "@
                    + text::decimal(maximum as nat)
            },
            ReliableFrameError::TruncatedPrefix { size } => {
                "reliable frame has "@
                    + text::decimal(size as nat)
                    + " prefix bytes; expected "@
                    + text::decimal(RELIABLE_FRAME_PREFIX_SIZE as nat)
            },
            ReliableFrameError::LengthMismatch { declared, actual } => {
                "reliable frame declares "@
                    + text::decimal(declared as nat)
                    + " payload bytes but contains "@
                    + text::decimal(actual as nat)
            },
            ReliableFrameError::Decode(error) => {
                "failed to decode reliable payload: "@ + error@.spec_message()
            },
        }
    }

    pub fn message(&self) -> (message: String)
        ensures
            message@ == self.spec_message(),
    {
        match self {
            ReliableFrameError::PayloadTooLarge { size, maximum } => {
                let mut message: String = "reliable payload is ".to_owned();
                message.append(decimal_text(*size as u64).as_str());
                message.append(" bytes; maximum is ");
                message.append(decimal_text(*maximum as u64).as_str());
                message
            },
            ReliableFrameError::TruncatedPrefix { size } => {
                let mut message: String = "reliable frame has ".to_owned();
                message.append(decimal_text(*size as u64).as_str());
                message.append(" prefix bytes; expected ");
                message.append(decimal_text(RELIABLE_FRAME_PREFIX_SIZE as u64).as_str());
                message
            },
            ReliableFrameError::LengthMismatch { declared, actual } => {
                let mut message: String = "reliable frame declares ".to_owned();
                message.append(decimal_text(*declared as u64).as_str());
                message.append(" payload bytes but contains ");
                message.append(decimal_text(*actual as u64).as_str());
                message
            },
            ReliableFrameError::Decode(error) => {
                let mut message: String = "failed to decode reliable payload: ".to_owned();
                message.append(error.message().as_str());
                message
            },
        }
    }
}

} // verus!
