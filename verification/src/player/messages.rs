//! What is told of the errors of a viewer.

use crate::player::availability::AvailabilityFault;
use crate::player::frame_decoding::DecodedFrameFault;
use crate::player::host_key;
use crate::player::host_key::hex_text;
use crate::player::input_pipeline::InputError;
use crate::player::keyboard_leds::KeyboardLedError;
use crate::player::negotiation::NegotiationFault;
use crate::player::one_frame::TrialFault;
use crate::player::process_protocol::{MessageFault, ProcessProtocolError};
use crate::player::stream_control::StreamFault;
use crate::session::video_datagram::VideoDatagramError;
use crate::text;
use crate::text::{decimal_text, signed_text};
use vstd::prelude::*;
use vstd::string::StringExecFns;

verus! {

impl MessageFault {
    /// What is told of it.
    pub open spec fn spec_message(self) -> Seq<char> {
        match self {
            MessageFault::EmptyCommand => "empty player command"@,
            MessageFault::UnknownCommand => "unknown player command"@,
            MessageFault::StopHasTrailingData => "stop command contains trailing data"@,
            MessageFault::ReconnectHasTrailingData => "reconnect command contains trailing data"@,
            MessageFault::EmptyEvent => "empty player event"@,
            MessageFault::UnknownEvent => "unknown player event"@,
            MessageFault::InvalidEventPayload => "player event has an invalid payload"@,
            MessageFault::ErrorIsNotUtf8 => "player error is not UTF-8"@,
            MessageFault::UnsupportedVersion => "unsupported player process protocol version"@,
            MessageFault::AddressTooLong => "player address is too long"@,
            MessageFault::AddressIsNotUtf8 => "player address is not UTF-8"@,
            MessageFault::InvalidAddress => "player address is invalid"@,
            MessageFault::BitrateOutOfRange => "player maximum bitrate is outside 5-100 Mbit/s"@,
            MessageFault::InvalidRememberPassword => "remember-password flag is invalid"@,
            MessageFault::InvalidLatencyDiagnostics => "latency-diagnostics flag is invalid"@,
            MessageFault::LaunchHasTrailingData => "launch command contains trailing data"@,
            MessageFault::Truncated => "player process message is truncated"@,
        }
    }

    pub fn message(&self) -> (message: String)
        ensures
            message@ == self.spec_message(),
    {
        match self {
            MessageFault::EmptyCommand => "empty player command".to_owned(),
            MessageFault::UnknownCommand => "unknown player command".to_owned(),
            MessageFault::StopHasTrailingData => "stop command contains trailing data".to_owned(),
            MessageFault::ReconnectHasTrailingData => {
                "reconnect command contains trailing data".to_owned()
            },
            MessageFault::EmptyEvent => "empty player event".to_owned(),
            MessageFault::UnknownEvent => "unknown player event".to_owned(),
            MessageFault::InvalidEventPayload => "player event has an invalid payload".to_owned(),
            MessageFault::ErrorIsNotUtf8 => "player error is not UTF-8".to_owned(),
            MessageFault::UnsupportedVersion => {
                "unsupported player process protocol version".to_owned()
            },
            MessageFault::AddressTooLong => "player address is too long".to_owned(),
            MessageFault::AddressIsNotUtf8 => "player address is not UTF-8".to_owned(),
            MessageFault::InvalidAddress => "player address is invalid".to_owned(),
            MessageFault::BitrateOutOfRange => {
                "player maximum bitrate is outside 5-100 Mbit/s".to_owned()
            },
            MessageFault::InvalidRememberPassword => "remember-password flag is invalid".to_owned(),
            MessageFault::InvalidLatencyDiagnostics => {
                "latency-diagnostics flag is invalid".to_owned()
            },
            MessageFault::LaunchHasTrailingData => {
                "launch command contains trailing data".to_owned()
            },
            MessageFault::Truncated => "player process message is truncated".to_owned(),
        }
    }
}

impl ProcessProtocolError {
    /// What is told of it.
    pub open spec fn spec_message(self) -> Seq<char> {
        match self {
            ProcessProtocolError::UnexpectedEnd => {
                "player process pipe failed: failed to fill whole buffer"@
            },
            ProcessProtocolError::MessageTooLarge { size, maximum } => {
                "player process message is "@
                    + text::decimal(size as nat)
                    + " bytes; maximum is "@
                    + text::decimal(maximum as nat)
            },
            ProcessProtocolError::InvalidMessage(fault) => fault.spec_message(),
        }
    }

    pub fn message(&self) -> (message: String)
        ensures
            message@ == self.spec_message(),
    {
        match self {
            ProcessProtocolError::UnexpectedEnd => {
                "player process pipe failed: failed to fill whole buffer".to_owned()
            },
            ProcessProtocolError::MessageTooLarge { size, maximum } => {
                let mut message: String = "player process message is ".to_owned();
                message.append(decimal_text(*size as u64).as_str());
                message.append(" bytes; maximum is ");
                message.append(decimal_text(*maximum as u64).as_str());
                message
            },
            ProcessProtocolError::InvalidMessage(fault) => fault.message(),
        }
    }
}

impl KeyboardLedError {
    /// What is told of it.
    pub open spec fn spec_message(self) -> Seq<char> {
        match self {
            KeyboardLedError::MaskOutOfRange => "keyboard LED mask is out of range"@,
            KeyboardLedError::InvalidState => "invalid keyboard LED state"@,
            KeyboardLedError::StaleGeneration => "stale keyboard LED generation"@,
            KeyboardLedError::OutOfOrder => "out-of-order keyboard LED sequence"@,
        }
    }

    pub fn message(&self) -> (message: String)
        ensures
            message@ == self.spec_message(),
    {
        match self {
            KeyboardLedError::MaskOutOfRange => "keyboard LED mask is out of range".to_owned(),
            KeyboardLedError::InvalidState => "invalid keyboard LED state".to_owned(),
            KeyboardLedError::StaleGeneration => "stale keyboard LED generation".to_owned(),
            KeyboardLedError::OutOfOrder => "out-of-order keyboard LED sequence".to_owned(),
        }
    }
}

impl InputError {
    /// What is told of it.
    pub open spec fn spec_message(self) -> Seq<char> {
        match self {
            InputError::InputSequenceExhausted => "input sequence exhausted"@,
            InputError::RelativeXOverflow => "relative pointer x counter overflow"@,
            InputError::RelativeYOverflow => "relative pointer y counter overflow"@,
            InputError::PointerSequenceExhausted => "pointer sequence exhausted"@,
        }
    }

    pub fn message(&self) -> (message: String)
        ensures
            message@ == self.spec_message(),
    {
        match self {
            InputError::InputSequenceExhausted => "input sequence exhausted".to_owned(),
            InputError::RelativeXOverflow => "relative pointer x counter overflow".to_owned(),
            InputError::RelativeYOverflow => "relative pointer y counter overflow".to_owned(),
            InputError::PointerSequenceExhausted => "pointer sequence exhausted".to_owned(),
        }
    }
}

impl StreamFault {
    /// What is told of it.
    pub open spec fn spec_message(self) -> Seq<char> {
        match self {
            StreamFault::KeyboardLeds(error) => error.spec_message(),
            StreamFault::InvalidVideoStreamState => "invalid video stream state"@,
            StreamFault::UnnegotiatedSessionControl => "host sent an unnegotiated session control"@,
            StreamFault::InvalidSessionControl => "host sent an invalid session control"@,
            StreamFault::UnexpectedResponse => "unexpected streaming control response"@,
            StreamFault::ClockSequenceExhausted => "clock sequence exhausted"@,
        }
    }

    pub fn message(&self) -> (message: String)
        ensures
            message@ == self.spec_message(),
    {
        match self {
            StreamFault::KeyboardLeds(error) => error.message(),
            StreamFault::InvalidVideoStreamState => "invalid video stream state".to_owned(),
            StreamFault::UnnegotiatedSessionControl => {
                "host sent an unnegotiated session control".to_owned()
            },
            StreamFault::InvalidSessionControl => "host sent an invalid session control".to_owned(),
            StreamFault::UnexpectedResponse => "unexpected streaming control response".to_owned(),
            StreamFault::ClockSequenceExhausted => "clock sequence exhausted".to_owned(),
        }
    }
}

impl DecodedFrameFault {
    /// What is told of it.
    pub open spec fn spec_message(self) -> Seq<char> {
        match self {
            DecodedFrameFault::UnsupportedColorMetadata => {
                "decoded AV1 frame has unsupported color metadata"@
            },
            DecodedFrameFault::ColorContradictsDepth => {
                "decoded AV1 color metadata contradicts the negotiated bit depth"@
            },
        }
    }

    pub fn message(&self) -> (message: String)
        ensures
            message@ == self.spec_message(),
    {
        match self {
            DecodedFrameFault::UnsupportedColorMetadata => {
                "decoded AV1 frame has unsupported color metadata".to_owned()
            },
            DecodedFrameFault::ColorContradictsDepth => {
                "decoded AV1 color metadata contradicts the negotiated bit depth".to_owned()
            },
        }
    }
}

impl NegotiationFault {
    /// What is told of it.
    pub open spec fn spec_message(self) -> Seq<char> {
        match self {
            NegotiationFault::UnknownChroma(number) => {
                "unknown enumeration value "@
                    + text::signed(number as int)
            },
            NegotiationFault::UnspecifiedChroma => "unspecified AV1 chroma mode"@,
            NegotiationFault::UnknownBitDepth(number) => {
                "unknown enumeration value "@
                    + text::signed(number as int)
            },
            NegotiationFault::UnspecifiedBitDepth => "unspecified AV1 bit depth"@,
            NegotiationFault::FrameRateOutOfRange(_) => {
                "out of range integral type conversion attempted"@
            },
            NegotiationFault::InvalidOffer => "host sent an invalid AV1 capability offer"@,
            NegotiationFault::Configuration(error) => error.spec_message(),
            NegotiationFault::DifferentConfiguration => {
                "host selected a different AV1 configuration"@
            },
        }
    }

    pub fn message(&self) -> (message: String)
        ensures
            message@ == self.spec_message(),
    {
        match self {
            NegotiationFault::UnknownChroma(number) => {
                let mut message: String = "unknown enumeration value ".to_owned();
                message.append(signed_text(*number as i64).as_str());
                message
            },
            NegotiationFault::UnspecifiedChroma => "unspecified AV1 chroma mode".to_owned(),
            NegotiationFault::UnknownBitDepth(number) => {
                let mut message: String = "unknown enumeration value ".to_owned();
                message.append(signed_text(*number as i64).as_str());
                message
            },
            NegotiationFault::UnspecifiedBitDepth => "unspecified AV1 bit depth".to_owned(),
            NegotiationFault::FrameRateOutOfRange(_) => {
                "out of range integral type conversion attempted".to_owned()
            },
            NegotiationFault::InvalidOffer => {
                "host sent an invalid AV1 capability offer".to_owned()
            },
            NegotiationFault::Configuration(error) => error.message(),
            NegotiationFault::DifferentConfiguration => {
                "host selected a different AV1 configuration".to_owned()
            },
        }
    }
}

impl AvailabilityFault {
    /// What is told of it.
    pub open spec fn spec_message(self) -> Seq<char> {
        match self {
            AvailabilityFault::UnknownAvailability(number) => {
                "unknown enumeration value "@
                    + text::signed(number as int)
            },
            AvailabilityFault::UnspecifiedAvailability => {
                "host returned an unspecified session availability"@
            },
            AvailabilityFault::UnknownVbCableStatus => "host returned an unknown VB-CABLE status"@,
            AvailabilityFault::InvalidResponse => {
                "host returned an invalid session availability response"@
            },
        }
    }

    pub fn message(&self) -> (message: String)
        ensures
            message@ == self.spec_message(),
    {
        match self {
            AvailabilityFault::UnknownAvailability(number) => {
                let mut message: String = "unknown enumeration value ".to_owned();
                message.append(signed_text(*number as i64).as_str());
                message
            },
            AvailabilityFault::UnspecifiedAvailability => {
                "host returned an unspecified session availability".to_owned()
            },
            AvailabilityFault::UnknownVbCableStatus => {
                "host returned an unknown VB-CABLE status".to_owned()
            },
            AvailabilityFault::InvalidResponse => {
                "host returned an invalid session availability response".to_owned()
            },
        }
    }
}

impl TrialFault {
    /// What is told of it.
    pub open spec fn spec_message(self) -> Seq<char> {
        match self {
            TrialFault::UnsupportedMode => "host advertised an unsupported AV1 mode"@,
            TrialFault::FrameRateOutOfRange(_) => {
                "out of range integral type conversion attempted"@
            },
            TrialFault::InvalidOffer => "host sent an invalid AV1 capability offer"@,
            TrialFault::Configuration(error) => error.spec_message(),
            TrialFault::FrameTooLarge { size, maximum } => {
                "TCP frame declares "@
                    + text::decimal(size as nat)
                    + " bytes; maximum is "@
                    + text::decimal(maximum as nat)
            },
            TrialFault::NotAKeyframe => "host packet is not a non-empty AV1 keyframe"@,
            TrialFault::UnexpectedDimensions { .. } => {
                "decoded Windows frame has unexpected dimensions"@
            },
        }
    }

    pub fn message(&self) -> (message: String)
        ensures
            message@ == self.spec_message(),
    {
        match self {
            TrialFault::UnsupportedMode => "host advertised an unsupported AV1 mode".to_owned(),
            TrialFault::FrameRateOutOfRange(_) => {
                "out of range integral type conversion attempted".to_owned()
            },
            TrialFault::InvalidOffer => "host sent an invalid AV1 capability offer".to_owned(),
            TrialFault::Configuration(error) => error.message(),
            TrialFault::FrameTooLarge { size, maximum } => {
                let mut message: String = "TCP frame declares ".to_owned();
                message.append(decimal_text(*size as u64).as_str());
                message.append(" bytes; maximum is ");
                message.append(decimal_text(*maximum as u64).as_str());
                message
            },
            TrialFault::NotAKeyframe => "host packet is not a non-empty AV1 keyframe".to_owned(),
            TrialFault::UnexpectedDimensions { .. } => {
                "decoded Windows frame has unexpected dimensions".to_owned()
            },
        }
    }
}

/// Bytes as two digits each, with a comma between.
pub open spec fn byte_list(bytes: Seq<u8>) -> Seq<char>
    decreases bytes.len(),
{
    if bytes.len() == 0 {
        Seq::empty()
    } else if bytes.len() == 1 {
        host_key::hex(bytes)
    } else {
        byte_list(bytes.drop_last()) + ", "@ + host_key::hex(seq![bytes.last()])
    }
}

/// The first bytes of a datagram, four at most.
pub open spec fn prefix_of(datagram: Seq<u8>) -> Seq<u8> {
    if datagram.len() < 4 {
        datagram
    } else {
        datagram.take(4)
    }
}

/// What is told of a datagram that was refused: why, how long it is, and how it
/// begins.
pub open spec fn spec_datagram_message(
    error: VideoDatagramError,
    datagram: Seq<u8>,
) -> Seq<char> {
    error.spec_message() + ": length="@ + text::decimal(datagram.len()) + " prefix=["@
        + byte_list(prefix_of(datagram)) + "]"@
}

pub fn datagram_message(error: VideoDatagramError, datagram: &[u8]) -> (message: String)
    ensures
        message@ == spec_datagram_message(error, datagram@),
{
    let mut message: String = error.message();
    message.append(": length=");
    message.append(decimal_text(datagram.len() as u64).as_str());
    message.append(" prefix=[");
    let ghost head = message@;
    let count: usize = if datagram.len() < 4 {
        datagram.len()
    } else {
        4
    };
    let ghost prefix = prefix_of(datagram@);
    assert(prefix =~= datagram@.take(count as int));
    assert(head =~= head + byte_list(prefix.take(0)));
    for index in 0..count
        invariant
            count <= datagram@.len(),
            prefix == datagram@.take(count as int),
            message@ == head + byte_list(prefix.take(index as int)),
    {
        if index > 0 {
            message.append(", ");
        }
        message.append(hex_text(datagram[index]).as_str());
        proof {
            let next = prefix.take(index + 1);
            assert(next.drop_last() =~= prefix.take(index as int));
            assert(next.last() == datagram@[index as int]);
            if index == 0 {
                assert(next =~= seq![datagram@[0]]);
            }
            assert(message@ =~= head + byte_list(next));
        }
    }
    assert(prefix.take(count as int) =~= prefix);
    message.append("]");
    message
}

} // verus!
