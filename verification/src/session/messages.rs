//! What is told of the errors of a session.

use crate::session::authentication::AuthenticationError;
use crate::session::input_datagram::InputDatagramError;
use crate::session::lifecycle::{SessionPhase, SessionTransitionError};
use crate::session::quic::{
    ProtocolFault, QuicAuthenticationError, AUTHENTICATION_STREAM_LIMIT,
};
use crate::session::statistics::InvalidDistribution;
use crate::session::video_datagram::VideoDatagramError;
use crate::text;
use crate::text::{decimal_text, signed_text};
use vstd::prelude::*;
use vstd::string::StringExecFns;

verus! {

impl InvalidDistribution {
    /// What is told of it.
    pub open spec fn spec_message(self) -> Seq<char> {
        match self {
            InvalidDistribution::NoSamples => "a distribution requires at least one sample"@,
            InvalidDistribution::QuantilesOutOfOrder => {
                "distribution quantiles must be in ascending order"@
            },
        }
    }

    pub fn message(&self) -> (message: String)
        ensures
            message@ == self.spec_message(),
    {
        match self {
            InvalidDistribution::NoSamples => {
                "a distribution requires at least one sample".to_owned()
            },
            InvalidDistribution::QuantilesOutOfOrder => {
                "distribution quantiles must be in ascending order".to_owned()
            },
        }
    }
}

impl AuthenticationError {
    /// What is told of it.
    pub open spec fn spec_message(self) -> Seq<char> {
        match self {
            AuthenticationError::EmptyPassword => "password must not be empty"@,
            AuthenticationError::InvalidCredentialIdentifier => "credential identifier is invalid"@,
            AuthenticationError::InvalidHostIdentity => "host identity is invalid"@,
            AuthenticationError::InvalidMessage => "authentication message is invalid"@,
            AuthenticationError::InvalidRecord => "OPAQUE server record is invalid"@,
            AuthenticationError::UnsupportedRecordVersion(version) => {
                "OPAQUE server record version "@
                    + text::decimal(version as nat)
                    + " is unsupported"@
            },
            AuthenticationError::AuthenticationFailed => "authentication failed"@,
            AuthenticationError::OpaqueProtocol => "OPAQUE protocol operation failed"@,
        }
    }

    pub fn message(&self) -> (message: String)
        ensures
            message@ == self.spec_message(),
    {
        match self {
            AuthenticationError::EmptyPassword => "password must not be empty".to_owned(),
            AuthenticationError::InvalidCredentialIdentifier => {
                "credential identifier is invalid".to_owned()
            },
            AuthenticationError::InvalidHostIdentity => "host identity is invalid".to_owned(),
            AuthenticationError::InvalidMessage => "authentication message is invalid".to_owned(),
            AuthenticationError::InvalidRecord => "OPAQUE server record is invalid".to_owned(),
            AuthenticationError::UnsupportedRecordVersion(version) => {
                let mut message: String = "OPAQUE server record version ".to_owned();
                message.append(decimal_text(*version as u64).as_str());
                message.append(" is unsupported");
                message
            },
            AuthenticationError::AuthenticationFailed => "authentication failed".to_owned(),
            AuthenticationError::OpaqueProtocol => "OPAQUE protocol operation failed".to_owned(),
        }
    }
}

impl VideoDatagramError {
    /// What is told of it.
    pub open spec fn spec_message(self) -> Seq<char> {
        match self {
            VideoDatagramError::DatagramTooSmall(size) => {
                "datagram size "@
                    + text::decimal(size as nat)
                    + " has no payload"@
            },
            VideoDatagramError::InvalidFrameSize(size) => {
                "invalid encoded frame size "@
                    + text::decimal(size as nat)
            },
            VideoDatagramError::TooManyChunks => "encoded frame requires too many chunks"@,
            VideoDatagramError::MalformedHeader => "malformed video datagram header"@,
            VideoDatagramError::InconsistentFrameHeader => {
                "video chunks have inconsistent frame headers"@
            },
        }
    }

    pub fn message(&self) -> (message: String)
        ensures
            message@ == self.spec_message(),
    {
        match self {
            VideoDatagramError::DatagramTooSmall(size) => {
                let mut message: String = "datagram size ".to_owned();
                message.append(decimal_text(*size as u64).as_str());
                message.append(" has no payload");
                message
            },
            VideoDatagramError::InvalidFrameSize(size) => {
                let mut message: String = "invalid encoded frame size ".to_owned();
                message.append(decimal_text(*size as u64).as_str());
                message
            },
            VideoDatagramError::TooManyChunks => {
                "encoded frame requires too many chunks".to_owned()
            },
            VideoDatagramError::MalformedHeader => "malformed video datagram header".to_owned(),
            VideoDatagramError::InconsistentFrameHeader => {
                "video chunks have inconsistent frame headers".to_owned()
            },
        }
    }
}

impl SessionPhase {
    /// Its name.
    pub open spec fn spec_name(self) -> Seq<char> {
        match self {
            SessionPhase::Connected => "Connected"@,
            SessionPhase::Authenticated => "Authenticated"@,
            SessionPhase::Negotiated => "Negotiated"@,
            SessionPhase::Streaming => "Streaming"@,
            SessionPhase::Closed => "Closed"@,
        }
    }

    pub fn name(&self) -> (name: String)
        ensures
            name@ == self.spec_name(),
    {
        match self {
            SessionPhase::Connected => "Connected".to_owned(),
            SessionPhase::Authenticated => "Authenticated".to_owned(),
            SessionPhase::Negotiated => "Negotiated".to_owned(),
            SessionPhase::Streaming => "Streaming".to_owned(),
            SessionPhase::Closed => "Closed".to_owned(),
        }
    }
}

impl SessionTransitionError {
    /// What is told of it.
    pub open spec fn spec_message(self) -> Seq<char> {
        "cannot transition session from "@ + self.current.spec_name() + " to "@
            + self.attempted.spec_name()
    }

    pub fn message(&self) -> (message: String)
        ensures
            message@ == self.spec_message(),
    {
        let mut message: String = "cannot transition session from ".to_owned();
        message.append(self.current.name().as_str());
        message.append(" to ");
        message.append(self.attempted.name().as_str());
        message
    }
}

impl InputDatagramError {
    /// What is told of it.
    pub open spec fn spec_message(self) -> Seq<char> {
        "malformed input datagram"@
    }

    pub fn message(&self) -> (message: String)
        ensures
            message@ == self.spec_message(),
    {
        "malformed input datagram".to_owned()
    }
}

impl ProtocolFault {
    /// What is told of it.
    pub open spec fn spec_message(self) -> Seq<char> {
        match self {
            ProtocolFault::Authentication(error) => error.spec_message(),
            ProtocolFault::Frame(error) => error.spec_message(),
            ProtocolFault::UnknownOperatingSystem(number) => {
                "unknown enumeration value "@
                    + text::signed(number as int)
            },
        }
    }

    pub fn message(&self) -> (message: String)
        ensures
            message@ == self.spec_message(),
    {
        match self {
            ProtocolFault::Authentication(error) => error.message(),
            ProtocolFault::Frame(error) => error.message(),
            ProtocolFault::UnknownOperatingSystem(number) => {
                let mut message: String = "unknown enumeration value ".to_owned();
                message.append(signed_text(*number as i64).as_str());
                message
            },
        }
    }
}

impl QuicAuthenticationError {
    /// What is told of it.
    pub open spec fn spec_message(self) -> Seq<char> {
        match self {
            QuicAuthenticationError::Setup(error) => "QUIC setup failed: "@ + error@,
            QuicAuthenticationError::Transport(error) => "QUIC transport failed: "@ + error@,
            QuicAuthenticationError::Protocol(fault) => {
                "authentication protocol failed: "@
                    + fault.spec_message()
            },
            QuicAuthenticationError::MessageTooLarge(size) => {
                "authentication message is "@
                    + text::decimal(size as nat)
                    + " bytes; maximum is "@
                    + text::decimal(AUTHENTICATION_STREAM_LIMIT as nat)
            },
            QuicAuthenticationError::InvalidAuthenticationSequence => {
                "authentication message sequence is invalid"@
            },
            QuicAuthenticationError::AuthenticationFailed => "authentication failed"@,
            QuicAuthenticationError::RateLimiterUnavailable => {
                "authentication rate limiter is unavailable"@
            },
            QuicAuthenticationError::CredentialUnavailable => {
                "no password is available for this host identity"@
            },
            QuicAuthenticationError::Timeout => "Rust Console discovery timed out"@,
            QuicAuthenticationError::InvalidDiscoveryMetadata => {
                "host discovery metadata is invalid"@
            },
        }
    }

    pub fn message(&self) -> (message: String)
        ensures
            message@ == self.spec_message(),
    {
        match self {
            QuicAuthenticationError::Setup(error) => {
                let mut message: String = "QUIC setup failed: ".to_owned();
                message.append(error.as_str());
                message
            },
            QuicAuthenticationError::Transport(error) => {
                let mut message: String = "QUIC transport failed: ".to_owned();
                message.append(error.as_str());
                message
            },
            QuicAuthenticationError::Protocol(fault) => {
                let mut message: String = "authentication protocol failed: ".to_owned();
                message.append(fault.message().as_str());
                message
            },
            QuicAuthenticationError::MessageTooLarge(size) => {
                let mut message: String = "authentication message is ".to_owned();
                message.append(decimal_text(*size as u64).as_str());
                message.append(" bytes; maximum is ");
                message.append(decimal_text(AUTHENTICATION_STREAM_LIMIT as u64).as_str());
                message
            },
            QuicAuthenticationError::InvalidAuthenticationSequence => {
                "authentication message sequence is invalid".to_owned()
            },
            QuicAuthenticationError::AuthenticationFailed => "authentication failed".to_owned(),
            QuicAuthenticationError::RateLimiterUnavailable => {
                "authentication rate limiter is unavailable".to_owned()
            },
            QuicAuthenticationError::CredentialUnavailable => {
                "no password is available for this host identity".to_owned()
            },
            QuicAuthenticationError::Timeout => "Rust Console discovery timed out".to_owned(),
            QuicAuthenticationError::InvalidDiscoveryMetadata => {
                "host discovery metadata is invalid".to_owned()
            },
        }
    }
}

} // verus!
