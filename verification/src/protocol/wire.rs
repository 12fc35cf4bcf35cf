//! Bounded Protobuf messages used on reliable QUIC streams.

pub mod audio_messages;
pub mod enums;
pub mod envelope;
pub mod fault;
pub mod field;
pub mod frame;
pub mod input_messages;
pub mod input_pack;
pub mod input_transition;
pub mod message;
pub mod negotiation_messages;
pub mod numbers;
pub mod offer_messages;
pub mod scalar;
pub mod session_messages;
pub mod shapes;
pub mod varint;
pub mod video_messages;

pub use self::audio_messages::{AudioConfiguration, AudioStreamState};
pub use self::enums::{
    AudioStatus, ChromaSubsampling, HostFirewallStatus, HostOperatingSystem,
    HostSessionControlKind, PointerMode, SessionAvailability, UnknownEnumValue, VbCableStatus,
    VideoBitDepth, VideoControlKind, VideoReconfigurationCause, VideoStreamStatus,
};
pub use self::frame::{
    decode_reliable_frame, decode_video_packet_frame, encode_reliable_frame,
    encode_video_packet_frame, Envelope, ReliableFrameError, MAX_ENCODED_VIDEO_PACKET_SIZE,
    MAX_RELIABLE_MESSAGE_SIZE, RELIABLE_FRAME_PREFIX_SIZE,
};
pub use self::input_messages::{
    InputAck, KeyTransition, KeyboardLeds, PointerButtonTransition, PointerModeTransition,
    PointerMotionTransition, PointerPositionTransition, ReleaseAll, WheelTransition,
};
pub use self::input_pack::{InputPack, InputTransition};
pub use self::fault::{DecodeError, DecodeFault, FieldPlace};
pub use self::message::{Message, WireMessage};
pub use self::negotiation_messages::{
    Av1HardwareCapability, Av1Mode, Av1ViewerSettings, SelectedAv1Configuration,
};
pub use self::offer_messages::Av1CapabilityOffer;
pub use self::session_messages::{
    AuthenticationResult, ClockPing, ClockPong, FeatureOffer, HostIdentityOffer,
    HostIdentityRequest, HostSessionControl, OpaqueCredentialFinalization,
    OpaqueCredentialRequest, OpaqueCredentialResponse, SessionAvailabilityProbe,
    SessionAvailabilityResult, VersionOffer,
};
pub use self::video_messages::{
    EncodedVideoPacket, VideoControl, VideoReceiverReport, VideoStreamState,
};
