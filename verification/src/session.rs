//! Session logic: media transport, authentication, input and statistics.

pub mod audio_assembly;
pub mod audio_datagram;
pub mod audio_history;
pub mod audio_laws;
pub mod authentication;
pub mod chunking;
pub mod handshake;
pub mod input_datagram;
pub mod lifecycle;
pub mod login;
pub mod media_queue;
pub mod messages;
pub mod observability;
pub mod opaque;
pub mod quic;
pub mod rate_limiter;
pub mod statistics;
pub mod video_assembly;
pub mod video_datagram;
pub mod video_deadlines;
pub mod video_laws;
