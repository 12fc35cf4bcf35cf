//! The viewer: what it plays, sends and decides while a session streams.

pub mod audio_decoder;
pub mod audio_ordering;
pub mod audio_output;
pub mod audio_planning;
pub mod audio_playback;
pub mod availability;
pub mod clock;
pub mod continuity;
pub mod controls;
pub mod diagnostic_marker;
pub mod discovery;
pub mod frame_decoding;
pub mod frame_sink;
pub mod host_key;
pub mod input_pipeline;
pub mod keyboard_leds;
pub mod keyed_records;
pub mod messages;
pub mod negotiation;
pub mod one_frame;
pub mod payload_integrity;
pub mod platform;
pub mod process_protocol;
pub mod progress;
pub mod receiver;
pub mod stream_control;
pub mod stream_session;
pub mod video_playback;
