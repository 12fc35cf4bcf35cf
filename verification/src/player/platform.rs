//! What a viewer has from the system it runs on.

use crate::protocol::features::InputEvent;
use vstd::prelude::*;

verus! {

/// Where the events of the keyboard and the pointer come from.
pub trait LocalInputSource {
    type Error;

    fn next_event(&mut self) -> Result<Option<InputEvent>, Self::Error>;

    fn focused(&self) -> bool;
}

/// Where passwords are kept between sessions.
pub trait SecretStore {
    type Error;

    fn load(&self, host_identity: &str) -> Result<Option<Vec<u8>>, Self::Error>;

    fn store(&mut self, host_identity: &str, secret: &[u8]) -> Result<(), Self::Error>;

    fn remove(&mut self, host_identity: &str) -> Result<(), Self::Error>;
}

/// A time of the host's clock, in microseconds.
#[derive(Clone, Copy, Debug, PartialEq, Eq, PartialOrd, Ord, Structural)]
pub struct MediaTimestampMicros(pub u64);

#[derive(Clone, Copy, Debug, PartialEq, Eq, Structural)]
pub struct VideoFormat {
    pub width: u32,
    pub height: u32,
    pub frames_per_second: u16,
}

/// A decoded frame, with its place in the stream.
#[derive(Clone, Debug)]
pub struct VideoFrame<Frame> {
    pub sequence: u64,
    pub captured_at: MediaTimestampMicros,
    pub format: VideoFormat,
    pub frame: Frame,
}

/// Where decoded frames are shown.
pub trait VideoRenderer<Frame> {
    type Error;

    fn present(&mut self, frame: VideoFrame<Frame>) -> Result<(), Self::Error>;

    fn reconfigure(&mut self, format: VideoFormat) -> Result<(), Self::Error>;
}

/// Where decoded samples are played.
pub trait AudioOutput<Samples> {
    type Error;

    fn play(&mut self, samples: Samples) -> Result<(), Self::Error>;

    fn reset(&mut self) -> Result<(), Self::Error>;
}

/// What is called while a stream runs.
pub struct StreamCallbacks<Authenticated, Progress, Statistics, Audio, Video> {
    pub authenticated: Authenticated,
    pub progress: Progress,
    pub statistics: Statistics,
    pub audio: Audio,
    pub video: Video,
}

} // verus!
