//! Wire protocol: versions, features, messages and media headers.

pub mod audio;
pub mod av1;
pub mod diagnostics;
pub mod display;
pub mod features;
pub mod messages;
pub mod input;
pub mod wire;
