//! Session, media-transport and input logic of a low-latency remote console.
//!
//! Everything in this crate is executable Rust whose behaviour is stated in
//! contracts over mathematical models and proved.

pub mod bytes;
pub mod digest;
pub mod driver;
pub mod player;
pub mod protocol;
pub mod render;
pub mod secret;
pub mod session;
pub mod text;
pub mod time;
