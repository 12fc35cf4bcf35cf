//! The virtual input devices of a host: what each is, what reaches it through
//! shared memory, and how it answers the system.

pub mod config;
pub mod control;
pub mod pump;
pub mod ring;
pub mod status;
