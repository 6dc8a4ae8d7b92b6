//! Screen capture: which frames are taken from a stream, and how a capture
//! proceeds.

pub mod format;
pub mod frame;
pub mod monitor;
pub mod queue;
pub mod session;
