//! The packets that server and client exchange, and their bytes on the wire.

pub mod codec;
pub mod packets;
pub mod round_trip;
pub mod wire;
pub mod wire_laws;
