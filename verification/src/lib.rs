//! Control-channel protocol engine for a Tello quadcopter: checksums, the
//! binary gram codec, telemetry decoding and the connection session.

pub mod crc;
pub mod gram;
pub mod handshake;
pub mod player;
pub mod session;
pub mod telemetry;
