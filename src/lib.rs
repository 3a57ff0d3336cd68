//! Server side of a single WebSocket connection: the HTTP upgrade handshake
//! and the binary framing layer, as pure functions over byte buffers.

pub mod frame;
pub mod handshake;
