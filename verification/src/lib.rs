//! A verified codec for MQTT 3.1.1 control packets.
//!
//! The crate models every control-packet kind as a typed value, encodes a
//! packet to its exact wire bytes, and decodes wire bytes back into a packet.
//! Encoding and decoding are specified against a mathematical model of the
//! wire format and proved inverse to each other for every constructible
//! packet.

pub mod decode;
pub mod encode;
pub mod errors;
pub mod fields;
pub mod laws;
pub mod model;
pub mod packets;
pub mod topic;
pub mod wire;
