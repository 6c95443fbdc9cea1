//! Client-side codec for BJNP, the UDP protocol that Canon multi-function
//! devices speak for discovery, identification and scan-button notification,
//! together with the decision logic of a long-lived poll session.
pub mod channel;
pub mod datetime;
pub mod discover;
pub mod header;
pub mod identity;
pub mod laws;
pub mod listen;
pub mod packet;
pub mod poll;
pub mod serdes;
pub mod utf16;
pub mod utils;

pub use packet::{Packet, PacketBuilder, PacketHeaderOnly, PacketType, PayloadType};
pub use poll::command::Host;
