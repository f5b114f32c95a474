//! Consensus binary encoding for a peer-to-peer financial network protocol.
//!
//! Every wire-representable type implements the [`consensus::encode::Encodable`]
//! and [`consensus::encode::Decodable`] contracts, which pin the byte-for-byte
//! wire format down: little-endian integers, minimally encoded variable-length
//! integers, length-prefixed collections with an allocation ceiling, and
//! composite messages encoded field by field in declared order.

pub mod consensus;
pub mod network;
pub mod util;

pub use util::amount::Amount;
pub use util::amount::SignedAmount;
