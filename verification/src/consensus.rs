//! Consensus-critical encoding: the byte formats that every participant of
//! the network must produce and accept bit-identically.

pub mod collections;
pub mod laws;
pub mod encode;

pub use self::encode::deserialize;
pub use self::encode::deserialize_partial;
pub use self::encode::serialize;
pub use self::encode::Decodable;
pub use self::encode::Encodable;
pub use self::encode::ReadExt;
pub use self::encode::WriteExt;
