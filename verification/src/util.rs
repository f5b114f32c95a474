//! Utility modules: byte-order primitives and amount handling.

pub mod amount;
pub mod endian;
pub mod psbt;
pub mod text;
