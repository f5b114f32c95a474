//! Partially signed transactions: the ways such a transaction can fail to
//! parse.

use vstd::prelude::*;

verus! {

/// Ways that a partially signed transaction might fail.
#[derive(Debug, PartialEq, Eq, Structural)]
pub enum Error {
    /// Magic bytes for a partially signed transaction must be the ASCII for
    /// "psbt", serialized in most significant byte order.
    InvalidMagic,
}

} // verus!
