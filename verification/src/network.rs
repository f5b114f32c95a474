//! Network support: protocol constants, command strings, and the messages
//! that describe peers and their capabilities.

use vstd::prelude::*;

pub mod address;
pub mod constants;
pub mod message;
pub mod message_network;

verus! {

/// Network error.
#[derive(Debug)]
pub enum Error {
    /// An I/O error.
    Io(crate::consensus::encode::IoError),
    /// Socket mutex was poisoned.
    SocketMutexPoisoned,
    /// Not connected to peer.
    SocketNotConnectedToPeer,
}

} // verus!
