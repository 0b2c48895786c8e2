//! A minimal append-only key-value log store.
//!
//! Keys occupy fixed 128-byte zero-padded slots on disk; values are
//! length-prefixed with an 8-byte little-endian count. A lookup scans the
//! whole log and returns the value of the last matching record
//! (last-write-wins). The same framing is used on the wire by the
//! connection protocol, modelled here as an explicit state machine.

use vstd::prelude::*;

pub mod codec;
pub mod protocol;
pub mod storage;
pub mod utils;

verus! {

/// The failure conditions of the store, the codec and the protocol.
#[derive(Clone, Copy, Debug, PartialEq, Eq, Structural)]
pub enum KvError {
    /// An underlying transport or file failure.
    IoError,
    /// A malformed command or truncated frame on the wire.
    ProtocolError,
    /// The log holds a key slot without a complete length and value after it.
    CorruptRecord,
    /// A key longer than the fixed 128-byte key slot.
    KeyTooLong,
    /// The shared writer's lock could not be acquired.
    LockContention,
}

} // verus!
