//! The ways a round trip with the daemon can fail.
use vstd::prelude::*;

verus! {

/// Which step of a round trip failed.
#[derive(Debug, Clone, Copy, PartialEq, Eq, Structural)]
pub enum ClientError {
    /// The daemon's socket could not be reached.
    Connect,
    /// A read or write failed, or the stream ended early.
    Io,
    /// A status line or header line is malformed.
    Protocol,
    /// The body is not well-formed JSON.
    Decode,
    /// The version handshake lacks a required field.
    MissingField,
}

} // verus!
