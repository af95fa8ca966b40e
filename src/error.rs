//! Errors of the transports and of their configuration.

use vstd::prelude::*;

verus! {

/// Why a transport operation failed.
#[derive(Debug, Clone, Copy, PartialEq, Eq, Structural)]
pub enum TransportError {
    /// An outbound connection could not be made.
    ConnectFailed,
    /// The peer did not answer in time.
    Timeout,
    /// The input ended before a whole frame or header had arrived.
    ShortRead,
    /// The transport has no channel to the named party.
    UnknownPeer,
    /// A connection's opening header was malformed or named no valid lane.
    HandshakeFailed,
}

/// Why a transport could not be configured.
#[derive(Debug, Clone, Copy, PartialEq, Eq, Structural)]
pub enum ConfigurationError {
    /// A peer address could not be used.
    InvalidAddress,
    /// A certificate or key was not accepted.
    CertificateRejected,
}

} // verus!
