//! The error taxonomy of the transport layer.
use vstd::prelude::*;

verus! {

/// Faults of the transport layer.
///
/// `Connect` is a handshake or authentication failure, fatal to the acquire
/// attempt that saw it. `Channel` is an open or dispatch failure on an
/// otherwise good transport; the one-shot executor retries once after it.
/// `Io` is a mid-stream read or write fault, always fatal to the affected
/// worker or call. `AlreadyRunning` and `NotRunning` report misuse of the
/// registry and are never retried.
#[derive(Debug, Clone, PartialEq, Eq)]
pub enum TransportError {
    AlreadyRunning,
    NotRunning,
    Connect(String),
    Channel(String),
    Io(String),
}

} // verus!
