//! The errors a monitoring run can end with. A failed connection attempt
//! during probing is not among them: it is the expected steady state and is
//! retried, never reported.
use vstd::prelude::*;

verus! {

/// A fatal error of one monitoring run.
#[derive(Debug)]
pub enum MonitorError {
    /// The remote directory resource could not be retrieved.
    TransportError,
    /// The directory payload could not be decoded or does not parse into
    /// well-formed rows.
    DecodeError,
    /// A requested endpoint name is absent from the directory; carries the
    /// name.
    UnknownEndpoint(Vec<char>),
    /// A directory entry's host is not a valid network address; carries the
    /// host text.
    ConfigurationError(Vec<char>),
}

} // verus!
