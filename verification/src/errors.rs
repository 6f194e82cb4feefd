//! The error vocabulary shared by the transport and the registry.

use vstd::prelude::*;

verus! {

/// Everything that can go wrong when driving a named connection.
///
/// `AlreadyExists` and `NotFound` come from the registry; the rest describe
/// the transport itself.  `Timeout` covers any bounded wait that expired,
/// `ConnectError` a remote that refused or could not be reached, and
/// `IoError` every lower-level transport failure other than a timeout.
#[derive(Clone, Copy, Debug, PartialEq, Eq, Structural)]
pub enum TransportError {
    AlreadyExists,
    NotFound,
    NotConnected,
    Timeout,
    ConnectError,
    IoError,
}

impl TransportError {
    /// A short, user-facing description of the error kind.
    pub fn describe(&self) -> (msg: &'static str)
        ensures
            msg@ == match *self {
                TransportError::AlreadyExists => "connection id already exists"@,
                TransportError::NotFound => "connection not found"@,
                TransportError::NotConnected => "not connected; call connect first"@,
                TransportError::Timeout => "operation timed out"@,
                TransportError::ConnectError => "failed to connect to remote host"@,
                TransportError::IoError => "transport i/o failure"@,
            },
    {
        match *self {
            TransportError::AlreadyExists => "connection id already exists",
            TransportError::NotFound => "connection not found",
            TransportError::NotConnected => "not connected; call connect first",
            TransportError::Timeout => "operation timed out",
            TransportError::ConnectError => "failed to connect to remote host",
            TransportError::IoError => "transport i/o failure",
        }
    }
}

} // verus!
