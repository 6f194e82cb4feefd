//! Events: the observed outcome of one socket operation.
//!
//! The embedding performs a timeout-bounded socket call and reports what
//! happened as one of these plain values.  The verified state machines in
//! [`crate::client`] and [`crate::manager`] consume them; nothing here ever
//! touches the network.

use vstd::prelude::*;

verus! {

/// Outcome of one attempt to open a TCP connection to the configured remote.
#[derive(Clone, Copy, Debug, PartialEq, Eq, Structural)]
pub enum ConnectEvent {
    /// The connection completed within the configured timeout and, when the
    /// configuration asks for it, OS-level keep-alive was enabled.
    Established,
    /// The attempt did not complete within the configured timeout.
    TimedOut,
    /// The remote refused, was unreachable, or name resolution failed.
    Refused,
}

/// Outcome of one attempt to write a whole buffer to the socket.
#[derive(Clone, Copy, Debug, PartialEq, Eq, Structural)]
pub enum SendEvent {
    /// Every byte was written and the stream was flushed within the timeout.
    Sent,
    /// The write did not complete within the configured timeout.
    TimedOut,
    /// A lower-level failure other than a timeout.
    Failed,
}

/// Outcome of one attempt to read from the socket.
#[derive(Debug)]
pub enum ReceiveEvent {
    /// Exactly the bytes that arrived, at most the caller's buffer size.
    /// An empty vector means the peer closed, or sent an empty answer; that
    /// is a valid result, not an error.
    Data(Vec<u8>),
    /// No data arrived within the configured timeout.
    TimedOut,
    /// A lower-level failure other than a timeout.
    Failed,
}

/// Outcome of the short read-readiness poll behind the liveness probe.
#[derive(Clone, Copy, Debug, PartialEq, Eq, Structural)]
pub enum ProbeEvent {
    /// The socket was readable and a non-blocking read returned zero bytes:
    /// the peer has closed its side.
    PeerClosed,
    /// The socket was readable and application data is waiting.  The probe
    /// may have pulled one byte out of the stream to learn this; see the
    /// note on [`crate::client::TcpClient::check_connection`].
    DataAvailable,
    /// The socket was readable but a non-blocking read would still block.
    WouldBlock,
    /// The non-blocking read failed outright.
    ReadFailed,
    /// Polling readiness itself failed.
    PollFailed,
    /// The short poll expired without an answer: inconclusive.
    PollTimedOut,
}

} // verus!
