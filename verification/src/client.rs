//! One named endpoint's transport: a single connection's configuration and
//! lifecycle, tracked as a verified state machine.
//!
//! A [`TcpClient`] is either unconnected or connected; the socket handle
//! itself is owned by the embedding, which performs each timeout-bounded
//! socket call and reports its outcome as an event from [`crate::events`].
//! The spec functions in this module are the single definition of how every
//! event moves the state and what result the caller sees; the executable
//! methods are proved against them, and the registry in [`crate::manager`]
//! builds on them.

use vstd::prelude::*;

use crate::errors::TransportError;
use crate::events::{ConnectEvent, ProbeEvent, ReceiveEvent, SendEvent};

verus! {

/// Immutable per-connection configuration, fixed at creation time.
///
/// To change any of it, the caller must remove and recreate the connection.
#[derive(Debug)]
pub struct TcpClientConfig {
    /// Remote host name or address.
    pub host: String,
    /// Remote TCP port.
    pub port: u16,
    /// Bound, in seconds, on every connect, send and receive.
    pub timeout_secs: u64,
    /// Whether to enable OS-level TCP keep-alive on a fresh socket.
    pub keep_alive: bool,
}

/// Mathematical image of a [`TcpClientConfig`].
pub ghost struct ConfigView {
    pub host: Seq<char>,
    pub port: u16,
    pub timeout_secs: u64,
    pub keep_alive: bool,
}

impl View for TcpClientConfig {
    type V = ConfigView;

    open spec fn view(&self) -> ConfigView {
        ConfigView {
            host: self.host@,
            port: self.port,
            timeout_secs: self.timeout_secs,
            keep_alive: self.keep_alive,
        }
    }
}

impl TcpClientConfig {
    /// An equal configuration value (the configuration is handed out to the
    /// embedding when a connect is prepared).
    pub fn duplicate(&self) -> (r: TcpClientConfig)
        ensures
            r@ == self@,
    {
        TcpClientConfig {
            host: self.host.clone(),
            port: self.port,
            timeout_secs: self.timeout_secs,
            keep_alive: self.keep_alive,
        }
    }
}

/// Mathematical image of a [`TcpClient`]: its configuration and whether it
/// currently holds a live socket.
pub ghost struct ClientView {
    pub config: ConfigView,
    pub connected: bool,
}

/// State and result of applying a connect outcome.
///
/// A successful connect ends connected, whatever the previous state was
/// (connecting while connected is permitted and replaces the socket); a
/// failed attempt leaves the previous state untouched.
pub open spec fn connect_step(c: ClientView, ev: ConnectEvent) -> (ClientView, Result<
    (),
    TransportError,
>) {
    match ev {
        ConnectEvent::Established => (ClientView { connected: true, ..c }, Ok(())),
        ConnectEvent::TimedOut => (c, Err(TransportError::Timeout)),
        ConnectEvent::Refused => (c, Err(TransportError::ConnectError)),
    }
}

/// Result of a send: refused outright when unconnected, otherwise the
/// write's outcome verbatim.  A send never moves the state.
pub open spec fn send_result(c: ClientView, ev: SendEvent) -> Result<(), TransportError> {
    if !c.connected {
        Err(TransportError::NotConnected)
    } else {
        match ev {
            SendEvent::Sent => Ok(()),
            SendEvent::TimedOut => Err(TransportError::Timeout),
            SendEvent::Failed => Err(TransportError::IoError),
        }
    }
}

/// Result of a receive: refused outright when unconnected, otherwise exactly
/// the bytes that arrived (possibly none).  A receive never moves the state.
pub open spec fn receive_result(c: ClientView, ev: ReceiveEvent) -> Result<
    Seq<u8>,
    TransportError,
> {
    if !c.connected {
        Err(TransportError::NotConnected)
    } else {
        match ev {
            ReceiveEvent::Data(data) => Ok(data@),
            ReceiveEvent::TimedOut => Err(TransportError::Timeout),
            ReceiveEvent::Failed => Err(TransportError::IoError),
        }
    }
}

/// Result of the send-then-receive composite: the send's error if it failed,
/// otherwise the receive's result.  There is no rollback of the write.
pub open spec fn send_and_receive_result(
    c: ClientView,
    sev: SendEvent,
    rev: Option<ReceiveEvent>,
) -> Result<Seq<u8>, TransportError> {
    match send_result(c, sev) {
        Err(e) => Err(e),
        Ok(_) => match rev {
            Some(r) => receive_result(c, r),
            None => Err(TransportError::IoError),
        },
    }
}

/// State after a disconnect: always unconnected, whatever happened to the
/// socket underneath.
pub open spec fn disconnect_step(c: ClientView) -> ClientView {
    ClientView { connected: false, ..c }
}

/// State and answer of the liveness probe.
///
/// Unconnected: `false` without touching the network.  Connected: a probe
/// that saw the peer close, or failed while looking, tears the state down
/// and answers `false`; data, a clean would-block, or an inconclusive short
/// poll answer `true` (biased toward availability).
pub open spec fn probe_step(c: ClientView, ev: Option<ProbeEvent>) -> (ClientView, bool) {
    if !c.connected {
        (c, false)
    } else {
        match ev {
            Some(ProbeEvent::PeerClosed) | Some(ProbeEvent::ReadFailed) | Some(
                ProbeEvent::PollFailed,
            ) => (ClientView { connected: false, ..c }, false),
            Some(ProbeEvent::DataAvailable) | Some(ProbeEvent::WouldBlock) | Some(
                ProbeEvent::PollTimedOut,
            ) => (c, true),
            None => (c, false),
        }
    }
}

/// A byte result up to the view of its payload.
pub open spec fn bytes_result_view(r: Result<Vec<u8>, TransportError>) -> Result<
    Seq<u8>,
    TransportError,
> {
    match r {
        Ok(v) => Ok(v@),
        Err(e) => Err(e),
    }
}

/// One named endpoint's transport.  It persists across connection loss; only
/// the socket underneath comes and goes.
pub struct TcpClient {
    config: TcpClientConfig,
    connected: bool,
}

impl View for TcpClient {
    type V = ClientView;

    closed spec fn view(&self) -> ClientView {
        ClientView { config: self.config@, connected: self.connected }
    }
}

impl TcpClient {
    /// A fresh, unconnected transport with the given configuration.
    pub fn new(config: TcpClientConfig) -> (r: TcpClient)
        ensures
            r@ == (ClientView { config: config@, connected: false }),
    {
        TcpClient { config, connected: false }
    }

    /// The configuration this transport was created with.
    pub fn config(&self) -> (r: &TcpClientConfig)
        ensures
            r@ == self@.config,
    {
        &self.config
    }

    /// O(1) query of the lifecycle state; does not probe the network.
    pub fn is_connected(&self) -> (r: bool)
        ensures
            r == self@.connected,
    {
        self.connected
    }

    /// Apply the outcome of a connect attempt the embedding performed
    /// against this transport's configured remote.
    pub fn connect(&mut self, ev: ConnectEvent) -> (r: Result<(), TransportError>)
        ensures
            final(self)@ == connect_step(old(self)@, ev).0,
            r == connect_step(old(self)@, ev).1,
    {
        match ev {
            ConnectEvent::Established => {
                self.connected = true;
                Ok(())
            },
            ConnectEvent::TimedOut => Err(TransportError::Timeout),
            ConnectEvent::Refused => Err(TransportError::ConnectError),
        }
    }

    /// Decide a send: refuse when unconnected, otherwise report the write's
    /// outcome verbatim.  All-or-nothing: `Sent` means every byte was
    /// written; a partial write surfaces as an error, never as a result.
    pub fn send(&mut self, ev: SendEvent) -> (r: Result<(), TransportError>)
        ensures
            final(self)@ == old(self)@,
            r == send_result(old(self)@, ev),
    {
        if !self.connected {
            return Err(TransportError::NotConnected);
        }
        match ev {
            SendEvent::Sent => Ok(()),
            SendEvent::TimedOut => Err(TransportError::Timeout),
            SendEvent::Failed => Err(TransportError::IoError),
        }
    }

    /// Decide a receive: refuse when unconnected, otherwise hand back
    /// exactly the bytes that arrived.  Zero bytes is a valid answer (the
    /// peer closed, or sent an empty response), not an error.
    pub fn receive(&mut self, ev: ReceiveEvent) -> (r: Result<Vec<u8>, TransportError>)
        ensures
            final(self)@ == old(self)@,
            bytes_result_view(r) == receive_result(old(self)@, ev),
    {
        if !self.connected {
            return Err(TransportError::NotConnected);
        }
        match ev {
            ReceiveEvent::Data(data) => Ok(data),
            ReceiveEvent::TimedOut => Err(TransportError::Timeout),
            ReceiveEvent::Failed => Err(TransportError::IoError),
        }
    }

    /// The send-then-receive composite.  A receive outcome is owed exactly
    /// when the send went through; if the send failed, its error propagates
    /// and nothing was read.
    pub fn send_and_receive(&mut self, sev: SendEvent, rev: Option<ReceiveEvent>) -> (r: Result<
        Vec<u8>,
        TransportError,
    >)
        requires
            old(self)@.connected && sev is Sent ==> rev is Some,
        ensures
            final(self)@ == old(self)@,
            bytes_result_view(r) == send_and_receive_result(old(self)@, sev, rev),
    {
        match self.send(sev) {
            Err(e) => Err(e),
            Ok(_) => match rev {
                Some(r) => self.receive(r),
                None => vstd::pervasive::unreached(),
            },
        }
    }

    /// Forget the socket.  Never fails observably: whatever the shutdown
    /// underneath reported, this transport ends unconnected.
    pub fn disconnect(&mut self) -> (r: Result<(), TransportError>)
        ensures
            final(self)@ == disconnect_step(old(self)@),
            r is Ok,
    {
        self.connected = false;
        Ok(())
    }

    /// Apply the outcome of the short liveness probe; the embedding owes a
    /// probe outcome exactly when the transport was connected.
    ///
    /// Distinct from [`Self::is_connected`]: this consumes an active poll of
    /// the socket.  The probe's non-blocking read may pull one byte of real
    /// application data out of the stream when the peer sent something
    /// between the poll and the next receive; a peeking probe would avoid
    /// that, at the price of platform-specific socket options.
    pub fn check_connection(&mut self, ev: Option<ProbeEvent>) -> (alive: bool)
        requires
            old(self)@.connected ==> ev is Some,
        ensures
            final(self)@ == probe_step(old(self)@, ev).0,
            alive == probe_step(old(self)@, ev).1,
    {
        if !self.connected {
            return false;
        }
        match ev {
            Some(ProbeEvent::PeerClosed) | Some(ProbeEvent::ReadFailed) | Some(
                ProbeEvent::PollFailed,
            ) => {
                self.connected = false;
                false
            },
            Some(ProbeEvent::DataAvailable) | Some(ProbeEvent::WouldBlock) | Some(
                ProbeEvent::PollTimedOut,
            ) => true,
            None => false,
        }
    }
}

} // verus!
