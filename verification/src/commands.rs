//! The values the user-facing command layer exchanges with the core: the
//! creation request for a connection and the shape every command answers
//! with.  The command layer itself (transport over the UI boundary) stays
//! outside the library; what it computes is here.

use vstd::prelude::*;

use vstd::string::StringExecFns;

use crate::client::TcpClientConfig;

verus! {

/// A request to register a connection, as the command layer receives it.
pub struct ConnectionConfig {
    /// Caller-chosen identifier, unique within the registry.
    pub id: String,
    /// Remote host name or address.
    pub host: String,
    /// Remote TCP port.
    pub port: u16,
    /// Bound, in seconds, on every connect, send and receive.
    pub timeout: u64,
    /// Whether to enable OS-level TCP keep-alive.
    pub keep_alive: bool,
}

impl ConnectionConfig {
    /// The transport configuration this request asks for (everything but
    /// the identifier).
    pub fn to_client_config(&self) -> (r: TcpClientConfig)
        ensures
            r@.host == self.host@,
            r@.port == self.port,
            r@.timeout_secs == self.timeout,
            r@.keep_alive == self.keep_alive,
    {
        TcpClientConfig {
            host: self.host.clone(),
            port: self.port,
            timeout_secs: self.timeout,
            keep_alive: self.keep_alive,
        }
    }
}

/// What every connection command answers: a flag and a short, user-facing
/// sentence.
pub struct CommandResult {
    pub success: bool,
    pub message: String,
}

impl CommandResult {
    /// A success answer carrying `message`.
    pub fn ok(message: String) -> (r: CommandResult)
        ensures
            r.success,
            r.message == message,
    {
        CommandResult { success: true, message }
    }
}

/// The identifier spliced between two fixed pieces of a sentence, e.g.
/// `"Connection '"`, the identifier, `"' created successfully"`.
pub fn message_with_id(prefix: &str, id: &str, suffix: &str) -> (r: String)
    ensures
        r@ == prefix@ + id@ + suffix@,
{
    String::from_str(prefix).concat(id).concat(suffix)
}

} // verus!
