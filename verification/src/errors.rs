//! The relay's error taxonomy. Every error is terminal for the single
//! operation that raised it; nothing is retried inside the library.

use vstd::prelude::*;

verus! {

#[derive(Clone, Copy, Debug, PartialEq, Eq, Structural)]
pub enum RelayError {
    /// Connection establishment exceeded the configured deadline.
    ConnectionTimeout,
    /// The handshake or the transport failed while connecting.
    ConnectionFailed,
    /// A send was addressed to a component with no live link.
    ComponentNotLinked,
    /// A send was addressed to a session no registry knows.
    SessionNotFound,
    /// A frame could not be handed to a connection's channel.
    SendFailed,
    /// The server listener could not bind its address.
    BindError,
    /// A server-mode operation was called without a running server.
    NotInServerMode,
    /// A client-mode operation was called in server mode.
    NotInClientMode,
}

impl RelayError {
    /// A short, stable name for logs and messages.
    pub fn describe(&self) -> (r: &'static str)
        ensures
            r@ == self.spec_describe(),
    {
        match self {
            RelayError::ConnectionTimeout => "connection timeout",
            RelayError::ConnectionFailed => "connection failed",
            RelayError::ComponentNotLinked => "component not linked",
            RelayError::SessionNotFound => "session not found",
            RelayError::SendFailed => "send failed",
            RelayError::BindError => "bind error",
            RelayError::NotInServerMode => "not in server mode",
            RelayError::NotInClientMode => "not in client mode",
        }
    }

    pub open spec fn spec_describe(&self) -> Seq<char> {
        match self {
            RelayError::ConnectionTimeout => "connection timeout"@,
            RelayError::ConnectionFailed => "connection failed"@,
            RelayError::ComponentNotLinked => "component not linked"@,
            RelayError::SessionNotFound => "session not found"@,
            RelayError::SendFailed => "send failed"@,
            RelayError::BindError => "bind error"@,
            RelayError::NotInServerMode => "not in server mode"@,
            RelayError::NotInClientMode => "not in client mode"@,
        }
    }
}

} // verus!
