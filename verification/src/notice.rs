//! What the broadcaster reports about itself, for whoever keeps its log.

use vstd::prelude::*;

verus! {

/// How much a notice matters.
#[derive(Clone, Copy, PartialEq, Eq, Debug, Structural)]
pub enum Severity {
    /// The ordinary course of things.
    Info,
    /// Something failed.
    Warning,
}

/// An event worth a line in the log.
#[derive(Clone, Copy, PartialEq, Eq, Debug, Structural)]
pub enum Notice {
    /// The listening socket is bound; connections are awaited.
    BindSucceeded,
    /// The listening socket could not be bound.
    BindFailed,
    /// A connection arrived.
    ConnectionAccepted,
    /// Accepting a connection failed; the listener goes on.
    AcceptFailed,
    /// The listener has stopped accepting for good.
    ListenerStopped,
    /// The handshake with a client succeeded.
    ConnectionEstablished,
    /// The handshake with a client failed.
    HandshakeFailed,
    /// A record could not be sent and was dropped.
    SendFailed,
    /// The close frame went out.
    ConnectionClosed,
    /// The close frame could not be sent.
    CloseFailed,
}

impl Notice {
    /// Failures are warnings, everything else is information.
    pub open spec fn severity_of(self) -> Severity {
        match self {
            Notice::BindFailed
            | Notice::AcceptFailed
            | Notice::HandshakeFailed
            | Notice::SendFailed
            | Notice::CloseFailed => Severity::Warning,
            Notice::BindSucceeded
            | Notice::ConnectionAccepted
            | Notice::ListenerStopped
            | Notice::ConnectionEstablished
            | Notice::ConnectionClosed => Severity::Info,
        }
    }

    /// The level at which the notice is logged.
    pub fn severity(&self) -> (level: Severity)
        ensures
            level == self.severity_of(),
    {
        match self {
            Notice::BindFailed
            | Notice::AcceptFailed
            | Notice::HandshakeFailed
            | Notice::SendFailed
            | Notice::CloseFailed => Severity::Warning,
            Notice::BindSucceeded
            | Notice::ConnectionAccepted
            | Notice::ListenerStopped
            | Notice::ConnectionEstablished
            | Notice::ConnectionClosed => Severity::Info,
        }
    }
}

} // verus!
