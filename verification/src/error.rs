use vstd::prelude::*;

verus! {

/// Everything that can go wrong between host and device.
#[derive(Debug, Clone, Copy, PartialEq, Eq, Structural)]
pub enum ErrorKind {
    /// No registered endpoint answers to the key of a request.
    UnknownEndpoint,
    /// The bytes of a request are not a value of the type the endpoint takes.
    SchemaMismatch,
    /// Every slot of a pooled endpoint is taken.
    PoolExhausted,
    /// A frame could not be written to the transport.
    TransportWriteFailed,
    /// The broker answered, and none of its devices is connected.
    NoDeviceConnected,
    /// The broker could not be reached.
    BrokerUnreachable,
}

/// What is done about an error.
#[derive(Debug, Clone, Copy, PartialEq, Eq, Structural)]
pub enum Recovery {
    /// Logged where it happened and then dropped.
    Swallow,
    /// Sent back to the caller as an error reply.
    ErrorReply,
    /// Shown to the operator; the session then stops or tries again, as it
    /// is configured.
    Operator,
}

impl ErrorKind {
    /// How each kind of error is dealt with.
    pub open spec fn spec_recovery(self) -> Recovery {
        match self {
            ErrorKind::UnknownEndpoint => Recovery::ErrorReply,
            ErrorKind::SchemaMismatch => Recovery::ErrorReply,
            ErrorKind::PoolExhausted => Recovery::ErrorReply,
            ErrorKind::TransportWriteFailed => Recovery::Swallow,
            ErrorKind::NoDeviceConnected => Recovery::Operator,
            ErrorKind::BrokerUnreachable => Recovery::Operator,
        }
    }

    /// How this kind of error is dealt with.
    pub fn recovery(self) -> (r: Recovery)
        ensures
            r == self.spec_recovery(),
    {
        match self {
            ErrorKind::UnknownEndpoint => Recovery::ErrorReply,
            ErrorKind::SchemaMismatch => Recovery::ErrorReply,
            ErrorKind::PoolExhausted => Recovery::ErrorReply,
            ErrorKind::TransportWriteFailed => Recovery::Swallow,
            ErrorKind::NoDeviceConnected => Recovery::Operator,
            ErrorKind::BrokerUnreachable => Recovery::Operator,
        }
    }
}

} // verus!
