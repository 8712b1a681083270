//! The ways in which a run can fail. None of them can be repaired locally:
//! the protocol is stateful, and a party that fails must abort.

use vstd::prelude::*;

verus! {

/// Why a run was aborted.
#[derive(Clone, Copy, Debug, PartialEq, Eq, Structural)]
pub enum MpcError {
    /// The peer's frame was cut short, or its size is not the size sent.
    ChannelTransport,
    /// The two parties hold different values where they must hold the same.
    Desynchronized,
    /// The operation has no protocol in this lift.
    ProtocolUnsupported,
    /// The peer's bytes do not stand for a field element.
    SerializationError,
    /// A circuit was asked for a value that it was not given.
    AssignmentMissing,
    /// The shared value that was to be inverted is 0.
    NotInvertible,
}

impl MpcError {
    /// The name of the kind, for messages.
    pub fn name(&self) -> (s: &'static str)
        ensures
            s@ == (match *self {
                MpcError::ChannelTransport => "ChannelTransport"@,
                MpcError::Desynchronized => "Desynchronized"@,
                MpcError::ProtocolUnsupported => "ProtocolUnsupported"@,
                MpcError::SerializationError => "SerializationError"@,
                MpcError::AssignmentMissing => "AssignmentMissing"@,
                MpcError::NotInvertible => "NotInvertible"@,
            }),
    {
        match self {
            MpcError::ChannelTransport => "ChannelTransport",
            MpcError::Desynchronized => "Desynchronized",
            MpcError::ProtocolUnsupported => "ProtocolUnsupported",
            MpcError::SerializationError => "SerializationError",
            MpcError::AssignmentMissing => "AssignmentMissing",
            MpcError::NotInvertible => "NotInvertible",
        }
    }
}

} // verus!
