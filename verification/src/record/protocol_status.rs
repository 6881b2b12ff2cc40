//! How a request ended, as an `EndRequest` reports it.

use crate::error::Error;
use vstd::prelude::*;

verus! {

/// An indication of the completion status of a FastCGI request.
#[derive(Debug, Clone, Copy, PartialEq, Eq, Structural)]
pub enum ProtocolStatus {
    /// The request ran to its end.
    RequestComplete,
    /// The request was refused: the connection carries one request only.
    MultiplexingUnsupported,
    /// The request was refused: the application has no capacity left.
    Overloaded,
    /// The request was refused: the application does not play the role asked for.
    UnknownRole,
}

impl ProtocolStatus {
    /// The number that stands for the status on the wire.
    pub open spec fn spec_id(self) -> u8 {
        match self {
            ProtocolStatus::RequestComplete => 0,
            ProtocolStatus::MultiplexingUnsupported => 1,
            ProtocolStatus::Overloaded => 2,
            ProtocolStatus::UnknownRole => 3,
        }
    }

    /// The status that `byte` stands for.
    pub open spec fn from_id(byte: u8) -> Result<ProtocolStatus, Error> {
        if byte == 0 {
            Ok(ProtocolStatus::RequestComplete)
        } else if byte == 1 {
            Ok(ProtocolStatus::MultiplexingUnsupported)
        } else if byte == 2 {
            Ok(ProtocolStatus::Overloaded)
        } else if byte == 3 {
            Ok(ProtocolStatus::UnknownRole)
        } else {
            Err(Error::UnsupportedProtocolStatus(byte))
        }
    }

    /// The number that stands for it on the wire.
    pub fn id(&self) -> (r: u8)
        ensures
            r == self.spec_id(),
    {
        match self {
            ProtocolStatus::RequestComplete => 0,
            ProtocolStatus::MultiplexingUnsupported => 1,
            ProtocolStatus::Overloaded => 2,
            ProtocolStatus::UnknownRole => 3,
        }
    }

    /// Reads a status from its byte.
    pub fn from_record_byte(byte: u8) -> (r: Result<ProtocolStatus, Error>)
        ensures
            r == ProtocolStatus::from_id(byte),
    {
        if byte == 0 {
            Ok(ProtocolStatus::RequestComplete)
        } else if byte == 1 {
            Ok(ProtocolStatus::MultiplexingUnsupported)
        } else if byte == 2 {
            Ok(ProtocolStatus::Overloaded)
        } else if byte == 3 {
            Ok(ProtocolStatus::UnknownRole)
        } else {
            Err(Error::UnsupportedProtocolStatus(byte))
        }
    }

    /// Appends the status's byte.
    pub fn as_record_byte(&self, out: &mut Vec<u8>)
        ensures
            final(out)@ == old(out)@ + seq![self.spec_id()],
    {
        out.push(self.id());
        assert(out@ =~= old(out)@ + seq![self.spec_id()]);
    }
}

} // verus!
