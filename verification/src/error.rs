//! What can go wrong while reading FastCGI records.

use crate::encoding::{decimal, decimal_string};
use vstd::prelude::*;
use vstd::string::*;

verus! {

/// A failure to read a record from a peer.
#[derive(Debug, Clone, PartialEq, Eq)]
pub enum Error {
    /// The input ended in the middle of a packet.
    UnexpectedSocketClose,
    /// The packet header carries a protocol version other than 1.
    UnsupportedVersion(u8),
    /// The packet header carries a record type outside the known ones.
    UnknownRecordType(u8),
    /// The packet belongs to a request id above 1.
    MultiplexingUnsupported,
    /// A fixed-width or name-value payload has the wrong shape; names the record.
    MalformedRecordPayload(&'static str),
    /// A `BeginRequest` asks for a role other than responder.
    UnsupportedRole(u16),
    /// An `EndRequest` carries a protocol status outside the known ones.
    UnsupportedProtocolStatus(u8),
    /// A name or a value is not valid UTF-8.
    InvalidUtf8KeyValuePair,
    /// The packets of a stream record change type before the stream ends.
    MalformedRecordStream,
}

impl Error {
    /// The text of `message`.
    pub open spec fn spec_message(self) -> Seq<char> {
        match self {
            Error::UnexpectedSocketClose => "The connection socket was closed unexpectedly"@,
            Error::UnsupportedVersion(v) => "Unsupported FastCGI version: '"@ + decimal(v as nat)
                + "'"@,
            Error::UnknownRecordType(t) => "Unknown record type: '"@ + decimal(t as nat) + "'"@,
            Error::MultiplexingUnsupported => "Multiplexing multiple requests unto a single connection is not supported"@,
            Error::MalformedRecordPayload(s) => "Received malformed FastCGI record for type '"@
                + s@ + "'"@,
            Error::UnsupportedRole(r) => "Unsuported FastCGI role: '"@ + decimal(r as nat) + "'"@,
            Error::UnsupportedProtocolStatus(s) => "Unsupported FastCGI protocol status: '"@
                + decimal(s as nat) + "'"@,
            Error::InvalidUtf8KeyValuePair => "Detected invalid utf8 in a key-value pair"@,
            Error::MalformedRecordStream => "Web server sent a malformed record stream"@,
        }
    }

    /// A sentence that describes the error, for logs.
    pub fn message(&self) -> (r: String)
        ensures
            r@ == self.spec_message(),
    {
        match self {
            Error::UnexpectedSocketClose => String::from_str(
                "The connection socket was closed unexpectedly",
            ),
            Error::UnsupportedVersion(v) => quoted(
                "Unsupported FastCGI version: '",
                decimal_string(*v as u32).as_str(),
            ),
            Error::UnknownRecordType(t) => quoted(
                "Unknown record type: '",
                decimal_string(*t as u32).as_str(),
            ),
            Error::MultiplexingUnsupported => String::from_str(
                "Multiplexing multiple requests unto a single connection is not supported",
            ),
            Error::MalformedRecordPayload(s) => quoted(
                "Received malformed FastCGI record for type '",
                s,
            ),
            Error::UnsupportedRole(r) => quoted(
                "Unsuported FastCGI role: '",
                decimal_string(*r as u32).as_str(),
            ),
            Error::UnsupportedProtocolStatus(s) => quoted(
                "Unsupported FastCGI protocol status: '",
                decimal_string(*s as u32).as_str(),
            ),
            Error::InvalidUtf8KeyValuePair => String::from_str(
                "Detected invalid utf8 in a key-value pair",
            ),
            Error::MalformedRecordStream => String::from_str(
                "Web server sent a malformed record stream",
            ),
        }
    }
}

/// `lead`, then `what`, then a closing quote.
fn quoted(lead: &str, what: &str) -> (r: String)
    ensures
        r@ == lead@ + what@ + "'"@,
{
    let mut s = String::from_str(lead);
    s.append(what);
    s.append("'");
    s
}

} // verus!
