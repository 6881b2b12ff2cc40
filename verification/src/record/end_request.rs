//! The record that closes a request.

use crate::encoding::{be32, be32_bytes, lemma_be32_round_trip, push_u32_be, u32_from_be};
use crate::error::Error;
use crate::record::protocol_status::ProtocolStatus;
use vstd::prelude::*;

verus! {

/// What an `EndRequest` holds.
pub struct EndRequestView {
    pub exit_code: u32,
    pub protocol_status: ProtocolStatus,
}

/// A FastCGI `FCGI_END_REQUEST` record
///
/// This record is used by a FastCGI server to indicate a request is complete, either
/// because it has been processed successfully or because it has been rejected.
#[derive(Debug, Clone, Copy, PartialEq, Eq)]
pub struct EndRequest {
    exit_code: u32,
    protocol_status: ProtocolStatus,
}

impl View for EndRequest {
    type V = EndRequestView;

    closed spec fn view(&self) -> EndRequestView {
        EndRequestView { exit_code: self.exit_code, protocol_status: self.protocol_status }
    }
}

impl EndRequest {
    /// The payload: the exit code in four bytes, most significant first, the
    /// protocol status, three reserved zero bytes.
    pub open spec fn encode(v: EndRequestView) -> Seq<u8> {
        be32_bytes(v.exit_code) + seq![v.protocol_status.spec_id(), 0, 0, 0]
    }

    /// What an 8-byte payload stands for. The reserved bytes are not looked at.
    pub open spec fn decode(bytes: Seq<u8>) -> Result<EndRequestView, Error> {
        if bytes.len() != 8 {
            Err(Error::MalformedRecordPayload("EndRequest"))
        } else {
            match ProtocolStatus::from_id(bytes[4]) {
                Err(e) => Err(e),
                Ok(protocol_status) => Ok(
                    EndRequestView {
                        exit_code: be32(bytes[0], bytes[1], bytes[2], bytes[3]) as u32,
                        protocol_status,
                    },
                ),
            }
        }
    }

    /// Reads the record from the bytes of its payload.
    pub fn from_record_bytes(bytes: Vec<u8>) -> (r: Result<Self, Error>)
        ensures
            match Self::decode(bytes@) {
                Ok(v) => r matches Ok(x) && x@ == v,
                Err(e) => r matches Err(f) && f == e,
            },
    {
        if bytes.len() != 8 {
            return Err(Error::MalformedRecordPayload("EndRequest"));
        }
        let exit_code: u32 = u32_from_be(bytes[0], bytes[1], bytes[2], bytes[3]);
        let protocol_status = match ProtocolStatus::from_record_byte(bytes[4]) {
            Ok(s) => s,
            Err(e) => {
                return Err(e);
            },
        };
        Ok(EndRequest { exit_code, protocol_status })
    }

    /// Appends the record's payload.
    pub fn write_record_bytes(&self, out: &mut Vec<u8>)
        ensures
            final(out)@ == old(out)@ + Self::encode(self@),
    {
        push_u32_be(out, self.exit_code);
        self.protocol_status.as_record_byte(out);
        out.push(0);
        out.push(0);
        out.push(0);
        assert(out@ =~= old(out)@ + Self::encode(self@));
    }

    /// The record that ends a request with the given exit code and status.
    pub fn new(exit_code: u32, status: ProtocolStatus) -> (r: Self)
        ensures
            r@ == (EndRequestView { exit_code, protocol_status: status }),
    {
        EndRequest { exit_code, protocol_status: status }
    }
}

/// An `EndRequest` is read back from its payload.
pub proof fn lemma_end_request_round_trip(v: EndRequestView)
    ensures
        EndRequest::decode(EndRequest::encode(v)) == Ok::<EndRequestView, Error>(v),
{
    lemma_be32_round_trip(v.exit_code);
    let b = EndRequest::encode(v);
    let w = be32_bytes(v.exit_code);
    assert(b[0] == w[0] && b[1] == w[1] && b[2] == w[2] && b[3] == w[3]);
    assert(b[4] == v.protocol_status.spec_id());
}

} // verus!
