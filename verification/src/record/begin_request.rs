//! The record that opens a request.

use crate::encoding::{be16, be16_bytes};
use crate::error::Error;
use crate::record::role::Role;
use vstd::prelude::*;

verus! {

/// What a `BeginRequest` holds.
pub struct BeginRequestView {
    pub role: Role,
    pub flags: u8,
}

/// A FastCGI `FCGI_BEGIN_REQUEST` record
///
/// The FastCGI client sends a FCGI_BEGIN_REQUEST record to start a request.
#[derive(Debug, Clone, Copy, PartialEq, Eq)]
pub struct BeginRequest {
    role: Role,
    flags: u8,
}

impl View for BeginRequest {
    type V = BeginRequestView;

    closed spec fn view(&self) -> BeginRequestView {
        BeginRequestView { role: self.role, flags: self.flags }
    }
}

impl BeginRequest {
    /// The payload: the role in two bytes, the flags, five reserved zero bytes.
    pub open spec fn encode(v: BeginRequestView) -> Seq<u8> {
        be16_bytes(v.role.spec_id()) + seq![v.flags, 0, 0, 0, 0, 0]
    }

    /// What an 8-byte payload that asks for the responder role stands for. The
    /// reserved bytes are not looked at.
    pub open spec fn decode(bytes: Seq<u8>) -> Result<BeginRequestView, Error> {
        if bytes.len() != 8 {
            Err(Error::MalformedRecordPayload("BeginRequest"))
        } else {
            match Role::from_id(be16(bytes[0], bytes[1])) {
                Err(e) => Err(e),
                Ok(role) => if role == Role::Responder {
                    Ok(BeginRequestView { role, flags: bytes[2] })
                } else {
                    Err(Error::UnsupportedRole(role.spec_id()))
                },
            }
        }
    }

    /// True when the low bit of the flags, `KEEP_CONN`, is set.
    pub open spec fn spec_keep_alive(v: BeginRequestView) -> bool {
        v.flags % 2 == 1
    }

    /// Reads the record from the bytes of its payload.
    pub fn from_record_bytes(bytes: Vec<u8>) -> (r: Result<Self, Error>)
        ensures
            match Self::decode(bytes@) {
                Ok(v) => r matches Ok(x) && x@ == v,
                Err(e) => r matches Err(f) && f == e,
            },
    {
        if bytes.len() != 8 {
            return Err(Error::MalformedRecordPayload("BeginRequest"));
        }
        let role = match Role::from_record_bytes([bytes[0], bytes[1]]) {
            Ok(role) => role,
            Err(e) => {
                return Err(e);
            },
        };
        if !role.supported() {
            return Err(Error::UnsupportedRole(role.id()));
        }
        Ok(BeginRequest { role, flags: bytes[2] })
    }

    /// Appends the record's payload.
    pub fn write_record_bytes(&self, out: &mut Vec<u8>)
        ensures
            final(out)@ == old(out)@ + Self::encode(self@),
    {
        self.role.as_record_bytes(out);
        out.push(self.flags);
        out.push(0);
        out.push(0);
        out.push(0);
        out.push(0);
        out.push(0);
        assert(out@ =~= old(out)@ + Self::encode(self@));
    }

    /// The role that the client asks for.
    pub fn role(&self) -> (r: Role)
        ensures
            r == self@.role,
    {
        self.role
    }

    /// True when the client asks to keep the connection open after the request.
    pub fn keep_alive(&self) -> (r: bool)
        ensures
            r == Self::spec_keep_alive(self@),
    {
        self.flags % 2 == 1
    }

    /// The record that begins a request for `role`; `keep_alive` sets `KEEP_CONN`.
    pub fn new(role: Role, keep_alive: bool) -> (r: Self)
        ensures
            r@ == (BeginRequestView {
                role,
                flags: if keep_alive {
                    1u8
                } else {
                    0u8
                },
            }),
    {
        let flags: u8 = if keep_alive {
            1
        } else {
            0
        };
        BeginRequest { role, flags }
    }
}

/// A `BeginRequest` for the responder role is read back from its payload.
pub proof fn lemma_begin_request_round_trip(v: BeginRequestView)
    requires
        v.role == Role::Responder,
    ensures
        BeginRequest::decode(BeginRequest::encode(v)) == Ok::<BeginRequestView, Error>(v),
{
}

} // verus!
