//! The roles that a FastCGI application can be asked to play.

use crate::encoding::{be16, be16_bytes, push_u16_be, u16_from_be};
use crate::error::Error;
use vstd::prelude::*;

verus! {

/// A FastCGI role. Only the responder role is served.
#[derive(Debug, Clone, Copy, PartialEq, Eq, Structural)]
pub enum Role {
    /// The application receives all the information associated with an HTTP request
    /// and generates an HTTP response.
    Responder,
    /// The application receives all the information associated with an HTTP request
    /// and generates an authorized/unauthorized decision.
    Authorizer,
    /// The application receives all the information associated with an HTTP request,
    /// plus an extra stream of data from a file stored on the web server, and
    /// generates a filtered version of the data stream as an HTTP response.
    Filter,
}

impl Role {
    /// The number that stands for the role on the wire.
    pub open spec fn spec_id(self) -> u16 {
        match self {
            Role::Responder => 1,
            Role::Authorizer => 2,
            Role::Filter => 3,
        }
    }

    /// The role that `id` stands for.
    pub open spec fn from_id(id: int) -> Result<Role, Error> {
        if id == 1 {
            Ok(Role::Responder)
        } else if id == 2 {
            Ok(Role::Authorizer)
        } else if id == 3 {
            Ok(Role::Filter)
        } else {
            Err(Error::UnsupportedRole(id as u16))
        }
    }

    /// The number that stands for it on the wire.
    pub fn id(&self) -> (r: u16)
        ensures
            r == self.spec_id(),
    {
        match self {
            Role::Responder => 1,
            Role::Authorizer => 2,
            Role::Filter => 3,
        }
    }

    /// Reads a role from its two bytes, most significant first.
    pub fn from_record_bytes(bytes: [u8; 2]) -> (r: Result<Role, Error>)
        ensures
            r == Role::from_id(be16(bytes[0], bytes[1])),
    {
        let id: u16 = u16_from_be(bytes[0], bytes[1]);
        if id == 1 {
            Ok(Role::Responder)
        } else if id == 2 {
            Ok(Role::Authorizer)
        } else if id == 3 {
            Ok(Role::Filter)
        } else {
            Err(Error::UnsupportedRole(id))
        }
    }

    /// Appends the two bytes of the role's number, most significant first.
    pub fn as_record_bytes(&self, out: &mut Vec<u8>)
        ensures
            final(out)@ == old(out)@ + be16_bytes(self.spec_id()),
    {
        push_u16_be(out, self.id());
    }

    /// True for the one role that is served.
    pub fn supported(&self) -> (r: bool)
        ensures
            r == (*self == Role::Responder),
    {
        *self == Role::Responder
    }
}

} // verus!
