//! The record that answers a record type this application does not know.

use crate::error::Error;
use vstd::prelude::*;

verus! {

/// A FastCGI `FCGI_UNKNOWN_TYPE` record
///
/// The protocol sends it in answer to a management record of an unknown type. This
/// library sends it in answer to any record of an unknown type.
#[derive(Debug, Clone, Copy, PartialEq, Eq)]
pub struct UnknownType(u8);

impl View for UnknownType {
    type V = u8;

    closed spec fn view(&self) -> u8 {
        self.0
    }
}

impl UnknownType {
    /// The payload: the unknown type, seven reserved zero bytes.
    pub open spec fn encode(v: u8) -> Seq<u8> {
        seq![v, 0, 0, 0, 0, 0, 0, 0]
    }

    /// What an 8-byte payload stands for. The reserved bytes are not looked at.
    pub open spec fn decode(bytes: Seq<u8>) -> Result<u8, Error> {
        if bytes.len() != 8 {
            Err(Error::MalformedRecordPayload("UnknownType"))
        } else {
            Ok(bytes[0])
        }
    }

    /// Reads the record from the bytes of its payload.
    pub fn from_record_bytes(bytes: Vec<u8>) -> (r: Result<Self, Error>)
        ensures
            match Self::decode(bytes@) {
                Ok(v) => r matches Ok(x) && x@ == v,
                Err(e) => r matches Err(f) && f == e,
            },
    {
        if bytes.len() != 8 {
            return Err(Error::MalformedRecordPayload("UnknownType"));
        }
        Ok(UnknownType(bytes[0]))
    }

    /// Appends the record's payload.
    pub fn write_record_bytes(&self, out: &mut Vec<u8>)
        ensures
            final(out)@ == old(out)@ + Self::encode(self@),
    {
        out.push(self.0);
        out.push(0);
        out.push(0);
        out.push(0);
        out.push(0);
        out.push(0);
        out.push(0);
        out.push(0);
        assert(out@ =~= old(out)@ + Self::encode(self@));
    }

    /// The record that reports `type_id` as unknown.
    pub fn new(type_id: u8) -> (r: Self)
        ensures
            r@ == type_id,
    {
        UnknownType(type_id)
    }
}

} // verus!
