//! The record that aborts a request.

use crate::error::Error;
use vstd::prelude::*;

verus! {

/// A FastCGI `FCGI_ABORT_REQUEST` record
///
/// A FastCGI client may send this to abort an in-flight request.
///
/// This struct has no members, so constructing it is as simple as naming the type.
#[derive(Debug, Clone, PartialEq, Eq)]
pub struct AbortRequest;

impl AbortRequest {
    /// What a payload stands for: the record has none.
    pub open spec fn decode(bytes: Seq<u8>) -> Result<(), Error> {
        if bytes.len() != 0 {
            Err(Error::MalformedRecordPayload("AbortRequest"))
        } else {
            Ok(())
        }
    }

    /// Reads the record from the bytes of its payload.
    pub fn from_record_bytes(bytes: Vec<u8>) -> (r: Result<Self, Error>)
        ensures
            match Self::decode(bytes@) {
                Ok(v) => r is Ok,
                Err(e) => r matches Err(f) && f == e,
            },
    {
        if bytes.len() != 0 {
            return Err(Error::MalformedRecordPayload("AbortRequest"));
        }
        Ok(AbortRequest)
    }

    /// Appends the payload, which is empty.
    pub fn write_record_bytes(&self, out: &mut Vec<u8>)
        ensures
            final(out)@ == old(out)@,
    {
    }
}

} // verus!
