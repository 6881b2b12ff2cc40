//! Extra data for the filter role.

use crate::error::Error;
use vstd::prelude::*;

verus! {

/// A FastCGI `FCGI_DATA` record
///
/// Similar to `FCGI_STDIN`, but not part of the responder flow.
#[derive(Debug, Clone, PartialEq, Eq)]
pub struct Data(pub Vec<u8>);

impl View for Data {
    type V = Seq<u8>;

    open spec fn view(&self) -> Seq<u8> {
        self.0@
    }
}

impl Default for Data {
    fn default() -> (r: Self)
        ensures
            r@ == Seq::<u8>::empty(),
    {
        Data(Vec::new())
    }
}

impl Data {
    /// Takes the payload as the record's bytes. Any payload will do.
    pub fn from_record_bytes(bytes: Vec<u8>) -> (r: Result<Self, Error>)
        ensures
            r matches Ok(x) && x@ == bytes@,
    {
        Ok(Data(bytes))
    }

    /// Appends the record's bytes.
    pub fn write_record_bytes(&self, out: &mut Vec<u8>)
        ensures
            final(out)@ == old(out)@ + self@,
    {
        out.extend_from_slice(self.0.as_slice());
    }

    /// The record that carries `bytes`.
    pub fn new(bytes: Vec<u8>) -> (r: Self)
        ensures
            r@ == bytes@,
    {
        Data(bytes)
    }

    /// The record's bytes.
    pub fn bytes(&self) -> (r: &[u8])
        ensures
            r@ == self@,
    {
        self.0.as_slice()
    }
}

} // verus!
