//! Error text, as the application streams it.

use crate::error::Error;
use vstd::prelude::*;

verus! {

/// A FastCGI `FCGI_STDERR` record
///
/// Used to send error data from the FastCGI server to the client.
#[derive(Debug, Clone, PartialEq, Eq)]
pub struct Stderr(Vec<u8>);

impl View for Stderr {
    type V = Seq<u8>;

    closed spec fn view(&self) -> Seq<u8> {
        self.0@
    }
}

impl Default for Stderr {
    fn default() -> (r: Self)
        ensures
            r@ == Seq::<u8>::empty(),
    {
        Stderr(Vec::new())
    }
}

impl Stderr {
    /// Takes the payload as the record's bytes. Any payload will do.
    pub fn from_record_bytes(bytes: Vec<u8>) -> (r: Result<Self, Error>)
        ensures
            r matches Ok(x) && x@ == bytes@,
    {
        Ok(Stderr(bytes))
    }

    /// Appends the record's bytes.
    pub fn write_record_bytes(&self, out: &mut Vec<u8>)
        ensures
            final(out)@ == old(out)@ + self@,
    {
        out.extend_from_slice(self.0.as_slice());
    }

    /// The record that carries `bytes`.
    pub fn new(bytes: Vec<u8>) -> (r: Self)
        ensures
            r@ == bytes@,
    {
        Stderr(bytes)
    }

    /// The record's bytes.
    pub fn bytes(&self) -> (r: &[u8])
        ensures
            r@ == self@,
    {
        self.0.as_slice()
    }
}

} // verus!
