//! The request body, as the client streams it.

use crate::error::Error;
use vstd::prelude::*;

verus! {

/// A FastCGI `FCGI_STDIN` record
///
/// A record used to send arbitrary data from the FastCGI client to the server.
#[derive(Debug, Clone, PartialEq, Eq)]
pub struct Stdin(pub Vec<u8>);

impl View for Stdin {
    type V = Seq<u8>;

    open spec fn view(&self) -> Seq<u8> {
        self.0@
    }
}

impl Default for Stdin {
    fn default() -> (r: Self)
        ensures
            r@ == Seq::<u8>::empty(),
    {
        Stdin(Vec::new())
    }
}

impl Stdin {
    /// Takes the payload as the record's bytes. Any payload will do.
    pub fn from_record_bytes(bytes: Vec<u8>) -> (r: Result<Self, Error>)
        ensures
            r matches Ok(x) && x@ == bytes@,
    {
        Ok(Stdin(bytes))
    }

    /// Appends the record's bytes.
    pub fn write_record_bytes(&self, out: &mut Vec<u8>)
        ensures
            final(out)@ == old(out)@ + self@,
    {
        out.extend_from_slice(self.0.as_slice());
    }

    /// The record that carries `bytes`.
    pub fn new(bytes: Vec<u8>) -> (r: Self)
        ensures
            r@ == bytes@,
    {
        Stdin(bytes)
    }

    /// The record's bytes.
    pub fn bytes(&self) -> (r: &[u8])
        ensures
            r@ == self@,
    {
        self.0.as_slice()
    }

    /// Takes ownership of the data, leaving an empty `Vec` in its place.
    pub fn take(&mut self) -> (r: Vec<u8>)
        ensures
            r@ == old(self)@,
            final(self)@ == Seq::<u8>::empty(),
    {
        let mut taken: Vec<u8> = Vec::new();
        core::mem::swap(&mut self.0, &mut taken);
        taken
    }
}

} // verus!
