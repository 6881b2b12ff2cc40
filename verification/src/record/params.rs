//! The record that carries the CGI meta-variables of a request.

use crate::error::Error;
use crate::record::pairs::{
    decode_pairs, from_record_bytes, has_name, insert, lookup, pairs_bytes, to_record_bytes, Pairs,
};
use vstd::prelude::*;

verus! {

/// A FastCGI `FCGI_PARAMS` record
///
/// Used for sending name-value pairs between FastCGI server and client
#[derive(Debug, Clone, PartialEq, Eq)]
pub struct Params(Pairs);

impl View for Params {
    type V = Seq<(Seq<char>, Seq<char>)>;

    closed spec fn view(&self) -> Seq<(Seq<char>, Seq<char>)> {
        self.0@
    }
}

impl Default for Params {
    fn default() -> (r: Self)
        ensures
            r@ == Seq::<(Seq<char>, Seq<char>)>::empty(),
    {
        Params(Pairs::new())
    }
}

impl Params {
    /// Reads the record from the bytes of its payload.
    pub fn from_record_bytes(bytes: Vec<u8>) -> (r: Result<Self, Error>)
        ensures
            match decode_pairs(bytes@, Seq::empty()) {
                Ok(v) => r matches Ok(x) && x@ == v,
                Err(e) => r matches Err(f) && f == e,
            },
    {
        match from_record_bytes(bytes) {
            Ok(pairs) => Ok(Params(pairs)),
            Err(e) => Err(e),
        }
    }

    /// Appends the record's payload.
    pub fn write_record_bytes(&self, out: &mut Vec<u8>)
        ensures
            final(out)@ == old(out)@ + pairs_bytes(self@),
    {
        to_record_bytes(&self.0, out);
    }

    /// The record with `key` set to `value`.
    pub fn add(self, key: &str, value: &str) -> (r: Self)
        ensures
            r@ == insert(self@, key@, value@),
    {
        Params(self.0.with(key.to_owned(), value.to_owned()))
    }

    /// The value of the variable `name`, if the record has it.
    pub fn get(&self, name: &str) -> (r: Option<&str>)
        ensures
            r is Some <==> has_name(self@, name@),
            r matches Some(v) ==> lookup(self@, name@) == Some(v@),
    {
        self.0.get(name)
    }

    /// Empties the record and returns the variables it held.
    pub fn take(&mut self) -> (r: Pairs)
        ensures
            r@ == old(self)@,
            final(self)@ == Seq::<(Seq<char>, Seq<char>)>::empty(),
    {
        self.0.take()
    }
}

} // verus!
