//! The record by which the application answers a `GetValues`.

use crate::error::Error;
use crate::record::pairs::{decode_pairs, from_record_bytes, insert, pairs_bytes, to_record_bytes, Pairs};
use vstd::prelude::*;

verus! {

/// A FastCGI `FCGI_GET_VALUES_RESULT` record
///
/// This is sent by a FastCGI server in response to a request with a `GetValues`
/// record.
#[derive(Debug, Clone, PartialEq, Eq)]
pub struct GetValuesResult {
    values: Pairs,
}

impl View for GetValuesResult {
    type V = Seq<(Seq<char>, Seq<char>)>;

    closed spec fn view(&self) -> Seq<(Seq<char>, Seq<char>)> {
        self.values@
    }
}

impl Default for GetValuesResult {
    fn default() -> (r: Self)
        ensures
            r@ == Seq::<(Seq<char>, Seq<char>)>::empty(),
    {
        GetValuesResult { values: Pairs::new() }
    }
}

impl GetValuesResult {
    /// Reads the record from the bytes of its payload.
    pub fn from_record_bytes(bytes: Vec<u8>) -> (r: Result<Self, Error>)
        ensures
            match decode_pairs(bytes@, Seq::empty()) {
                Ok(v) => r matches Ok(x) && x@ == v,
                Err(e) => r matches Err(f) && f == e,
            },
    {
        match from_record_bytes(bytes) {
            Ok(values) => Ok(GetValuesResult { values }),
            Err(e) => Err(e),
        }
    }

    /// Appends the record's payload.
    pub fn write_record_bytes(&self, out: &mut Vec<u8>)
        ensures
            final(out)@ == old(out)@ + pairs_bytes(self@),
    {
        to_record_bytes(&self.values, out);
    }

    /// The record with the variable `key` answered by `value`.
    pub fn add(self, key: &str, value: &str) -> (r: Self)
        ensures
            r@ == insert(self@, key@, value@),
    {
        GetValuesResult { values: self.values.with(key.to_owned(), value.to_owned()) }
    }
}

} // verus!
