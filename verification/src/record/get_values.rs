//! The record by which a client asks for the application's settings.

use crate::error::Error;
use crate::record::pairs::{decode_pairs, from_record_bytes, insert, pairs_bytes, to_record_bytes, Pairs};
use vstd::prelude::*;

verus! {

/// A FastCGI `GET_VALUES` record
///
/// A FastCGI client can query specific variables within a FastCGI server using this
/// record type. Each variable is a name with an empty value.
#[derive(Debug, Clone, PartialEq, Eq)]
pub struct GetValues {
    names: Pairs,
}

impl View for GetValues {
    type V = Seq<(Seq<char>, Seq<char>)>;

    closed spec fn view(&self) -> Seq<(Seq<char>, Seq<char>)> {
        self.names@
    }
}

impl Default for GetValues {
    fn default() -> (r: Self)
        ensures
            r@ == Seq::<(Seq<char>, Seq<char>)>::empty(),
    {
        GetValues { names: Pairs::new() }
    }
}

impl GetValues {
    /// Reads the record from the bytes of its payload.
    pub fn from_record_bytes(bytes: Vec<u8>) -> (r: Result<Self, Error>)
        ensures
            match decode_pairs(bytes@, Seq::empty()) {
                Ok(v) => r matches Ok(x) && x@ == v,
                Err(e) => r matches Err(f) && f == e,
            },
    {
        match from_record_bytes(bytes) {
            Ok(names) => Ok(GetValues { names }),
            Err(e) => Err(e),
        }
    }

    /// Appends the record's payload.
    pub fn write_record_bytes(&self, out: &mut Vec<u8>)
        ensures
            final(out)@ == old(out)@ + pairs_bytes(self@),
    {
        to_record_bytes(&self.names, out);
    }

    /// The names of the variables asked for, in the record's order.
    pub fn get_variables(&self) -> (r: Vec<String>)
        ensures
            r@.len() == self@.len(),
            forall|i: int| 0 <= i < r@.len() ==> (#[trigger] r@[i])@ == self@[i].0,
    {
        let n: usize = self.names.len();
        let mut names: Vec<String> = Vec::new();
        let mut i: usize = 0;
        while i < n
            invariant
                n == self@.len(),
                i <= n,
                names@.len() == i,
                forall|j: int| 0 <= j < i ==> (#[trigger] names@[j])@ == self@[j].0,
            decreases n - i,
        {
            names.push(self.names.name_at(i).to_owned());
            i += 1;
        }
        names
    }

    /// The record with the variable `name` asked for as well.
    pub fn add(self, name: &str) -> (r: Self)
        ensures
            r@ == insert(self@, name@, Seq::<char>::empty()),
    {
        GetValues { names: self.names.with(name.to_owned(), String::new()) }
    }
}

} // verus!
