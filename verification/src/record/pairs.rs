//! Name-value pairs: the ordered map that carries them and their wire encoding.
//!
//! FastCGI transmits a pair as the length of the name, the length of the value, the
//! name, then the value. A length of 127 bytes or less takes one byte; a longer one
//! takes four, with the high bit of the first byte set.

use crate::encoding::{
    be32, be32_bytes, bytes_eq, lemma_be32_round_trip, lemma_utf8_injective, string_from_utf8,
    u32_from_be, utf8,
};
use crate::error::Error;
use vstd::prelude::*;
use vstd::slice::{slice_subrange, slice_to_vec};
use vstd::string::*;
use vstd::utf8::*;

verus! {

/// True when some pair of `s` is named `name`.
pub open spec fn has_name(s: Seq<(Seq<char>, Seq<char>)>, name: Seq<char>) -> bool {
    exists|i: int| 0 <= i < s.len() && (#[trigger] s[i]).0 == name
}

/// The place of a pair named `name` in `s`.
pub open spec fn index_of(s: Seq<(Seq<char>, Seq<char>)>, name: Seq<char>) -> int {
    choose|i: int| 0 <= i < s.len() && (#[trigger] s[i]).0 == name
}

/// True when no two pairs of `s` share a name.
pub open spec fn distinct(s: Seq<(Seq<char>, Seq<char>)>) -> bool {
    forall|i: int, j: int|
        0 <= i < j < s.len() ==> (#[trigger] s[i]).0 != (#[trigger] s[j]).0
}

/// The value that `s` holds for `name`.
pub open spec fn lookup(s: Seq<(Seq<char>, Seq<char>)>, name: Seq<char>) -> Option<Seq<char>> {
    if has_name(s, name) {
        Some(s[index_of(s, name)].1)
    } else {
        None
    }
}

/// `s` with `name` set to `value`: in place where `s` has the name, at the end
/// where it has not.
pub open spec fn insert(s: Seq<(Seq<char>, Seq<char>)>, name: Seq<char>, value: Seq<char>) -> Seq<
    (Seq<char>, Seq<char>),
> {
    if has_name(s, name) {
        s.update(index_of(s, name), (name, value))
    } else {
        s.push((name, value))
    }
}

/// `s` without the pair named `name`.
pub open spec fn without(s: Seq<(Seq<char>, Seq<char>)>, name: Seq<char>) -> Seq<
    (Seq<char>, Seq<char>),
> {
    if has_name(s, name) {
        s.remove(index_of(s, name))
    } else {
        s
    }
}

/// In a sequence of distinct names, a pair with the name sits at the index that
/// `index_of` picks.
pub proof fn lemma_index_of(s: Seq<(Seq<char>, Seq<char>)>, name: Seq<char>, i: int)
    requires
        distinct(s),
        0 <= i < s.len(),
        s[i].0 == name,
    ensures
        has_name(s, name),
        index_of(s, name) == i,
{
}

/// Setting a name keeps the names distinct.
pub proof fn lemma_insert_distinct(s: Seq<(Seq<char>, Seq<char>)>, name: Seq<char>, value: Seq<char>)
    requires
        distinct(s),
    ensures
        distinct(insert(s, name, value)),
        lookup(insert(s, name, value), name) == Some(value),
{
    let t = insert(s, name, value);
    if has_name(s, name) {
        let k = index_of(s, name);
        assert(t[k].0 == name);
        assert forall|i: int, j: int| 0 <= i < j < t.len() implies (#[trigger] t[i]).0 != (
        #[trigger] t[j]).0 by {
            assert(s[i].0 != s[j].0);
        }
        lemma_index_of(t, name, k);
    } else {
        let k = s.len() as int;
        assert(t[k].0 == name);
        assert forall|i: int, j: int| 0 <= i < j < t.len() implies (#[trigger] t[i]).0 != (
        #[trigger] t[j]).0 by {
            if j < s.len() {
                assert(s[i].0 != s[j].0);
            } else {
                assert(s[i].0 != name);
            }
        }
        lemma_index_of(t, name, k);
    }
}

/// Taking a name out leaves the other names as they were, each with its value.
pub proof fn lemma_without_other(s: Seq<(Seq<char>, Seq<char>)>, gone: Seq<char>, name: Seq<char>)
    requires
        distinct(s),
        gone != name,
    ensures
        distinct(without(s, gone)),
        has_name(without(s, gone), name) == has_name(s, name),
        lookup(without(s, gone), name) == lookup(s, name),
{
    let t = without(s, gone);
    if has_name(s, gone) {
        let k = index_of(s, gone);
        assert forall|a: int, b: int| 0 <= a < b < t.len() implies (#[trigger] t[a]).0 != (
        #[trigger] t[b]).0 by {
            let a0 = if a < k { a } else { a + 1 };
            let b0 = if b < k { b } else { b + 1 };
            assert(s[a0].0 != s[b0].0);
        }
        if has_name(s, name) {
            let i = index_of(s, name);
            let j = if i < k { i } else { i - 1 };
            assert(t[j] == s[i]);
            lemma_index_of(t, name, j);
        }
        if has_name(t, name) {
            let j = index_of(t, name);
            let i = if j < k { j } else { j + 1 };
            assert(s[i] == t[j]);
            lemma_index_of(s, name, i);
        }
    }
}

/// The order of strings: byte by byte, a proper prefix before what it is a prefix
/// of.
pub open spec fn bytes_before(a: Seq<u8>, b: Seq<u8>) -> bool
    decreases a.len(),
{
    if b.len() == 0 {
        false
    } else if a.len() == 0 {
        true
    } else if a[0] != b[0] {
        a[0] < b[0]
    } else {
        bytes_before(a.drop_first(), b.drop_first())
    }
}

/// The number of pairs at the start of `s` whose names come before `name`.
pub open spec fn rank(s: Seq<(Seq<char>, Seq<char>)>, name: Seq<char>) -> int
    decreases s.len(),
{
    if s.len() == 0 || !bytes_before(utf8(s[0].0), utf8(name)) {
        0
    } else {
        1 + rank(s.drop_first(), name)
    }
}

/// `s` with `name` set to `value`: in place where `s` has the name, and else
/// behind the pairs at the start of `s` whose names come before it. On names in
/// order, this keeps the order.
pub open spec fn place(s: Seq<(Seq<char>, Seq<char>)>, name: Seq<char>, value: Seq<char>) -> Seq<
    (Seq<char>, Seq<char>),
> {
    if has_name(s, name) {
        s.update(index_of(s, name), (name, value))
    } else {
        s.insert(rank(s, name), (name, value))
    }
}

/// Where the first `i` names of `s` come before `name` and the next one does not,
/// `i` is the rank of `name`.
pub proof fn lemma_rank(s: Seq<(Seq<char>, Seq<char>)>, name: Seq<char>, i: int)
    requires
        0 <= i <= s.len(),
        forall|j: int| 0 <= j < i ==> bytes_before(utf8((#[trigger] s[j]).0), utf8(name)),
        i < s.len() ==> !bytes_before(utf8(s[i].0), utf8(name)),
    ensures
        rank(s, name) == i,
    decreases i,
{
    if i > 0 {
        let t = s.drop_first();
        assert(bytes_before(utf8(s[0].0), utf8(name)));
        assert forall|j: int| 0 <= j < i - 1 implies bytes_before(
            utf8((#[trigger] t[j]).0),
            utf8(name),
        ) by {
            assert(t[j] == s[j + 1]);
        }
        if i - 1 < t.len() {
            assert(t[i - 1] == s[i]);
        }
        lemma_rank(t, name, i - 1);
    }
}

/// Placing a name keeps the names distinct.
pub proof fn lemma_place_distinct(s: Seq<(Seq<char>, Seq<char>)>, name: Seq<char>, value: Seq<char>)
    requires
        distinct(s),
        0 <= rank(s, name) <= s.len(),
    ensures
        distinct(place(s, name, value)),
{
    let t = place(s, name, value);
    if has_name(s, name) {
        lemma_insert_distinct(s, name, value);
    } else {
        let r = rank(s, name);
        assert forall|i: int, j: int| 0 <= i < j < t.len() implies (#[trigger] t[i]).0 != (
        #[trigger] t[j]).0 by {
            let i0 = if i < r { i } else { i - 1 };
            let j0 = if j < r { j } else { j - 1 };
            if i == r {
                assert(s[j0].0 != name);
            } else if j == r {
                assert(s[i0].0 != name);
            } else {
                assert(s[i0].0 != s[j0].0);
            }
        }
    }
}

/// True when the names of `s` stand in the order of strings, each before the next.
pub open spec fn sorted(s: Seq<(Seq<char>, Seq<char>)>) -> bool {
    forall|i: int, j: int|
        0 <= i < j < s.len() ==> bytes_before(utf8((#[trigger] s[i]).0), utf8((#[trigger] s[j]).0))
}

/// The order of strings is transitive.
pub proof fn lemma_bytes_before_transitive(a: Seq<u8>, b: Seq<u8>, c: Seq<u8>)
    requires
        bytes_before(a, b),
        bytes_before(b, c),
    ensures
        bytes_before(a, c),
    decreases a.len(),
{
    if a.len() > 0 && a[0] == b[0] && b[0] == c[0] {
        lemma_bytes_before_transitive(a.drop_first(), b.drop_first(), c.drop_first());
    }
}

/// Of two different strings, one comes before the other; no string comes before
/// itself.
pub proof fn lemma_bytes_before_total(a: Seq<u8>, b: Seq<u8>)
    ensures
        a != b ==> bytes_before(a, b) || bytes_before(b, a),
        !bytes_before(a, a),
    decreases a.len(),
{
    if a.len() > 0 {
        lemma_bytes_before_total(a.drop_first(), a.drop_first());
    }
    if a.len() > 0 && b.len() > 0 && a[0] == b[0] {
        lemma_bytes_before_total(a.drop_first(), b.drop_first());
        if a.drop_first() == b.drop_first() {
            assert(a =~= seq![a[0]] + a.drop_first());
            assert(b =~= seq![b[0]] + b.drop_first());
        }
    } else if a.len() == 0 && b.len() == 0 {
        assert(a =~= b);
    }
}

/// The names that the rank of `name` counts come before `name`.
pub proof fn lemma_rank_before(s: Seq<(Seq<char>, Seq<char>)>, name: Seq<char>)
    ensures
        0 <= rank(s, name) <= s.len(),
        forall|j: int|
            0 <= j < rank(s, name) ==> bytes_before(utf8((#[trigger] s[j]).0), utf8(name)),
        rank(s, name) < s.len() ==> !bytes_before(utf8(s[rank(s, name)].0), utf8(name)),
    decreases s.len(),
{
    if s.len() > 0 && bytes_before(utf8(s[0].0), utf8(name)) {
        let t = s.drop_first();
        lemma_rank_before(t, name);
        assert forall|j: int| 0 <= j < rank(s, name) implies bytes_before(
            utf8((#[trigger] s[j]).0),
            utf8(name),
        ) by {
            if j > 0 {
                assert(s[j] == t[j - 1]);
            }
        }
        if rank(s, name) < s.len() {
            assert(s[rank(s, name)] == t[rank(t, name)]);
        }
    }
}

/// Names in order have no name twice.
pub proof fn lemma_sorted_distinct(s: Seq<(Seq<char>, Seq<char>)>)
    requires
        sorted(s),
    ensures
        distinct(s),
{
    assert forall|i: int, j: int| 0 <= i < j < s.len() implies (#[trigger] s[i]).0 != (
    #[trigger] s[j]).0 by {
        lemma_bytes_before_total(utf8(s[i].0), utf8(s[i].0));
    }
}

/// Placing a name among names in order leaves the names in order.
pub proof fn lemma_place_sorted(s: Seq<(Seq<char>, Seq<char>)>, name: Seq<char>, value: Seq<char>)
    requires
        sorted(s),
    ensures
        sorted(place(s, name, value)),
{
    let t = place(s, name, value);
    lemma_sorted_distinct(s);
    if has_name(s, name) {
        let k = index_of(s, name);
        assert forall|i: int, j: int| 0 <= i < j < t.len() implies bytes_before(
            utf8((#[trigger] t[i]).0),
            utf8((#[trigger] t[j]).0),
        ) by {
            assert(t[i].0 == s[i].0 && t[j].0 == s[j].0);
        }
    } else {
        let r = rank(s, name);
        lemma_rank_before(s, name);
        assert forall|i: int, j: int| 0 <= i < j < t.len() implies bytes_before(
            utf8((#[trigger] t[i]).0),
            utf8((#[trigger] t[j]).0),
        ) by {
            let i0 = if i < r { i } else { i - 1 };
            let j0 = if j < r { j } else { j - 1 };
            if j == r {
                assert(t[i] == s[i0]);
            } else if i == r {
                assert(t[j] == s[j0]);
                assert(s[r].0 != name);
                lemma_bytes_before_total(utf8(name), utf8(s[r].0));
                if utf8(name) == utf8(s[r].0) {
                    lemma_utf8_injective(name, s[r].0);
                }
                if j0 > r {
                    assert(bytes_before(utf8(s[r].0), utf8(s[j0].0)));
                    lemma_bytes_before_transitive(utf8(name), utf8(s[r].0), utf8(s[j0].0));
                }
            } else {
                assert(t[i] == s[i0] && t[j] == s[j0]);
            }
        }
    }
}

/// Compares two byte strings in the order of strings.
pub fn bytes_lt(a: &[u8], b: &[u8]) -> (r: bool)
    ensures
        r == bytes_before(a@, b@),
{
    let mut i: usize = 0;
    assert(a@.skip(0) =~= a@ && b@.skip(0) =~= b@);
    while i < a.len() && i < b.len() && a[i] == b[i]
        invariant
            i <= a@.len(),
            i <= b@.len(),
            bytes_before(a@, b@) == bytes_before(a@.skip(i as int), b@.skip(i as int)),
        decreases a@.len() - i,
    {
        proof {
            let x = a@.skip(i as int);
            let y = b@.skip(i as int);
            assert(x[0] == y[0]);
            assert(x.drop_first() =~= a@.skip(i + 1));
            assert(y.drop_first() =~= b@.skip(i + 1));
        }
        i += 1;
    }
    proof {
        let x = a@.skip(i as int);
        let y = b@.skip(i as int);
        if i < a.len() && i < b.len() {
            assert(x[0] == a@[i as int] && y[0] == b@[i as int]);
        }
    }
    if i == b.len() {
        false
    } else if i == a.len() {
        true
    } else {
        a[i] < b[i]
    }
}

/// An ordered map from names to values. A name occurs at most once; pairs keep the
/// order in which their names were first set.
#[derive(Debug, PartialEq, Eq)]
pub struct Pairs {
    entries: Vec<(String, String)>,
}

impl View for Pairs {
    type V = Seq<(Seq<char>, Seq<char>)>;

    closed spec fn view(&self) -> Seq<(Seq<char>, Seq<char>)> {
        pairs_of(self.entries@)
    }
}

/// What a list of entries holds, as plain sequences.
spec fn pairs_of(entries: Seq<(String, String)>) -> Seq<(Seq<char>, Seq<char>)> {
    Seq::new(entries.len(), |i: int| (entries[i].0@, entries[i].1@))
}

impl Clone for Pairs {
    fn clone(&self) -> (r: Self)
        ensures
            r@ == self@,
    {
        proof {
            use_type_invariant(self);
        }
        let mut entries: Vec<(String, String)> = Vec::new();
        let mut i: usize = 0;
        while i < self.entries.len()
            invariant
                i <= self.entries@.len(),
                entries@.len() == i,
                forall|j: int| 0 <= j < i ==> entries@[j] == self.entries@[j],
            decreases self.entries@.len() - i,
        {
            let name = self.entries[i].0.clone();
            let value = self.entries[i].1.clone();
            entries.push((name, value));
            i += 1;
        }
        assert(entries@ =~= self.entries@);
        Pairs { entries }
    }
}

impl Default for Pairs {
    fn default() -> (r: Self)
        ensures
            r@ == Seq::<(Seq<char>, Seq<char>)>::empty(),
    {
        Pairs::new()
    }
}

impl Pairs {
    #[verifier::type_invariant]
    spec fn inv(&self) -> bool {
        distinct(self@)
    }

    /// The empty map.
    pub fn new() -> (r: Self)
        ensures
            r@ == Seq::<(Seq<char>, Seq<char>)>::empty(),
    {
        let entries: Vec<(String, String)> = Vec::new();
        assert(pairs_of(entries@) =~= Seq::<(Seq<char>, Seq<char>)>::empty());
        Pairs { entries }
    }

    /// The number of pairs. No two of them share a name.
    pub fn len(&self) -> (r: usize)
        ensures
            r == self@.len(),
            distinct(self@),
    {
        proof {
            use_type_invariant(self);
        }
        self.entries.len()
    }

    /// The name of the pair at `i`.
    pub fn name_at(&self, i: usize) -> (r: &str)
        requires
            i < self@.len(),
        ensures
            r@ == self@[i as int].0,
    {
        self.entries[i].0.as_str()
    }

    /// The value of the pair at `i`.
    pub fn value_at(&self, i: usize) -> (r: &str)
        requires
            i < self@.len(),
        ensures
            r@ == self@[i as int].1,
    {
        self.entries[i].1.as_str()
    }

    /// The place of the pair named `name`, if there is one.
    pub fn find(&self, name: &str) -> (r: Option<usize>)
        ensures
            r is Some <==> has_name(self@, name@),
            r matches Some(i) ==> i == index_of(self@, name@) && i < self@.len() && self@[i as int].0
                == name@,
    {
        proof {
            use_type_invariant(self);
        }
        let mut i: usize = 0;
        while i < self.entries.len()
            invariant
                i <= self.entries@.len(),
                self.entries@.len() == self@.len(),
                distinct(self@),
                forall|j: int| 0 <= j < i ==> (#[trigger] self@[j]).0 != name@,
            decreases self.entries@.len() - i,
        {
            let found = bytes_eq(self.entries[i].0.as_str().as_bytes(), name.as_bytes());
            if found {
                proof {
                    lemma_utf8_injective(self@[i as int].0, name@);
                    lemma_index_of(self@, name@, i as int);
                }
                return Some(i);
            }
            i += 1;
        }
        None
    }

    /// The value set for `name`, if any.
    pub fn get(&self, name: &str) -> (r: Option<&str>)
        ensures
            r is Some <==> has_name(self@, name@),
            r matches Some(v) ==> lookup(self@, name@) == Some(v@),
    {
        match self.find(name) {
            Some(i) => Some(self.entries[i].1.as_str()),
            None => None,
        }
    }

    /// The map with `name` set to `value`. A name that the map already has keeps its
    /// place.
    pub fn with(self, name: String, value: String) -> (r: Pairs)
        ensures
            r@ == insert(self@, name@, value@),
    {
        proof {
            use_type_invariant(&self);
            lemma_insert_distinct(self@, name@, value@);
        }
        let found = self.find(name.as_str());
        let ghost before = self@;
        let mut entries = self.entries;
        match found {
            Some(i) => {
                entries.set(i, (name, value));
            },
            None => {
                entries.push((name, value));
            },
        }
        assert(pairs_of(entries@) =~= insert(before, name@, value@));
        Pairs { entries }
    }

    /// The map with `name` set to `value`. A name that the map already has keeps its
    /// place; a new name goes behind the names at the start that come before it, so
    /// that names in order stay in order.
    pub fn place(self, name: String, value: String) -> (r: Pairs)
        ensures
            r@ == place(self@, name@, value@),
            sorted(self@) ==> sorted(r@),
    {
        proof {
            use_type_invariant(&self);
            if sorted(self@) {
                lemma_place_sorted(self@, name@, value@);
            }
            lemma_rank_before(self@, name@);
            lemma_place_distinct(self@, name@, value@);
        }
        let found = self.find(name.as_str());
        let ghost before = self@;
        let mut entries = self.entries;
        match found {
            Some(i) => {
                entries.set(i, (name, value));
            },
            None => {
                let mut i: usize = 0;
                while i < entries.len() && bytes_lt(
                    entries[i].0.as_str().as_bytes(),
                    name.as_str().as_bytes(),
                )
                    invariant
                        i <= entries@.len(),
                        pairs_of(entries@) == before,
                        forall|j: int|
                            0 <= j < i ==> bytes_before(
                                utf8((#[trigger] before[j]).0),
                                utf8(name@),
                            ),
                    decreases entries@.len() - i,
                {
                    i += 1;
                }
                proof {
                    lemma_rank(before, name@, i as int);
                }
                entries.insert(i, (name, value));
            },
        }
        assert(pairs_of(entries@) =~= place(before, name@, value@));
        Pairs { entries }
    }

    /// Sets `name` to `value`. A name that the map already has keeps its place.
    pub fn insert(&mut self, name: String, value: String)
        ensures
            final(self)@ == insert(old(self)@, name@, value@),
    {
        let held = self.take();
        *self = held.with(name, value);
    }

    /// Takes `name` out of the map and returns the value it had.
    pub fn remove(&mut self, name: &str) -> (r: Option<String>)
        ensures
            distinct(old(self)@),
            final(self)@ == without(old(self)@, name@),
            r is Some <==> has_name(old(self)@, name@),
            r matches Some(v) ==> lookup(old(self)@, name@) == Some(v@),
    {
        proof {
            use_type_invariant(&*self);
        }
        match self.find(name) {
            Some(i) => {
                let held = self.take();
                let ghost s = held@;
                let mut entries = held.entries;
                let entry = entries.remove(i);
                assert(pairs_of(entries@) =~= s.remove(i as int));
                assert(distinct(pairs_of(entries@))) by {
                    let t = pairs_of(entries@);
                    assert forall|a: int, b: int| 0 <= a < b < t.len() implies (#[trigger] t[a]).0
                        != (#[trigger] t[b]).0 by {
                        let a0 = if a < i { a } else { a + 1 };
                        let b0 = if b < i { b } else { b + 1 };
                        assert(s[a0].0 != s[b0].0);
                    }
                }
                *self = Pairs { entries };
                Some(entry.1)
            },
            None => None,
        }
    }

    /// Empties the map and returns what it held.
    pub fn take(&mut self) -> (r: Pairs)
        ensures
            r@ == old(self)@,
            final(self)@ == Seq::<(Seq<char>, Seq<char>)>::empty(),
    {
        let mut taken = Pairs::new();
        core::mem::swap(self, &mut taken);
        taken
    }
}

/// The wire form of a length: one byte up to 127, else its low 32 bits in four
/// bytes, most significant first, with the high bit of the first byte set.
#[verifier::opaque]
pub open spec fn pair_len_bytes(n: nat) -> Seq<u8> {
    if n <= 127 {
        seq![n as u8]
    } else {
        let b = be32_bytes((n % 0x1_0000_0000) as u32);
        seq![
            if b[0] < 128 {
                (b[0] + 128) as u8
            } else {
                b[0]
            },
            b[1],
            b[2],
            b[3],
        ]
    }
}

/// The length that `bytes` starts with, and how many bytes it takes up; nothing
/// where `bytes` ends before the length does.
#[verifier::opaque]
pub open spec fn parse_pair_len(bytes: Seq<u8>) -> Option<(int, int)> {
    if bytes.len() == 0 {
        None
    } else if bytes[0] <= 127 {
        Some((bytes[0] as int, 1))
    } else if bytes.len() < 4 {
        None
    } else {
        Some((be32((bytes[0] - 128) as u8, bytes[1], bytes[2], bytes[3]), 4))
    }
}

/// The wire form of one pair.
pub open spec fn pair_bytes(name: Seq<char>, value: Seq<char>) -> Seq<u8> {
    pair_len_bytes(utf8(name).len()) + pair_len_bytes(utf8(value).len()) + utf8(name) + utf8(
        value,
    )
}

/// The wire form of a sequence of pairs: one after the other, in order.
pub open spec fn pairs_bytes(s: Seq<(Seq<char>, Seq<char>)>) -> Seq<u8>
    decreases s.len(),
{
    if s.len() == 0 {
        Seq::empty()
    } else {
        pair_bytes(s[0].0, s[0].1) + pairs_bytes(s.drop_first())
    }
}

/// The pair that `bytes` starts with, and how many bytes it takes up.
pub open spec fn first_pair(bytes: Seq<u8>) -> Result<(Seq<char>, Seq<char>, int), Error> {
    match parse_pair_len(bytes) {
        None => Err(Error::MalformedRecordPayload("Params")),
        Some((name_len, used)) => match parse_pair_len(bytes.skip(used)) {
            None => Err(Error::MalformedRecordPayload("Params")),
            Some((value_len, more)) => {
                let start = used + more;
                let middle = start + name_len;
                let end = middle + value_len;
                if bytes.len() < end {
                    Err(Error::MalformedRecordPayload("Params"))
                } else if !valid_utf8(bytes.subrange(start, middle)) {
                    Err(Error::InvalidUtf8KeyValuePair)
                } else if !valid_utf8(bytes.subrange(middle, end)) {
                    Err(Error::InvalidUtf8KeyValuePair)
                } else {
                    Ok(
                        (
                            decode_utf8(bytes.subrange(start, middle)),
                            decode_utf8(bytes.subrange(middle, end)),
                            end,
                        ),
                    )
                }
            },
        },
    }
}

/// The map that results from setting, on top of `acc`, each pair that `bytes`
/// holds, in order; or the error of the first pair that cannot be read.
pub open spec fn decode_pairs(bytes: Seq<u8>, acc: Seq<(Seq<char>, Seq<char>)>) -> Result<
    Seq<(Seq<char>, Seq<char>)>,
    Error,
>
    decreases bytes.len(),
{
    if bytes.len() == 0 {
        Ok(acc)
    } else {
        match first_pair(bytes) {
            Err(e) => Err(e),
            Ok((name, value, used)) => if 0 < used <= bytes.len() {
                decode_pairs(bytes.skip(used), insert(acc, name, value))
            } else {
                Err(Error::MalformedRecordPayload("Params"))
            },
        }
    }
}

/// True when each name and each value of `s` is short enough for its length to be
/// written on the wire.
pub open spec fn lengths_fit(s: Seq<(Seq<char>, Seq<char>)>) -> bool {
    forall|i: int|
        0 <= i < s.len() ==> utf8((#[trigger] s[i]).0).len() < 0x8000_0000 && utf8(s[i].1).len()
            < 0x8000_0000
}

/// A length of at most 127 is written in one byte; a longer one in four, the first
/// of which has its high bit set.
pub proof fn lemma_pair_len_width(n: nat)
    ensures
        n <= 127 ==> pair_len_bytes(n).len() == 1 && pair_len_bytes(n)[0] == n,
        n > 127 ==> pair_len_bytes(n).len() == 4 && pair_len_bytes(n)[0] >= 128,
{
    reveal(pair_len_bytes);
}

/// A length below 2^31 is read back as it was written, whatever follows it.
pub proof fn lemma_pair_len_round_trip(n: nat, rest: Seq<u8>)
    requires
        n < 0x8000_0000,
    ensures
        parse_pair_len(pair_len_bytes(n) + rest) == Some(
            (n as int, pair_len_bytes(n).len() as int),
        ),
{
    reveal(pair_len_bytes);
    reveal(parse_pair_len);
    let b = pair_len_bytes(n) + rest;
    if n <= 127 {
        assert(b[0] == n);
    } else {
        let x = n as u32;
        let w = be32_bytes(x);
        lemma_be32_round_trip(x);
        assert(w[0] < 128);
        assert(b[0] == w[0] + 128);
        assert(b[1] == w[1]);
        assert(b[2] == w[2]);
        assert(b[3] == w[3]);
    }
}

/// A pair is read back as it was written, whatever follows it.
pub proof fn lemma_first_pair_round_trip(name: Seq<char>, value: Seq<char>, rest: Seq<u8>)
    requires
        utf8(name).len() < 0x8000_0000,
        utf8(value).len() < 0x8000_0000,
    ensures
        first_pair(pair_bytes(name, value) + rest) == Ok::<(Seq<char>, Seq<char>, int), Error>(
            (name, value, pair_bytes(name, value).len() as int),
        ),
        pair_bytes(name, value).len() > 0,
{
    let n = utf8(name);
    let v = utf8(value);
    let ln = pair_len_bytes(n.len());
    let lv = pair_len_bytes(v.len());
    let bytes = pair_bytes(name, value) + rest;
    lemma_pair_len_width(n.len());
    lemma_pair_len_width(v.len());
    assert(bytes =~= ln + (lv + n + v + rest));
    lemma_pair_len_round_trip(n.len(), lv + n + v + rest);
    assert(bytes.skip(ln.len() as int) =~= lv + (n + v + rest));
    lemma_pair_len_round_trip(v.len(), n + v + rest);
    let start = (ln.len() + lv.len()) as int;
    let middle = start + n.len();
    let end = middle + v.len();
    assert(bytes.subrange(start, middle) =~= n);
    assert(bytes.subrange(middle, end) =~= v);
    encode_utf8_valid_utf8(name);
    encode_utf8_valid_utf8(value);
    encode_utf8_decode_utf8(name);
    encode_utf8_decode_utf8(value);
}

/// The wire form of a sequence with one more pair at its end.
pub proof fn lemma_pairs_bytes_push(s: Seq<(Seq<char>, Seq<char>)>, name: Seq<char>, value: Seq<char>)
    ensures
        pairs_bytes(s.push((name, value))) == pairs_bytes(s) + pair_bytes(name, value),
    decreases s.len(),
{
    let t = s.push((name, value));
    let c = pair_bytes(name, value);
    if s.len() == 0 {
        assert(t.drop_first().len() == 0);
        assert(pairs_bytes(t.drop_first()) == Seq::<u8>::empty());
        assert(pairs_bytes(t) == c + Seq::<u8>::empty());
        assert(pairs_bytes(s) == Seq::<u8>::empty());
        assert(c + Seq::<u8>::empty() =~= Seq::<u8>::empty() + c);
    } else {
        let a = pair_bytes(s[0].0, s[0].1);
        let b = pairs_bytes(s.drop_first());
        assert(t[0] == s[0]);
        assert(t.drop_first() =~= s.drop_first().push((name, value)));
        lemma_pairs_bytes_push(s.drop_first(), name, value);
        assert(pairs_bytes(t) == a + (b + c));
        assert(pairs_bytes(s) == a + b);
        assert(a + (b + c) =~= (a + b) + c);
    }
}

/// Pairs with distinct names and lengths that fit are read back, after any map
/// `acc` that shares no name with them, as they were written.
pub proof fn lemma_decode_pairs_after(acc: Seq<(Seq<char>, Seq<char>)>, s: Seq<(Seq<char>, Seq<char>)>)
    requires
        distinct(acc + s),
        lengths_fit(s),
    ensures
        decode_pairs(pairs_bytes(s), acc) == Ok::<Seq<(Seq<char>, Seq<char>)>, Error>(acc + s),
    decreases s.len(),
{
    if s.len() == 0 {
        assert(acc + s =~= acc);
    } else {
        let name = s[0].0;
        let value = s[0].1;
        let rest = s.drop_first();
        let bytes = pairs_bytes(s);
        let used = pair_bytes(name, value).len() as int;
        lemma_first_pair_round_trip(name, value, pairs_bytes(rest));
        assert(bytes.skip(used) =~= pairs_bytes(rest));
        assert(!has_name(acc, name)) by {
            if has_name(acc, name) {
                let i = index_of(acc, name);
                assert((acc + s)[i].0 == name);
                assert((acc + s)[acc.len() as int].0 == name);
            }
        }
        let next = insert(acc, name, value);
        assert(next + rest =~= acc + s);
        assert(lengths_fit(rest)) by {
            assert forall|i: int| 0 <= i < rest.len() implies utf8((#[trigger] rest[i]).0).len()
                < 0x8000_0000 && utf8(rest[i].1).len() < 0x8000_0000 by {
                assert(rest[i] == s[i + 1]);
            }
        }
        lemma_decode_pairs_after(next, rest);
    }
}

/// Pairs with distinct names and lengths that fit are read back as they were
/// written.
pub proof fn lemma_pairs_round_trip(s: Seq<(Seq<char>, Seq<char>)>)
    requires
        distinct(s),
        lengths_fit(s),
    ensures
        decode_pairs(pairs_bytes(s), Seq::empty()) == Ok::<Seq<(Seq<char>, Seq<char>)>, Error>(s),
{
    assert(Seq::<(Seq<char>, Seq<char>)>::empty() + s =~= s);
    lemma_decode_pairs_after(Seq::empty(), s);
}

/// Reads the length that starts at `pos`, and returns it with the position after
/// it.
pub fn read_pair_len(bytes: &[u8], pos: usize) -> (r: Result<(u32, usize), Error>)
    requires
        pos <= bytes@.len(),
    ensures
        match r {
            Ok((n, next)) => parse_pair_len(bytes@.skip(pos as int)) == Some(
                (n as int, next - pos),
            ) && pos < next <= bytes@.len() && n < 0x8000_0000,
            Err(e) => parse_pair_len(bytes@.skip(pos as int)) is None && e
                == Error::MalformedRecordPayload("Params"),
        },
{
    let ghost rest = bytes@.skip(pos as int);
    proof {
        reveal(parse_pair_len);
    }
    if pos == bytes.len() {
        return Err(Error::MalformedRecordPayload("Params"));
    }
    let sentinel: u8 = bytes[pos];
    assert(rest[0] == sentinel);
    if sentinel <= 127 {
        return Ok((sentinel as u32, pos + 1));
    }
    if bytes.len() - pos < 4 {
        return Err(Error::MalformedRecordPayload("Params"));
    }
    assert(rest[1] == bytes@[pos + 1]);
    assert(rest[2] == bytes@[pos + 2]);
    assert(rest[3] == bytes@[pos + 3]);
    let len: u32 = u32_from_be(sentinel - 128, bytes[pos + 1], bytes[pos + 2], bytes[pos + 3]);
    Ok((len, pos + 4))
}

/// Appends the wire form of one length.
fn write_len(len: usize, out: &mut Vec<u8>)
    ensures
        final(out)@ == old(out)@ + pair_len_bytes(len as nat),
{
    proof {
        reveal(pair_len_bytes);
    }
    if len <= 127 {
        out.push(len as u8);
        assert(out@ =~= old(out)@ + pair_len_bytes(len as nat));
    } else {
        let x: u32 = ((len as u64) % 0x1_0000_0000) as u32;
        let top: u8 = (x / 0x100_0000) as u8;
        let first: u8 = if top < 128 {
            top + 128
        } else {
            top
        };
        out.push(first);
        out.push(((x / 0x1_0000) % 256) as u8);
        out.push(((x / 256) % 256) as u8);
        out.push((x % 256) as u8);
        assert(out@ =~= old(out)@ + pair_len_bytes(len as nat));
    }
}

/// Appends the lengths of `key` and of `value`, in that order.
pub fn write_pair_len(key: &str, value: &str, out: &mut Vec<u8>)
    ensures
        final(out)@ == old(out)@ + pair_len_bytes(utf8(key@).len()) + pair_len_bytes(
            utf8(value@).len(),
        ),
{
    write_len(key.as_bytes().len(), out);
    let ghost middle = out@;
    write_len(value.as_bytes().len(), out);
    assert(out@ == middle + pair_len_bytes(utf8(value@).len()));
    assert(out@ =~= old(out)@ + pair_len_bytes(utf8(key@).len()) + pair_len_bytes(
        utf8(value@).len(),
    ));
}

/// Reads a map from the bytes of a name-value payload. A name that occurs again
/// takes the later value.
pub fn from_record_bytes(bytes: Vec<u8>) -> (r: Result<Pairs, Error>)
    ensures
        match decode_pairs(bytes@, Seq::empty()) {
            Ok(s) => r matches Ok(p) && p@ == s,
            Err(e) => r matches Err(f) && f == e,
        },
{
    let mut pairs = Pairs::new();
    let mut pos: usize = 0;
    let slice = bytes.as_slice();
    assert(bytes@.skip(0) =~= bytes@);
    while pos < slice.len()
        invariant
            slice@ == bytes@,
            pos <= slice@.len(),
            decode_pairs(bytes@, Seq::empty()) == decode_pairs(bytes@.skip(pos as int), pairs@),
        decreases slice@.len() - pos,
    {
        let ghost rest = bytes@.skip(pos as int);
        let (name_len, after_name_len) = match read_pair_len(slice, pos) {
            Ok(v) => v,
            Err(e) => {
                return Err(e);
            },
        };
        assert(rest.skip(after_name_len - pos) =~= bytes@.skip(after_name_len as int));
        let (value_len, start) = match read_pair_len(slice, after_name_len) {
            Ok(v) => v,
            Err(e) => {
                return Err(e);
            },
        };
        if name_len as usize > slice.len() - start {
            return Err(Error::MalformedRecordPayload("Params"));
        }
        let middle: usize = start + name_len as usize;
        if value_len as usize > slice.len() - middle {
            return Err(Error::MalformedRecordPayload("Params"));
        }
        let end: usize = middle + value_len as usize;
        let name_bytes = slice_to_vec(slice_subrange(slice, start, middle));
        let value_bytes = slice_to_vec(slice_subrange(slice, middle, end));
        assert(name_bytes@ =~= rest.subrange(start - pos, middle - pos));
        assert(value_bytes@ =~= rest.subrange(middle - pos, end - pos));
        let name = match string_from_utf8(name_bytes) {
            Some(s) => s,
            None => {
                return Err(Error::InvalidUtf8KeyValuePair);
            },
        };
        let value = match string_from_utf8(value_bytes) {
            Some(s) => s,
            None => {
                return Err(Error::InvalidUtf8KeyValuePair);
            },
        };
        assert(rest.skip(end - pos) =~= bytes@.skip(end as int));
        pairs.insert(name, value);
        pos = end;
    }
    Ok(pairs)
}

/// Appends the wire form of every pair of `pairs`, in order.
pub fn to_record_bytes(pairs: &Pairs, out: &mut Vec<u8>)
    ensures
        final(out)@ == old(out)@ + pairs_bytes(pairs@),
{
    let n: usize = pairs.len();
    let mut i: usize = 0;
    assert(pairs@.take(0) =~= Seq::<(Seq<char>, Seq<char>)>::empty());
    while i < n
        invariant
            n == pairs@.len(),
            i <= n,
            out@ == old(out)@ + pairs_bytes(pairs@.take(i as int)),
        decreases n - i,
    {
        let key = pairs.name_at(i);
        let value = pairs.value_at(i);
        let ghost before = out@;
        write_pair_len(key, value, out);
        out.extend_from_slice(key.as_bytes());
        out.extend_from_slice(value.as_bytes());
        proof {
            assert(out@ =~= before + pair_bytes(key@, value@));
            lemma_pairs_bytes_push(pairs@.take(i as int), key@, value@);
            assert(pairs@.take(i as int).push((key@, value@)) =~= pairs@.take(i + 1));
        }
        i += 1;
    }
    assert(pairs@.take(n as int) =~= pairs@);
}

} // verus!
