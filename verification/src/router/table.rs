//! The path tables of `matchit`, as the router sees them.

use crate::encoding::utf8;
use vstd::prelude::*;
use vstd::string::*;

verus! {

/// The most opening braces that a route may hold.
pub const MAX_BRACES: usize = 25;

/// The number of bytes of `bytes` that are `b`.
pub open spec fn count_byte(bytes: Seq<u8>, b: u8) -> nat
    decreases bytes.len(),
{
    if bytes.len() == 0 {
        0
    } else {
        count_byte(bytes.drop_last(), b) + if bytes.last() == b {
            1nat
        } else {
            0nat
        }
    }
}

/// The number of opening braces in a route. Every parameter of a route takes one.
pub open spec fn braces(route: Seq<char>) -> nat {
    count_byte(utf8(route), 0x7b)
}

/// `matchit::Router`, the table of routes. Nothing inside it is looked at here.
#[verifier::external_type_specification]
#[verifier::external_body]
#[verifier::reject_recursive_types(T)]
pub struct ExTable<T>(matchit::Router<T>);

/// The routes that a `matchit` table holds, each with the value stored under it, in
/// the order in which they went in.
pub uninterp spec fn routes(table: matchit::Router<usize>) -> Seq<(Seq<char>, usize)>;

/// True when `matchit` takes `route` into a table that holds `routes`: the route
/// is well formed and clashes with none of them.
pub uninterp spec fn route_fits(routes: Seq<(Seq<char>, usize)>, route: Seq<char>) -> bool;

/// What `matchit` finds for `path` in a table that holds `routes`: the value
/// stored under the route that matches, and the parameters of the match, each as
/// name and value in the route's order.
pub uninterp spec fn route_match(routes: Seq<(Seq<char>, usize)>, path: Seq<char>) -> Option<
    (usize, Seq<(Seq<char>, Seq<char>)>),
>;

/// `matchit::Router::new`: a table without routes.
#[verifier::external_body]
pub(crate) fn table_new() -> (r: matchit::Router<usize>)
    ensures
        routes(r) == Seq::<(Seq<char>, usize)>::empty(),
{
    matchit::Router::new()
}

/// `matchit::Router::insert`: where the table takes the route, it holds it from
/// then on, behind the routes it held. Where it does not, nothing is said of the
/// table. `matchit` panics on a route with more than 25 parameters, so a route may
/// hold 25 opening braces at most.
#[verifier::external_body]
pub(crate) fn table_insert(table: &mut matchit::Router<usize>, route: &str, value: usize) -> (ok: bool)
    requires
        braces(route@) <= MAX_BRACES,
    ensures
        ok == route_fits(routes(*old(table)), route@),
        ok ==> routes(*final(table)) == routes(*old(table)).push((route@, value)),
{
    table.insert(route, value).is_ok()
}

/// `matchit::Router::at`: the value and the parameters of the route that matches
/// `path`, if one does. The value is one that went in with a route.
#[verifier::external_body]
pub(crate) fn table_at(table: &matchit::Router<usize>, path: &str) -> (r: Option<
    (usize, Vec<(String, String)>),
>)
    ensures
        r.deep_view() == route_match(routes(*table), path@),
        r matches Some(found) ==> exists|k: int|
            0 <= k < routes(*table).len() && (#[trigger] routes(*table)[k]).1 == found.0,
{
    match table.at(path) {
        Ok(found) => Some(
            (
                *found.value,
                found.params.iter().map(|(k, v)| (k.to_string(), v.to_string())).collect(),
            ),
        ),
        Err(_) => None,
    }
}

} // verus!
