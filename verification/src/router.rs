//! Dispatching handlers on the method and the path of a request.
//!
//! Paths are matched by `matchit`. A segment written `{id}` matches anything up to
//! the next `/` or the end of the path; a segment written `{*rest}`, which must
//! come last, matches everything up to the end of the path. What matched is handed
//! to the handler, under the name in the braces.

pub mod table;

use crate::context::{collect_pairs, insert_each, Request, Response};
use crate::encoding::str_eq;
use crate::record::pairs::Pairs;
use crate::router::table::{
    braces, count_byte, route_fits, route_match, routes, table_at, table_insert, table_new,
    MAX_BRACES,
};
use vstd::prelude::*;
use vstd::string::*;

verus! {

/// The routes that a table holds after it took each of `paths` in turn, all under
/// `value`; nothing where it did not take one of them. A path with more than 25
/// opening braces is never taken.
pub open spec fn with_paths(held: Seq<(Seq<char>, usize)>, paths: Seq<Seq<char>>, value: nat) -> Option<
    Seq<(Seq<char>, usize)>,
>
    decreases paths.len(),
{
    if paths.len() == 0 {
        Some(held)
    } else if braces(paths[0]) <= MAX_BRACES && route_fits(held, paths[0]) {
        with_paths(held.push((paths[0], value as usize)), paths.drop_first(), value)
    } else {
        None
    }
}

/// Counts the opening braces in a route.
pub fn count_braces(route: &str) -> (r: usize)
    ensures
        r == braces(route@),
{
    let bytes = route.as_bytes();
    let mut count: usize = 0;
    let mut i: usize = 0;
    assert(bytes@.take(0) =~= Seq::<u8>::empty());
    while i < bytes.len()
        invariant
            i <= bytes@.len(),
            count <= i,
            count == count_byte(bytes@.take(i as int), 0x7b),
        decreases bytes@.len() - i,
    {
        assert(bytes@.take(i + 1).drop_last() =~= bytes@.take(i as int));
        if bytes[i] == 0x7b {
            count += 1;
        }
        i += 1;
    }
    assert(bytes@.take(i as int) =~= bytes@);
    count
}

/// The paths of a list, as plain sequences.
pub open spec fn paths_of(paths: Seq<&str>) -> Seq<Seq<char>> {
    Seq::new(paths.len(), |i: int| paths[i]@)
}

/// True when every value stored in `held` is the index of a handler.
pub open spec fn in_range(held: Seq<(Seq<char>, usize)>, handlers: int) -> bool {
    forall|k: int| 0 <= k < held.len() ==> (#[trigger] held[k]).1 < handlers
}

/// A table of routes for each request method, and the handlers that the routes
/// lead to.
pub struct Routes<H> {
    methods: Vec<String>,
    tables: Vec<matchit::Router<usize>>,
    handlers: Vec<H>,
}

impl<H> Routes<H> {
    #[verifier::type_invariant]
    spec fn inv(&self) -> bool {
        &&& self.methods@.len() == self.tables@.len()
        &&& forall|i: int, j: int|
            0 <= i < j < self.methods@.len() ==> (#[trigger] self.methods@[i])@ != (
            #[trigger] self.methods@[j])@
        &&& forall|i: int|
            0 <= i < self.tables@.len() ==> in_range(
                routes(#[trigger] self.tables@[i]),
                self.handlers@.len() as int,
            )
    }

    /// The handlers, in the order in which they were registered.
    pub closed spec fn handlers(&self) -> Seq<H> {
        self.handlers@
    }

    /// The routes registered for `method`, if any were.
    pub closed spec fn table_for(&self, method: Seq<char>) -> Option<Seq<(Seq<char>, usize)>> {
        if exists|i: int| 0 <= i < self.methods@.len() && (#[trigger] self.methods@[i])@ == method {
            let i = choose|i: int|
                0 <= i < self.methods@.len() && (#[trigger] self.methods@[i])@ == method;
            Some(routes(self.tables@[i]))
        } else {
            None
        }
    }

    /// The handler and the parameters that a request for `path` with `method` leads
    /// to: those of the route that matches `path` among the routes of `method`.
    pub open spec fn resolution(&self, method: Seq<char>, path: Seq<char>) -> Option<
        (usize, Seq<(Seq<char>, Seq<char>)>),
    > {
        match self.table_for(method) {
            Some(held) => route_match(held, path),
            None => None,
        }
    }

    /// A table without routes.
    pub fn new() -> (r: Self)
        ensures
            r.handlers() == Seq::<H>::empty(),
            forall|method: Seq<char>| r.table_for(method) is None,
    {
        Routes { methods: Vec::new(), tables: Vec::new(), handlers: Vec::new() }
    }

    /// The place of the table of `method`, if it has one.
    fn find(&self, method: &str) -> (r: Option<usize>)
        ensures
            match r {
                Some(i) => i < self.methods@.len() && self.methods@[i as int]@ == method@
                    && self.table_for(method@) == Some(routes(self.tables@[i as int])),
                None => self.table_for(method@) is None && forall|j: int|
                    0 <= j < self.methods@.len() ==> (#[trigger] self.methods@[j])@ != method@,
            },
    {
        proof {
            use_type_invariant(self);
        }
        let mut i: usize = 0;
        while i < self.methods.len()
            invariant
                self.inv(),
                i <= self.methods@.len(),
                forall|j: int| 0 <= j < i ==> (#[trigger] self.methods@[j])@ != method@,
            decreases self.methods@.len() - i,
        {
            if str_eq(self.methods[i].as_str(), method) {
                return Some(i);
            }
            i += 1;
        }
        None
    }

    /// Registers a handler tied to a method and a set of paths. If multiple paths
    /// are provided, the handler is reached by any of them.
    ///
    /// Returns the table with the routes in it, or nothing where `matchit` does
    /// not take one of the paths, or where a path holds more than 25 opening
    /// braces.
    pub fn register(self, method: &str, paths: &[&str], handler: H) -> (r: Option<Self>)
        ensures
            match with_paths(
                match self.table_for(method@) {
                    Some(held) => held,
                    None => Seq::empty(),
                },
                paths_of(paths@),
                self.handlers().len(),
            ) {
                Some(grown) => r matches Some(next) && next.handlers() == self.handlers().push(
                    handler,
                ) && next.table_for(method@) == Some(grown) && forall|other: Seq<char>|
                    other != method@ ==> next.table_for(other) == self.table_for(other),
                None => r is None,
            },
    {
        proof {
            use_type_invariant(&self);
        }
        let found = self.find(method);
        let ghost initial = match self.table_for(method@) {
            Some(held) => held,
            None => Seq::empty(),
        };
        let ghost old_methods = self.methods@;
        let ghost old_tables = self.tables@;
        let ghost old_handlers = self.handlers@;
        let mut methods = self.methods;
        let mut tables = self.tables;
        let mut handlers = self.handlers;
        let value: usize = handlers.len();
        let mut table = match found {
            Some(i) => {
                tables.push(table_new());
                tables.swap_remove(i)
            },
            None => table_new(),
        };
        assert(routes(table) == initial);
        let ghost all = paths_of(paths@);
        let mut k: usize = 0;
        assert(all.skip(0) =~= all);
        while k < paths.len()
            invariant_except_break
                in_range(routes(table), value + 1),
                with_paths(initial, all, value as nat) == with_paths(
                    routes(table),
                    all.skip(k as int),
                    value as nat,
                ),
            invariant
                k <= paths@.len(),
                all == paths_of(paths@),
            ensures
                k < paths@.len() ==> with_paths(initial, all, value as nat) is None,
                k == paths@.len() ==> in_range(routes(table), value + 1) && with_paths(
                    initial,
                    all,
                    value as nat,
                ) == Some(routes(table)),
            decreases paths@.len() - k,
        {
            let ghost left = all.skip(k as int);
            assert(left[0] == paths@[k as int]@);
            assert(left.drop_first() =~= all.skip(k + 1));
            let ghost had = routes(table);
            if count_braces(paths[k]) > MAX_BRACES {
                break;
            }
            if !table_insert(&mut table, paths[k], value) {
                break;
            }
            assert forall|n: int| 0 <= n < routes(table).len() implies (#[trigger] routes(
                table,
            )[n]).1 < value + 1 by {
                if n < had.len() {
                    assert(had[n].1 < value + 1);
                }
            }
            k += 1;
        }
        if k < paths.len() {
            return None;
        }
        let ghost grown = routes(table);
        handlers.push(handler);
        match found {
            Some(i) => {
                tables.push(table);
                let _ = tables.swap_remove(i);
                assert(tables@ =~= old_tables.update(i as int, tables@[i as int]));
            },
            None => {
                methods.push(method.to_owned());
                tables.push(table);
            },
        }
        let ghost place = match found {
            Some(i) => i as int,
            None => old_methods.len() as int,
        };
        proof {
            assert(routes(tables@[place]) == grown);
            assert(methods@[place]@ == method@);
            assert forall|i: int| 0 <= i < tables@.len() implies in_range(
                routes(#[trigger] tables@[i]),
                handlers@.len() as int,
            ) by {
                if i != place {
                    assert(tables@[i] == old_tables[i]);
                    assert(in_range(routes(old_tables[i]), value as int));
                }
            }
            assert forall|i: int, j: int| 0 <= i < j < methods@.len() implies (
            #[trigger] methods@[i])@ != (#[trigger] methods@[j])@ by {
                if j < old_methods.len() {
                    assert(old_methods[i]@ != old_methods[j]@);
                } else {
                    assert(old_methods[i]@ != method@);
                }
            }
        }
        let next = Routes { methods, tables, handlers };
        proof {
            assert(next.table_for(method@) == Some(grown));
            assert forall|other: Seq<char>| other != method@ implies next.table_for(other)
                == self.table_for(other) by {
                if self.table_for(other) is Some {
                    let i = choose|i: int|
                        0 <= i < old_methods.len() && (#[trigger] old_methods[i])@ == other;
                    assert(next.methods@[i]@ == other);
                    assert(next.tables@[i] == old_tables[i]);
                } else if next.table_for(other) is Some {
                    let i = choose|i: int|
                        0 <= i < next.methods@.len() && (#[trigger] next.methods@[i])@ == other;
                    assert(old_methods[i]@ == other);
                }
            }
        }
        Some(next)
    }

    /// The handler that a request for `path` with `method` leads to, and the
    /// parameters of the match. Where a name occurs twice among the parameters, the
    /// later value counts.
    pub fn route(&self, method: &str, path: &str) -> (r: Option<(&H, Pairs)>)
        ensures
            match self.resolution(method@, path@) {
                Some((index, params)) => index < self.handlers().len() && (r matches Some(found)
                    && *found.0 == self.handlers()[index as int] && found.1@ == insert_each(
                    Seq::empty(),
                    params,
                )),
                None => r is None,
            },
    {
        proof {
            use_type_invariant(self);
        }
        let i = match self.find(method) {
            Some(i) => i,
            None => {
                return None;
            },
        };
        match table_at(&self.tables[i], path) {
            Some((index, params)) => {
                let pairs = collect_pairs(&params);
                Some((&self.handlers[index], pairs))
            },
            None => None,
        }
    }
}

impl<H: Fn(Request, Pairs) -> Response> Routes<H> {
    /// Answers a request with the handler that its method and path lead to. Hands
    /// the request back where they lead to none.
    pub fn respond(&self, request: Request) -> (r: Result<Response, Request>)
        requires
            forall|i: int, asked: Request, params: Pairs|
                0 <= i < self.handlers().len() ==> #[trigger] call_requires(
                    self.handlers()[i],
                    (asked, params),
                ),
        ensures
            match self.resolution(request@.method, request@.path) {
                Some((index, params)) => r matches Ok(response) && exists|matched: Pairs|
                    matched@ == insert_each(Seq::empty(), params) && call_ensures(
                        self.handlers()[index as int],
                        (request, matched),
                        response,
                    ),
                None => r == Err::<Response, Request>(request),
            },
    {
        let found = self.route(request.method(), request.path());
        match found {
            Some((handler, params)) => {
                let response = handler(request, params);
                Ok(response)
            },
            None => Err(request),
        }
    }
}

} // verus!
