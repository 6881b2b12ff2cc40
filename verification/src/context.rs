//! What a handler is given and what it gives back: the request that a connection
//! delivered, and the response to send.

use crate::encoding::{decimal, decimal_string, utf8};
use crate::record::pairs::{has_name, insert, lookup, Pairs};
use crate::status;
use std::time::Instant;
use vstd::prelude::*;
use vstd::slice::slice_to_vec;
use vstd::string::*;

verus! {

/// `std::time::Instant`, a point in time. Nothing inside it is looked at here.
#[verifier::external_type_specification]
#[verifier::external_body]
pub struct ExInstant(Instant);

/// `Instant::now`: the present moment. Nothing is said of it.
#[verifier::external_body]
pub(crate) fn now() -> Instant {
    Instant::now()
}

/// The pairs that a query string holds, as `form_urlencoded::parse` reads them from
/// its bytes, in order.
pub uninterp spec fn urlencoded(input: Seq<u8>) -> Seq<(Seq<char>, Seq<char>)>;

/// `form_urlencoded::parse`, with the pairs it yields collected in order: the
/// names and values of `input`, percent-decoded.
#[verifier::external_body]
fn parse_urlencoded(input: &[u8]) -> (r: Vec<(String, String)>)
    ensures
        r.deep_view() == urlencoded(input@),
{
    form_urlencoded::parse(input).into_owned().collect()
}

/// `acc` with each pair of `items` set on top of it, in order.
pub open spec fn insert_each(
    acc: Seq<(Seq<char>, Seq<char>)>,
    items: Seq<(Seq<char>, Seq<char>)>,
) -> Seq<(Seq<char>, Seq<char>)>
    decreases items.len(),
{
    if items.len() == 0 {
        acc
    } else {
        insert_each(insert(acc, items[0].0, items[0].1), items.drop_first())
    }
}

/// The map that a query string stands for. Where a name occurs again, the later
/// value counts.
pub open spec fn query_of(query_string: Seq<char>) -> Seq<(Seq<char>, Seq<char>)> {
    insert_each(Seq::empty(), urlencoded(utf8(query_string)))
}

/// The map of the pairs in `items`, set in order.
pub fn collect_pairs(items: &Vec<(String, String)>) -> (r: Pairs)
    ensures
        r@ == insert_each(Seq::empty(), items.deep_view()),
{
    let ghost all = items.deep_view();
    let mut pairs = Pairs::new();
    let mut i: usize = 0;
    assert(all.skip(0) =~= all);
    while i < items.len()
        invariant
            all == items.deep_view(),
            i <= items@.len(),
            insert_each(Seq::empty(), all) == insert_each(pairs@, all.skip(i as int)),
        decreases items@.len() - i,
    {
        let name = items[i].0.clone();
        let value = items[i].1.clone();
        proof {
            let left = all.skip(i as int);
            assert(left[0] == (name@, value@));
            assert(left.drop_first() =~= all.skip(i + 1));
        }
        pairs.insert(name, value);
        i += 1;
    }
    pairs
}

/// Reads the map that a query string stands for.
pub fn parse_query(query_string: &str) -> (r: Pairs)
    ensures
        r@ == query_of(query_string@),
{
    let items = parse_urlencoded(query_string.as_bytes());
    collect_pairs(&items)
}

/// What a request holds.
pub struct RequestView {
    pub method: Seq<char>,
    pub path: Seq<char>,
    pub query_string: Seq<char>,
    pub headers: Seq<(Seq<char>, Seq<char>)>,
    pub body: Seq<u8>,
}

/// A FastCGI request: what the client asked for, and when the request was put
/// together.
#[derive(Debug, PartialEq, Eq)]
pub struct Request {
    method: String,
    path: String,
    query_string: String,
    headers: Pairs,
    body: Vec<u8>,
    created_at: Instant,
    query: Pairs,
}

impl View for Request {
    type V = RequestView;

    closed spec fn view(&self) -> RequestView {
        RequestView {
            method: self.method@,
            path: self.path@,
            query_string: self.query_string@,
            headers: self.headers@,
            body: self.body@,
        }
    }
}

impl Clone for Request {
    fn clone(&self) -> (r: Self)
        ensures
            r@ == self@,
            r.spec_created_at() == self.spec_created_at(),
    {
        proof {
            use_type_invariant(self);
        }
        Request {
            method: self.method.clone(),
            path: self.path.clone(),
            query_string: self.query_string.clone(),
            headers: self.headers.clone(),
            body: slice_to_vec(self.body.as_slice()),
            created_at: self.created_at,
            query: self.query.clone(),
        }
    }
}

impl Default for Request {
    /// The request with nothing in it.
    fn default() -> (r: Self)
        ensures
            r@ == (RequestView {
                method: Seq::empty(),
                path: Seq::empty(),
                query_string: Seq::empty(),
                headers: Seq::empty(),
                body: Seq::empty(),
            }),
    {
        Request::new(String::new(), String::new(), String::new(), Pairs::new(), Vec::new())
    }
}

impl Request {
    #[verifier::type_invariant]
    spec fn inv(&self) -> bool {
        self.query@ == query_of(self.query_string@)
    }

    /// The moment at which the request was created.
    pub closed spec fn spec_created_at(&self) -> Instant {
        self.created_at
    }

    /// The request with the given parts, created now.
    pub fn new(
        method: String,
        path: String,
        query_string: String,
        headers: Pairs,
        body: Vec<u8>,
    ) -> (r: Self)
        ensures
            r@ == (RequestView {
                method: method@,
                path: path@,
                query_string: query_string@,
                headers: headers@,
                body: body@,
            }),
    {
        let query = parse_query(query_string.as_str());
        Request { method, path, query_string, headers, body, created_at: now(), query }
    }

    /// Returns the request method
    pub fn method(&self) -> (r: &str)
        ensures
            r@ == self@.method,
    {
        self.method.as_str()
    }

    /// Returns the request path
    pub fn path(&self) -> (r: &str)
        ensures
            r@ == self@.path,
    {
        self.path.as_str()
    }

    /// Returns the query string, as the client sent it
    pub fn query_string(&self) -> (r: &str)
        ensures
            r@ == self@.query_string,
    {
        self.query_string.as_str()
    }

    /// Looks up the header value associated with `key`, if any
    pub fn header(&self, key: &str) -> (r: Option<&str>)
        ensures
            r is Some <==> has_name(self@.headers, key@),
            r matches Some(v) ==> lookup(self@.headers, key@) == Some(v@),
    {
        self.headers.get(key)
    }

    /// Returns a reference to the request body
    pub fn body(&self) -> (r: &[u8])
        ensures
            r@ == self@.body,
    {
        self.body.as_slice()
    }

    /// Returns the request body as an owned `Vec`
    ///
    /// Once the request body has been `take`n, subsequent calls return an empty `Vec`
    pub fn take_body(&mut self) -> (r: Vec<u8>)
        ensures
            r@ == old(self)@.body,
            final(self)@ == (RequestView { body: Seq::empty(), ..old(self)@ }),
            final(self).spec_created_at() == old(self).spec_created_at(),
    {
        proof {
            use_type_invariant(&*self);
        }
        let mut body: Vec<u8> = Vec::new();
        core::mem::swap(&mut self.body, &mut body);
        body
    }

    /// Returns the moment at which the request was created
    pub fn created_at(&self) -> (r: Instant)
        ensures
            r == self.spec_created_at(),
    {
        self.created_at
    }

    /// Returns the value of `key` from the parsed query string
    pub fn query(&self, key: &str) -> (r: Option<&str>)
        ensures
            r is Some <==> has_name(query_of(self@.query_string), key@),
            r matches Some(v) ==> lookup(query_of(self@.query_string), key@) == Some(v@),
    {
        proof {
            use_type_invariant(self);
        }
        self.query.get(key)
    }
}

/// What a response holds.
pub struct ResponseView {
    pub status: u16,
    pub headers: Seq<(Seq<char>, Seq<char>)>,
    pub body: Seq<u8>,
}

/// A FastCGI response
#[derive(Debug, Clone, PartialEq, Eq)]
pub struct Response {
    status: u16,
    headers: Pairs,
    body: Vec<u8>,
}

impl View for Response {
    type V = ResponseView;

    closed spec fn view(&self) -> ResponseView {
        ResponseView { status: self.status, headers: self.headers@, body: self.body@ }
    }
}

impl Default for Response {
    /// An empty response with status 200, which is what CGI takes where no status is
    /// given.
    fn default() -> (r: Self)
        ensures
            r@ == (ResponseView { status: 200, headers: Seq::empty(), body: Seq::empty() }),
    {
        Response { status: status::OK, headers: Pairs::new(), body: Vec::new() }
    }
}

/// One header as the response carries it: name, colon, space, value, line feed.
pub open spec fn header_line(name: Seq<char>, value: Seq<char>) -> Seq<u8> {
    utf8(name) + utf8(": "@) + utf8(value) + utf8("\n"@)
}

/// The header lines of a response, in the headers' order.
pub open spec fn header_lines(headers: Seq<(Seq<char>, Seq<char>)>) -> Seq<u8>
    decreases headers.len(),
{
    if headers.len() == 0 {
        Seq::empty()
    } else {
        header_line(headers[0].0, headers[0].1) + header_lines(headers.drop_first())
    }
}

/// The bytes that a response is sent as: its header lines, the status line, an
/// empty line, the body.
pub open spec fn stdout_bytes(v: ResponseView) -> Seq<u8> {
    header_lines(v.headers) + utf8("Status: "@) + utf8(decimal(v.status as nat)) + utf8("\n"@)
        + utf8("\n"@) + v.body
}

/// The header lines of headers with one more header at their end.
pub proof fn lemma_header_lines_push(
    headers: Seq<(Seq<char>, Seq<char>)>,
    name: Seq<char>,
    value: Seq<char>,
)
    ensures
        header_lines(headers.push((name, value))) == header_lines(headers) + header_line(
            name,
            value,
        ),
    decreases headers.len(),
{
    let t = headers.push((name, value));
    let c = header_line(name, value);
    if headers.len() == 0 {
        assert(t.drop_first().len() == 0);
        assert(header_lines(t.drop_first()) == Seq::<u8>::empty());
        assert(header_lines(t) == c + Seq::<u8>::empty());
        assert(c + Seq::<u8>::empty() =~= Seq::<u8>::empty() + c);
    } else {
        let a = header_line(headers[0].0, headers[0].1);
        let b = header_lines(headers.drop_first());
        assert(t[0] == headers[0]);
        assert(t.drop_first() =~= headers.drop_first().push((name, value)));
        lemma_header_lines_push(headers.drop_first(), name, value);
        assert(header_lines(t) == a + (b + c));
        assert(a + (b + c) =~= (a + b) + c);
    }
}

/// Appends the header lines of `headers`.
pub fn write_header_lines(headers: &Pairs, out: &mut Vec<u8>)
    ensures
        final(out)@ == old(out)@ + header_lines(headers@),
{
    let n: usize = headers.len();
    let mut i: usize = 0;
    assert(headers@.take(0) =~= Seq::<(Seq<char>, Seq<char>)>::empty());
    while i < n
        invariant
            n == headers@.len(),
            i <= n,
            out@ == old(out)@ + header_lines(headers@.take(i as int)),
        decreases n - i,
    {
        let name = headers.name_at(i);
        let value = headers.value_at(i);
        let ghost before = out@;
        out.extend_from_slice(name.as_bytes());
        out.extend_from_slice(": ".as_bytes());
        out.extend_from_slice(value.as_bytes());
        out.extend_from_slice("\n".as_bytes());
        proof {
            assert(out@ =~= before + header_line(name@, value@));
            lemma_header_lines_push(headers@.take(i as int), name@, value@);
            assert(headers@.take(i as int).push((name@, value@)) =~= headers@.take(i + 1));
        }
        i += 1;
    }
    assert(headers@.take(n as int) =~= headers@);
}

impl Response {
    /// Create an empty 200 OK FastCGI response
    pub fn new() -> (r: Self)
        ensures
            r@ == (ResponseView { status: 200, headers: Seq::empty(), body: Seq::empty() }),
    {
        Response { status: status::OK, headers: Pairs::new(), body: Vec::new() }
    }

    /// Returns the status code
    pub fn status(&self) -> (r: u16)
        ensures
            r == self@.status,
    {
        self.status
    }

    /// Looks up the response header `key`, if it is set
    pub fn header(&self, key: &str) -> (r: Option<&str>)
        ensures
            r is Some <==> has_name(self@.headers, key@),
            r matches Some(v) ==> lookup(self@.headers, key@) == Some(v@),
    {
        self.headers.get(key)
    }

    /// Returns a reference to the response body
    pub fn body(&self) -> (r: &[u8])
        ensures
            r@ == self@.body,
    {
        self.body.as_slice()
    }

    /// Sets the response header `key` to `value`
    ///
    /// If `key` was already present in the map, the value is updated
    pub fn set_header(self, key: &str, value: &str) -> (r: Self)
        ensures
            r@ == (ResponseView { headers: insert(self@.headers, key@, value@), ..self@ }),
    {
        Response {
            status: self.status,
            headers: self.headers.with(key.to_owned(), value.to_owned()),
            body: self.body,
        }
    }

    /// Sets the status code of the response to `code`
    pub fn set_status(self, code: u16) -> (r: Self)
        ensures
            r@ == (ResponseView { status: code, ..self@ }),
    {
        Response { status: code, headers: self.headers, body: self.body }
    }

    /// Sets the response body
    pub fn set_body(self, body: &str) -> (r: Self)
        ensures
            r@ == (ResponseView { body: utf8(body@), ..self@ }),
    {
        self.set_raw_body(slice_to_vec(body.as_bytes()))
    }

    /// Sets the response body in bytes
    pub fn set_raw_body(self, body: Vec<u8>) -> (r: Self)
        ensures
            r@ == (ResponseView { body: body@, ..self@ }),
    {
        Response { status: self.status, headers: self.headers, body }
    }

    /// A response of the given media type with the given body.
    fn of_content_type(content_type: &str, value: &str) -> (r: Self)
        ensures
            r@ == (ResponseView {
                status: 200,
                headers: seq![("Content-Type"@, content_type@)],
                body: utf8(value@),
            }),
    {
        let r = Response::new().set_header("Content-Type", content_type).set_body(value);
        assert(r@.headers =~= seq![("Content-Type"@, content_type@)]);
        r
    }

    /// Returns a new json response with the given value
    pub fn json(json: &str) -> (r: Self)
        ensures
            r@ == (ResponseView {
                status: 200,
                headers: seq![("Content-Type"@, "application/json"@)],
                body: utf8(json@),
            }),
    {
        Self::of_content_type("application/json", json)
    }

    /// Returns a new plain-text response with the given value
    pub fn text(plaintext: &str) -> (r: Self)
        ensures
            r@ == (ResponseView {
                status: 200,
                headers: seq![("Content-Type"@, "text/plain"@)],
                body: utf8(plaintext@),
            }),
    {
        Self::of_content_type("text/plain", plaintext)
    }

    /// Returns a new html response with the given value
    pub fn html(html: &str) -> (r: Self)
        ensures
            r@ == (ResponseView {
                status: 200,
                headers: seq![("Content-Type"@, "text/html"@)],
                body: utf8(html@),
            }),
    {
        Self::of_content_type("text/html", html)
    }

    /// Returns a new response that will trigger a temporary redirect
    ///
    /// The browser receiving the request will re-make the request with `path` as the
    /// new target with method and body unchanged.
    pub fn temporary_redirect(path: &str) -> (r: Self)
        ensures
            r@ == (ResponseView {
                status: 307,
                headers: seq![("Location"@, path@)],
                body: Seq::empty(),
            }),
    {
        let r = Response::new().set_header("Location", path).set_status(
            status::TEMPORARY_REDIRECT,
        );
        assert(r@.headers =~= seq![("Location"@, path@)]);
        r
    }

    /// Returns a new response that will trigger a permanent redirect
    ///
    /// The browser receiving the request will re-make the request with `path` as the
    /// new target with method and body unchanged.
    pub fn permanent_redirect(path: &str) -> (r: Self)
        ensures
            r@ == (ResponseView {
                status: 308,
                headers: seq![("Location"@, path@)],
                body: Seq::empty(),
            }),
    {
        let r = Response::new().set_header("Location", path).set_status(
            status::PERMANENT_REDIRECT,
        );
        assert(r@.headers =~= seq![("Location"@, path@)]);
        r
    }

    /// Appends the bytes that the response is sent as.
    pub fn write_stdout_bytes(&self, out: &mut Vec<u8>)
        ensures
            final(out)@ == old(out)@ + stdout_bytes(self@),
    {
        write_header_lines(&self.headers, out);
        out.extend_from_slice("Status: ".as_bytes());
        out.extend_from_slice(decimal_string(self.status as u32).as_str().as_bytes());
        out.extend_from_slice("\n".as_bytes());
        out.extend_from_slice("\n".as_bytes());
        out.extend_from_slice(self.body.as_slice());
        assert(out@ =~= old(out)@ + stdout_bytes(self@));
    }
}

} // verus!
