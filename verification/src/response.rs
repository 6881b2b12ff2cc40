//! A response whose status travels among its headers.

use crate::context::{header_lines, write_header_lines};
use crate::encoding::{decimal, decimal_string, utf8};
use crate::record::pairs::{has_name, lookup, place, sorted, Pairs};
use vstd::prelude::*;
use vstd::slice::slice_to_vec;
use vstd::string::*;

verus! {

/// What a response holds.
pub struct ResponseView {
    pub headers: Seq<(Seq<char>, Seq<char>)>,
    pub body: Seq<u8>,
}

/// A response from a FastCGI server. Its headers are kept in the order of their
/// names.
#[derive(Debug, PartialEq, Eq)]
pub struct Response {
    headers: Pairs,
    body: Vec<u8>,
}

impl View for Response {
    type V = ResponseView;

    closed spec fn view(&self) -> ResponseView {
        ResponseView { headers: self.headers@, body: self.body@ }
    }
}

impl Clone for Response {
    fn clone(&self) -> (r: Self)
        ensures
            r@ == self@,
    {
        proof {
            use_type_invariant(self);
        }
        Response { headers: self.headers.clone(), body: slice_to_vec(self.body.as_slice()) }
    }
}

/// The headers that a response starts with: status 200 and plain text.
pub open spec fn default_headers() -> Seq<(Seq<char>, Seq<char>)> {
    place(place(Seq::empty(), "Status"@, "200"@), "Content-Type"@, "text/plain"@)
}

/// The bytes that a response is sent as: its header lines, an empty line, the
/// body.
pub open spec fn response_bytes(v: ResponseView) -> Seq<u8> {
    header_lines(v.headers) + utf8("\n"@) + v.body
}

impl Default for Response {
    /// Creates an empty 200 OK response
    fn default() -> (r: Self)
        ensures
            r@ == (ResponseView { headers: default_headers(), body: Seq::empty() }),
    {
        let headers = Pairs::new().place("Status".to_owned(), "200".to_owned()).place(
            "Content-Type".to_owned(),
            "text/plain".to_owned(),
        );
        Response { headers, body: Vec::new() }
    }
}

impl Response {
    #[verifier::type_invariant]
    spec fn inv(&self) -> bool {
        sorted(self.headers@)
    }

    /// Create a new FastCGI response.
    ///
    /// Defaults to an empty 200 OK
    pub fn new() -> (r: Self)
        ensures
            r@ == (ResponseView { headers: default_headers(), body: Seq::empty() }),
    {
        Response::default()
    }

    /// Looks up the header `key`, if it is set
    pub fn header(&self, key: &str) -> (r: Option<&str>)
        ensures
            r is Some <==> has_name(self@.headers, key@),
            r matches Some(v) ==> lookup(self@.headers, key@) == Some(v@),
    {
        self.headers.get(key)
    }

    /// Returns a reference to the body
    pub fn body(&self) -> (r: &[u8])
        ensures
            r@ == self@.body,
    {
        self.body.as_slice()
    }

    /// Sets the header `key` to `value`.
    fn set(self, key: &str, value: &str) -> (r: Self)
        ensures
            r@ == (ResponseView { headers: place(self@.headers, key@, value@), ..self@ }),
    {
        proof {
            use_type_invariant(&self);
        }
        Response { headers: self.headers.place(key.to_owned(), value.to_owned()), body: self.body }
    }

    /// Sets the `Content-Type` header
    pub fn set_content_type(self, content_type: &str) -> (r: Self)
        ensures
            r@ == (ResponseView {
                headers: place(self@.headers, "Content-Type"@, content_type@),
                ..self@
            }),
    {
        self.set("Content-Type", content_type)
    }

    /// Sets the `Location` header
    pub fn set_location(self, location: &str) -> (r: Self)
        ensures
            r@ == (ResponseView { headers: place(self@.headers, "Location"@, location@), ..self@ }),
    {
        self.set("Location", location)
    }

    /// Sets the status of the response
    pub fn set_status(self, code: u16) -> (r: Self)
        ensures
            r@ == (ResponseView {
                headers: place(self@.headers, "Status"@, decimal(code as nat)),
                ..self@
            }),
    {
        let text = decimal_string(code as u32);
        self.set("Status", text.as_str())
    }

    /// Sets the content of the body
    pub fn set_body(self, body: &str) -> (r: Self)
        ensures
            r@ == (ResponseView { body: utf8(body@), ..self@ }),
    {
        proof {
            use_type_invariant(&self);
        }
        Response { headers: self.headers, body: slice_to_vec(body.as_bytes()) }
    }

    /// Sets the content of the body using raw bytes
    pub fn set_body_raw(self, body: &[u8]) -> (r: Self)
        ensures
            r@ == (ResponseView { body: body@, ..self@ }),
    {
        proof {
            use_type_invariant(&self);
        }
        Response { headers: self.headers, body: slice_to_vec(body) }
    }

    /// Appends the bytes that the response is sent as. The header lines come in the
    /// order of the headers' names.
    pub fn write_stdout_bytes(&self, out: &mut Vec<u8>)
        ensures
            final(out)@ == old(out)@ + response_bytes(self@),
            sorted(self@.headers),
    {
        proof {
            use_type_invariant(self);
        }
        write_header_lines(&self.headers, out);
        out.extend_from_slice("\n".as_bytes());
        out.extend_from_slice(self.body.as_slice());
        assert(out@ =~= old(out)@ + response_bytes(self@));
    }

    /// Creates a plain-text response
    pub fn text(text: &str) -> (r: Self)
        ensures
            r@ == (ResponseView {
                headers: place(default_headers(), "Content-Type"@, "text/plain"@),
                body: utf8(text@),
            }),
    {
        Response::default().set_body(text).set_content_type("text/plain")
    }

    /// Creates an HTML response
    pub fn html(html: &str) -> (r: Self)
        ensures
            r@ == (ResponseView {
                headers: place(default_headers(), "Content-Type"@, "text/html"@),
                body: utf8(html@),
            }),
    {
        Response::default().set_body(html).set_content_type("text/html")
    }

    /// Creates a JSON response
    pub fn json(json: &str) -> (r: Self)
        ensures
            r@ == (ResponseView {
                headers: place(default_headers(), "Content-Type"@, "application/json"@),
                body: utf8(json@),
            }),
    {
        Response::default().set_body(json).set_content_type("application/json")
    }

    /// Creates a temporary redirection response.
    ///
    /// The browser receiving the request will re-make the request with `path` as
    /// the new target with method and body unchanged.
    pub fn redirect(path: &str) -> (r: Self)
        ensures
            r@ == (ResponseView {
                headers: place(place(default_headers(), "Location"@, path@), "Status"@, decimal(307)),
                body: Seq::empty(),
            }),
    {
        Response::new().set_location(path).set_status(307)
    }

    /// Creates a permanent redirection response.
    ///
    /// The browser receiving the request will re-make the request with `path` as
    /// the new target with method and body unchanged.
    pub fn permanent_redirect(path: &str) -> (r: Self)
        ensures
            r@ == (ResponseView {
                headers: place(place(default_headers(), "Location"@, path@), "Status"@, decimal(308)),
                body: Seq::empty(),
            }),
    {
        Response::new().set_location(path).set_status(308)
    }
}

} // verus!
