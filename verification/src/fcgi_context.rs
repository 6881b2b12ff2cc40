//! A request and the response to it, carried together through a pipeline.

use crate::context::{header_lines, now, write_header_lines};
use crate::encoding::{decimal, decimal_string, utf8};
use crate::record::pairs::{has_name, lookup, place, sorted, Pairs};
use crate::status;
use std::time::Instant;
use vstd::prelude::*;
use vstd::slice::slice_to_vec;
use vstd::string::*;

verus! {

/// What a context holds.
pub struct FcgiContextView {
    pub method: Seq<char>,
    pub path: Seq<char>,
    pub query: Seq<(Seq<char>, Seq<char>)>,
    pub incoming_headers: Seq<(Seq<char>, Seq<char>)>,
    pub incoming_body: Seq<u8>,
    pub outgoing_headers: Seq<(Seq<char>, Seq<char>)>,
    pub outgoing_body: Seq<u8>,
}

/// Encapsulates all information about an individual FastCGI request and response.
///
/// The response headers are kept in the order of their names.
#[derive(Debug, PartialEq, Eq)]
pub struct FcgiContext {
    method: String,
    path: String,
    query: Pairs,
    incoming_headers: Pairs,
    incoming_body: Vec<u8>,
    outgoing_headers: Pairs,
    outgoing_body: Vec<u8>,
    created_at: Instant,
}

impl View for FcgiContext {
    type V = FcgiContextView;

    closed spec fn view(&self) -> FcgiContextView {
        FcgiContextView {
            method: self.method@,
            path: self.path@,
            query: self.query@,
            incoming_headers: self.incoming_headers@,
            incoming_body: self.incoming_body@,
            outgoing_headers: self.outgoing_headers@,
            outgoing_body: self.outgoing_body@,
        }
    }
}

impl Clone for FcgiContext {
    fn clone(&self) -> (r: Self)
        ensures
            r@ == self@,
            r.spec_created_at() == self.spec_created_at(),
    {
        proof {
            use_type_invariant(self);
        }
        FcgiContext {
            method: self.method.clone(),
            path: self.path.clone(),
            query: self.query.clone(),
            incoming_headers: self.incoming_headers.clone(),
            incoming_body: slice_to_vec(self.incoming_body.as_slice()),
            outgoing_headers: self.outgoing_headers.clone(),
            outgoing_body: slice_to_vec(self.outgoing_body.as_slice()),
            created_at: self.created_at,
        }
    }
}

/// The bytes that the response of a context is sent as: its header lines, an empty
/// line, the body.
pub open spec fn context_stdout_bytes(v: FcgiContextView) -> Seq<u8> {
    header_lines(v.outgoing_headers) + utf8("\n"@) + v.outgoing_body
}

impl FcgiContext {
    #[verifier::type_invariant]
    spec fn inv(&self) -> bool {
        sorted(self.outgoing_headers@)
    }

    /// The moment at which the context was created.
    pub closed spec fn spec_created_at(&self) -> Instant {
        self.created_at
    }

    /// Returns the moment at which the context was created
    pub fn created_at(&self) -> (r: Instant)
        ensures
            r == self.spec_created_at(),
    {
        self.created_at
    }

    /// The context with nothing in it, created now.
    pub fn new() -> (r: Self)
        ensures
            r@ == (FcgiContextView {
                method: Seq::empty(),
                path: Seq::empty(),
                query: Seq::empty(),
                incoming_headers: Seq::empty(),
                incoming_body: Seq::empty(),
                outgoing_headers: Seq::empty(),
                outgoing_body: Seq::empty(),
            }),
    {
        FcgiContext {
            method: String::new(),
            path: String::new(),
            query: Pairs::new(),
            incoming_headers: Pairs::new(),
            incoming_body: Vec::new(),
            outgoing_headers: Pairs::new(),
            outgoing_body: Vec::new(),
            created_at: now(),
        }
    }

    /// The context of a request with the given parts, created now, and no response
    /// yet.
    pub fn of_request(
        method: &str,
        path: &str,
        query: Pairs,
        headers: Pairs,
        body: Vec<u8>,
    ) -> (r: Self)
        ensures
            r@ == (FcgiContextView {
                method: method@,
                path: path@,
                query: query@,
                incoming_headers: headers@,
                incoming_body: body@,
                outgoing_headers: Seq::empty(),
                outgoing_body: Seq::empty(),
            }),
    {
        FcgiContext {
            method: method.to_owned(),
            path: path.to_owned(),
            query,
            incoming_headers: headers,
            incoming_body: body,
            outgoing_headers: Pairs::new(),
            outgoing_body: Vec::new(),
            created_at: now(),
        }
    }

    /// Returns the request method
    pub fn method(&self) -> (r: &str)
        ensures
            r@ == self@.method,
    {
        self.method.as_str()
    }

    /// Returns the request path
    pub fn path(&self) -> (r: &str)
        ensures
            r@ == self@.path,
    {
        self.path.as_str()
    }

    /// Returns the value of a key from the query string
    pub fn query_value(&self, key: &str) -> (r: Option<&str>)
        ensures
            r is Some <==> has_name(self@.query, key@),
            r matches Some(v) ==> lookup(self@.query, key@) == Some(v@),
    {
        self.query.get(key)
    }

    /// Returns the value of the request header `name` if it exists
    pub fn get_header(&self, header: &str) -> (r: Option<&str>)
        ensures
            r is Some <==> has_name(self@.incoming_headers, header@),
            r matches Some(v) ==> lookup(self@.incoming_headers, header@) == Some(v@),
    {
        self.incoming_headers.get(header)
    }

    /// Returns the request body.
    pub fn body(&self) -> (r: &[u8])
        ensures
            r@ == self@.incoming_body,
    {
        self.incoming_body.as_slice()
    }

    /// Returns the value of the response header `name` if it is set
    pub fn response_header(&self, header: &str) -> (r: Option<&str>)
        ensures
            r is Some <==> has_name(self@.outgoing_headers, header@),
            r matches Some(v) ==> lookup(self@.outgoing_headers, header@) == Some(v@),
    {
        self.outgoing_headers.get(header)
    }

    /// Returns a new context with the response `Content-Type` header set
    pub fn with_content_type(self, content_type: &str) -> (r: Self)
        ensures
            r@ == (FcgiContextView {
                outgoing_headers: place(self@.outgoing_headers, "Content-Type"@, content_type@),
                ..self@
            }),
    {
        self.with_header("Content-Type", content_type)
    }

    /// Returns a new context with the response status set
    pub fn with_status(self, code: u16) -> (r: Self)
        ensures
            r@ == (FcgiContextView {
                outgoing_headers: place(
                    self@.outgoing_headers,
                    "Status"@,
                    decimal(code as nat),
                ),
                ..self@
            }),
    {
        let text = decimal_string(code as u32);
        self.with_header("Status", text.as_str())
    }

    /// Returns a new context with the location response header set
    pub fn with_location(self, location: &str) -> (r: Self)
        ensures
            r@ == (FcgiContextView {
                outgoing_headers: place(self@.outgoing_headers, "Location"@, location@),
                ..self@
            }),
    {
        self.with_header("Location", location)
    }

    /// Returns a new context with the response body set
    pub fn with_body(self, body: &str) -> (r: Self)
        ensures
            r@ == (FcgiContextView { outgoing_body: utf8(body@), ..self@ }),
    {
        self.with_raw_body(slice_to_vec(body.as_bytes()))
    }

    /// Returns a new context with the response body set using bytes
    pub fn with_raw_body(self, body: Vec<u8>) -> (r: Self)
        ensures
            r@ == (FcgiContextView { outgoing_body: body@, ..self@ }),
            r.spec_created_at() == self.spec_created_at(),
    {
        proof {
            use_type_invariant(&self);
        }
        FcgiContext {
            method: self.method,
            path: self.path,
            query: self.query,
            incoming_headers: self.incoming_headers,
            incoming_body: self.incoming_body,
            outgoing_headers: self.outgoing_headers,
            outgoing_body: body,
            created_at: self.created_at,
        }
    }

    /// Returns a new context with the response body set and the content type set to
    /// `text/html`.
    pub fn with_html_body(self, html: &str) -> (r: Self)
        ensures
            r@ == (FcgiContextView {
                outgoing_headers: place(self@.outgoing_headers, "Content-Type"@, "text/html"@),
                outgoing_body: utf8(html@),
                ..self@
            }),
    {
        self.with_content_type("text/html").with_body(html)
    }

    /// Returns a new context with the response body set and the content type set to
    /// `application/json`
    pub fn with_json_body(self, json: &str) -> (r: Self)
        ensures
            r@ == (FcgiContextView {
                outgoing_headers: place(
                    self@.outgoing_headers,
                    "Content-Type"@,
                    "application/json"@,
                ),
                outgoing_body: utf8(json@),
                ..self@
            }),
    {
        self.with_content_type("application/json").with_body(json)
    }

    /// Returns a new context that will trigger a permanent redirect
    ///
    /// The browser receiving the request will re-make the request with `path` as the
    /// new target with method and body unchanged.
    pub fn with_permanent_redirect(self, path: &str) -> (r: Self)
        ensures
            r@ == (FcgiContextView {
                outgoing_headers: place(
                    place(self@.outgoing_headers, "Status"@, decimal(308)),
                    "Location"@,
                    path@,
                ),
                ..self@
            }),
    {
        self.with_status(status::PERMANENT_REDIRECT).with_location(path)
    }

    /// Returns a new context that will trigger a temporary redirect
    ///
    /// The browser receiving the request will re-make the request with `path` as the
    /// new target with method and body unchanged.
    pub fn with_temporary_redirect(self, path: &str) -> (r: Self)
        ensures
            r@ == (FcgiContextView {
                outgoing_headers: place(
                    place(self@.outgoing_headers, "Status"@, decimal(307)),
                    "Location"@,
                    path@,
                ),
                ..self@
            }),
    {
        self.with_status(status::TEMPORARY_REDIRECT).with_location(path)
    }

    /// Returns a new context with the given header set. The response headers stay
    /// in the order of their names.
    pub fn with_header(self, key: &str, value: &str) -> (r: Self)
        ensures
            r@ == (FcgiContextView {
                outgoing_headers: place(self@.outgoing_headers, key@, value@),
                ..self@
            }),
            sorted(self@.outgoing_headers),
            sorted(r@.outgoing_headers),
            r.spec_created_at() == self.spec_created_at(),
    {
        proof {
            use_type_invariant(&self);
        }
        FcgiContext {
            method: self.method,
            path: self.path,
            query: self.query,
            incoming_headers: self.incoming_headers,
            incoming_body: self.incoming_body,
            outgoing_headers: self.outgoing_headers.place(key.to_owned(), value.to_owned()),
            outgoing_body: self.outgoing_body,
            created_at: self.created_at,
        }
    }

    /// Appends the bytes that the response is sent as. The header lines come in the
    /// order of the headers' names.
    pub fn write_stdout_bytes(&self, out: &mut Vec<u8>)
        ensures
            final(out)@ == old(out)@ + context_stdout_bytes(self@),
            sorted(self@.outgoing_headers),
    {
        proof {
            use_type_invariant(self);
        }
        write_header_lines(&self.outgoing_headers, out);
        out.extend_from_slice("\n".as_bytes());
        out.extend_from_slice(self.outgoing_body.as_slice());
        assert(out@ =~= old(out)@ + context_stdout_bytes(self@));
    }
}

} // verus!
