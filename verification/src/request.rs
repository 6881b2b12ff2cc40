//! A request as the CGI meta-variables and the body that a client sent.

use crate::encoding::lemma_utf8_empty;
use crate::record::pairs::lookup;
use crate::record::params::Params;
use crate::record::stdin::Stdin;
use vstd::prelude::*;

verus! {

/// A request from a FastCGI client.
///
/// Common [request metavariables](https://datatracker.ietf.org/doc/html/rfc3875#section-4.1)
/// can be retrieved using the similarly named functions. These functions return
/// `None` when the variable has no value or if its value is the empty string.
///
/// Note that the presence/absence of these metavariables is dependent on the
/// FastCGI client. The FastCGI client might also forward HTTP headers prefixed with
/// `HTTP_*`. Use [`Request::get`] to access such metavariables for which a
/// dedicated method does not exist.
#[derive(Debug, Clone)]
pub struct Request {
    vars: Params,
    body: Stdin,
}

/// What a request holds.
pub struct RequestView {
    pub vars: Seq<(Seq<char>, Seq<char>)>,
    pub body: Seq<u8>,
}

impl View for Request {
    type V = RequestView;

    closed spec fn view(&self) -> RequestView {
        RequestView { vars: self.vars@, body: self.body@ }
    }
}

/// The value of the variable `name`, where the variables have it and it is not
/// empty.
pub open spec fn meta(vars: Seq<(Seq<char>, Seq<char>)>, name: Seq<char>) -> Option<Seq<char>> {
    match lookup(vars, name) {
        Some(value) => if value.len() == 0 {
            None
        } else {
            Some(value)
        },
        None => None,
    }
}

impl Request {
    /// The request with the given variables and body.
    pub fn new(vars: Params, body: Stdin) -> (r: Self)
        ensures
            r@ == (RequestView { vars: vars@, body: body@ }),
    {
        Request { vars, body }
    }

    /// Returns the value of the CGI meta-variable `name`, if it exists
    pub fn get(&self, name: &str) -> (r: Option<&str>)
        ensures
            r is Some <==> meta(self@.vars, name@) is Some,
            r matches Some(v) ==> meta(self@.vars, name@) == Some(v@),
    {
        match self.vars.get(name) {
            Some(value) => {
                proof {
                    lemma_utf8_empty(value@);
                }
                if value.as_bytes().len() == 0 {
                    None
                } else {
                    Some(value)
                }
            },
            None => None,
        }
    }

    /// Returns the body of the request.
    ///
    /// The returned `Vec` will be empty if the request had no body.
    /// If there was a body, note that subsequent invocations will return an empty
    /// `Vec`.
    pub fn read_body(&mut self) -> (r: Vec<u8>)
        ensures
            r@ == old(self)@.body,
            final(self)@ == (RequestView { body: Seq::empty(), ..old(self)@ }),
    {
        self.body.take()
    }

    /// Returns the mechanism used by the server to authenticate the user, if any.
    pub fn get_auth_type(&self) -> (r: Option<&str>)
        ensures
            r is Some <==> meta(self@.vars, "AUTH_TYPE"@) is Some,
            r matches Some(v) ==> meta(self@.vars, "AUTH_TYPE"@) == Some(v@),
    {
        self.get("AUTH_TYPE")
    }

    /// Returns the size of the message body attached to the request, if any.
    pub fn get_content_length(&self) -> (r: Option<&str>)
        ensures
            r is Some <==> meta(self@.vars, "CONTENT_LENGTH"@) is Some,
            r matches Some(v) ==> meta(self@.vars, "CONTENT_LENGTH"@) == Some(v@),
    {
        self.get("CONTENT_LENGTH")
    }

    /// Returns the media type of the request body if it exists.
    pub fn get_content_type(&self) -> (r: Option<&str>)
        ensures
            r is Some <==> meta(self@.vars, "CONTENT_TYPE"@) is Some,
            r matches Some(v) ==> meta(self@.vars, "CONTENT_TYPE"@) == Some(v@),
    {
        self.get("CONTENT_TYPE")
    }

    /// Returns the CGI version being used.
    pub fn get_gateway_interface(&self) -> (r: Option<&str>)
        ensures
            r is Some <==> meta(self@.vars, "GATEWAY_INTERFACE"@) is Some,
            r matches Some(v) ==> meta(self@.vars, "GATEWAY_INTERFACE"@) == Some(v@),
    {
        self.get("GATEWAY_INTERFACE")
    }

    /// Returns the path requested.
    pub fn get_path_info(&self) -> (r: Option<&str>)
        ensures
            r is Some <==> meta(self@.vars, "PATH_INFO"@) is Some,
            r matches Some(v) ==> meta(self@.vars, "PATH_INFO"@) == Some(v@),
    {
        self.get("PATH_INFO")
    }

    /// Returns the URL-encoded search or parameter string.
    pub fn get_query_string(&self) -> (r: Option<&str>)
        ensures
            r is Some <==> meta(self@.vars, "QUERY_STRING"@) is Some,
            r matches Some(v) ==> meta(self@.vars, "QUERY_STRING"@) == Some(v@),
    {
        self.get("QUERY_STRING")
    }

    /// Returns the address of the client sending the request.
    pub fn get_remote_addr(&self) -> (r: Option<&str>)
        ensures
            r is Some <==> meta(self@.vars, "REMOTE_ADDR"@) is Some,
            r matches Some(v) ==> meta(self@.vars, "REMOTE_ADDR"@) == Some(v@),
    {
        self.get("REMOTE_ADDR")
    }

    /// Returns the fully qualified address of the client sending the request.
    pub fn get_remote_host(&self) -> (r: Option<&str>)
        ensures
            r is Some <==> meta(self@.vars, "REMOTE_HOST"@) is Some,
            r matches Some(v) ==> meta(self@.vars, "REMOTE_HOST"@) == Some(v@),
    {
        self.get("REMOTE_HOST")
    }

    /// Returns the user identification string supplied by the client as part of user authentication.
    pub fn get_remote_user(&self) -> (r: Option<&str>)
        ensures
            r is Some <==> meta(self@.vars, "REMOTE_USER"@) is Some,
            r matches Some(v) ==> meta(self@.vars, "REMOTE_USER"@) == Some(v@),
    {
        self.get("REMOTE_USER")
    }

    /// Returns the request method used.
    pub fn get_request_method(&self) -> (r: Option<&str>)
        ensures
            r is Some <==> meta(self@.vars, "REQUEST_METHOD"@) is Some,
            r matches Some(v) ==> meta(self@.vars, "REQUEST_METHOD"@) == Some(v@),
    {
        self.get("REQUEST_METHOD")
    }

    /// Returns the name of the server to which this request was directed.
    pub fn get_server_name(&self) -> (r: Option<&str>)
        ensures
            r is Some <==> meta(self@.vars, "SERVER_NAME"@) is Some,
            r matches Some(v) ==> meta(self@.vars, "SERVER_NAME"@) == Some(v@),
    {
        self.get("SERVER_NAME")
    }

    /// Returns the TCP/IP port on which this request was received
    pub fn get_server_port(&self) -> (r: Option<&str>)
        ensures
            r is Some <==> meta(self@.vars, "SERVER_PORT"@) is Some,
            r matches Some(v) ==> meta(self@.vars, "SERVER_PORT"@) == Some(v@),
    {
        self.get("SERVER_PORT")
    }

    /// Returns the name and version of the application protocol used for this request
    pub fn get_server_protocol(&self) -> (r: Option<&str>)
        ensures
            r is Some <==> meta(self@.vars, "SERVER_PROTOCOL"@) is Some,
            r matches Some(v) ==> meta(self@.vars, "SERVER_PROTOCOL"@) == Some(v@),
    {
        self.get("SERVER_PROTOCOL")
    }

    /// Returns the name and version of the FastCGI client
    pub fn get_server_software(&self) -> (r: Option<&str>)
        ensures
            r is Some <==> meta(self@.vars, "SERVER_SOFTWARE"@) is Some,
            r matches Some(v) ==> meta(self@.vars, "SERVER_SOFTWARE"@) == Some(v@),
    {
        self.get("SERVER_SOFTWARE")
    }
}

} // verus!
