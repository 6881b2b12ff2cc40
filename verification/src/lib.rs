//! A FastCGI responder engine.
//!
//! The crate holds what a FastCGI application server decides and computes: the
//! codec between records and the bytes of their payloads, the framing of records
//! into packets, and the conversation on one connection. Each function states what
//! it returns over plain sequences of bytes and characters, and is proved against
//! that statement.
//!
//! # Terminology
//!
//! - FastCGI client: The program that initiates a FastCGI connection. In most cases,
//!   this is the HTTP web server; it receives an HTTP request from a browser, and
//!   forwards that request to the FastCGI server.
//! - FastCGI server/application server: A program that listens on a socket, and
//!   responds to requests from a FastCGI client.
//! - Packet: one physical message on the wire.
//! - Record: a logically complete message. A large record travels in several
//!   packets.
//!
//! # What is served
//!
//! - Only the responder role is played.
//! - A connection carries one request; a client that asks to keep the connection,
//!   or to multiplex requests on it, is refused.
//! - `FCGI_UNKNOWN_TYPE` is sent in answer to any record of an unknown type.
//!
//! # Modules
//!
//! - [`record`]: the kinds of records and their payloads.
//! - [`connection`]: packets, and reading and writing records through them.
//! - [`context`]: the request given to a handler and the response it gives back.
//! - [`fastcgi_responder`]: the conversation on one connection.
//! - [`router`]: handlers by method and path.
//! - [`fcgi_context`], [`pipe`], [`request`], [`response`]: requests and responses
//!   as pipelines see them.

pub mod connection;
pub mod context;
pub mod encoding;
pub mod error;
pub mod fastcgi_responder;
pub mod fcgi_context;
pub mod pipe;
pub mod record;
pub mod request;
pub mod response;
pub mod router;
pub mod status;
