//! HTTP status code constants

use vstd::prelude::*;

verus! {

pub const OK: u16 = 200;

pub const NOT_MODIFIED: u16 = 304;

pub const TEMPORARY_REDIRECT: u16 = 307;

pub const PERMANENT_REDIRECT: u16 = 308;

pub const BAD_REQUEST: u16 = 400;

pub const NOT_FOUND: u16 = 404;

pub const METHOD_NOT_ALLOWED: u16 = 405;

pub const TEAPOT: u16 = 418;

pub const INTERNAL_SERVER_ERROR: u16 = 500;

} // verus!
