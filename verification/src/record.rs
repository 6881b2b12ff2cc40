//! FastCGI records: one type per kind of message, and the codec between a record
//! and the bytes of its payload.

pub mod abort_request;
pub mod begin_request;
pub mod data;
pub mod end_request;
pub mod get_values;
pub mod get_values_result;
pub mod pairs;
pub mod params;
pub mod protocol_status;
pub mod role;
pub mod stderr;
pub mod stdin;
pub mod stdout;
pub mod unknown;

use crate::error::Error;
use crate::record::abort_request::AbortRequest;
use crate::record::begin_request::{lemma_begin_request_round_trip, BeginRequest, BeginRequestView};
use crate::record::data::Data;
use crate::record::end_request::{lemma_end_request_round_trip, EndRequest, EndRequestView};
use crate::record::get_values::GetValues;
use crate::record::get_values_result::GetValuesResult;
use crate::record::pairs::{decode_pairs, distinct, lemma_pairs_round_trip, lengths_fit, pairs_bytes};
use crate::record::params::Params;
use crate::record::role::Role;
use crate::record::stderr::Stderr;
use crate::record::stdin::Stdin;
use crate::record::stdout::Stdout;
use crate::record::unknown::UnknownType;
use vstd::prelude::*;

verus! {

pub const FCGI_BEGIN_REQUEST: u8 = 1;

pub const FCGI_ABORT_REQUEST: u8 = 2;

pub const FCGI_END_REQUEST: u8 = 3;

pub const FCGI_PARAMS: u8 = 4;

pub const FCGI_STDIN: u8 = 5;

pub const FCGI_STDOUT: u8 = 6;

pub const FCGI_STDERR: u8 = 7;

pub const FCGI_DATA: u8 = 8;

pub const FCGI_GET_VALUES: u8 = 9;

pub const FCGI_GET_VALUES_RESULT: u8 = 10;

pub const FCGI_UNKNOWN_TYPE: u8 = 11;

/// True for the types of the records that concern the protocol itself rather
/// than a request.
pub open spec fn is_management_type(type_id: u8) -> bool {
    type_id == FCGI_GET_VALUES || type_id == FCGI_GET_VALUES_RESULT || type_id
        == FCGI_UNKNOWN_TYPE
}

/// True for the types of the records that always travel in exactly one packet.
pub open spec fn is_discrete_type(type_id: u8) -> bool {
    is_management_type(type_id) || type_id == FCGI_BEGIN_REQUEST || type_id
        == FCGI_ABORT_REQUEST || type_id == FCGI_END_REQUEST
}

/// True for the types of the management records.
pub fn management_type(type_id: u8) -> (r: bool)
    ensures
        r == is_management_type(type_id),
{
    type_id == FCGI_GET_VALUES || type_id == FCGI_GET_VALUES_RESULT || type_id
        == FCGI_UNKNOWN_TYPE
}

/// True for the types of the discrete records.
pub fn discrete_type(type_id: u8) -> (r: bool)
    ensures
        r == is_discrete_type(type_id),
{
    management_type(type_id) || type_id == FCGI_BEGIN_REQUEST || type_id == FCGI_ABORT_REQUEST
        || type_id == FCGI_END_REQUEST
}

/// What a record holds.
pub enum RecordView {
    GetValues(Seq<(Seq<char>, Seq<char>)>),
    GetValuesResult(Seq<(Seq<char>, Seq<char>)>),
    BeginRequest(BeginRequestView),
    Params(Seq<(Seq<char>, Seq<char>)>),
    Stdin(Seq<u8>),
    Data(Seq<u8>),
    Stdout(Seq<u8>),
    Stderr(Seq<u8>),
    AbortRequest,
    UnknownType(u8),
    EndRequest(EndRequestView),
}

/// A single FastCGI message
///
/// All data that flows between FastCGI client and server is carried in records. The
/// variant used communicates the intent of the message
#[derive(Debug, Clone, PartialEq, Eq)]
pub enum Record {
    GetValues(GetValues),
    GetValuesResult(GetValuesResult),
    BeginRequest(BeginRequest),
    Params(Params),
    Stdin(Stdin),
    Data(Data),
    Stdout(Stdout),
    Stderr(Stderr),
    AbortRequest(AbortRequest),
    UnknownType(UnknownType),
    EndRequest(EndRequest),
}

impl View for Record {
    type V = RecordView;

    open spec fn view(&self) -> RecordView {
        match self {
            Record::GetValues(r) => RecordView::GetValues(r@),
            Record::GetValuesResult(r) => RecordView::GetValuesResult(r@),
            Record::BeginRequest(r) => RecordView::BeginRequest(r@),
            Record::Params(r) => RecordView::Params(r@),
            Record::Stdin(r) => RecordView::Stdin(r@),
            Record::Data(r) => RecordView::Data(r@),
            Record::Stdout(r) => RecordView::Stdout(r@),
            Record::Stderr(r) => RecordView::Stderr(r@),
            Record::AbortRequest(_) => RecordView::AbortRequest,
            Record::UnknownType(r) => RecordView::UnknownType(r@),
            Record::EndRequest(r) => RecordView::EndRequest(r@),
        }
    }
}

impl Record {
    /// The type that a record travels under.
    pub open spec fn spec_type_id(v: RecordView) -> u8 {
        match v {
            RecordView::GetValues(_) => FCGI_GET_VALUES,
            RecordView::GetValuesResult(_) => FCGI_GET_VALUES_RESULT,
            RecordView::BeginRequest(_) => FCGI_BEGIN_REQUEST,
            RecordView::Params(_) => FCGI_PARAMS,
            RecordView::Stdin(_) => FCGI_STDIN,
            RecordView::Data(_) => FCGI_DATA,
            RecordView::Stdout(_) => FCGI_STDOUT,
            RecordView::Stderr(_) => FCGI_STDERR,
            RecordView::AbortRequest => FCGI_ABORT_REQUEST,
            RecordView::EndRequest(_) => FCGI_END_REQUEST,
            RecordView::UnknownType(_) => FCGI_UNKNOWN_TYPE,
        }
    }

    /// The payload of a record.
    pub open spec fn encode(v: RecordView) -> Seq<u8> {
        match v {
            RecordView::GetValues(s) => pairs_bytes(s),
            RecordView::GetValuesResult(s) => pairs_bytes(s),
            RecordView::BeginRequest(b) => BeginRequest::encode(b),
            RecordView::Params(s) => pairs_bytes(s),
            RecordView::Stdin(b) => b,
            RecordView::Data(b) => b,
            RecordView::Stdout(b) => b,
            RecordView::Stderr(b) => b,
            RecordView::AbortRequest => Seq::empty(),
            RecordView::EndRequest(e) => EndRequest::encode(e),
            RecordView::UnknownType(t) => UnknownType::encode(t),
        }
    }

    /// The record that a payload of the given type stands for.
    pub open spec fn decode(type_id: u8, bytes: Seq<u8>) -> Result<RecordView, Error> {
        if type_id == FCGI_GET_VALUES {
            match decode_pairs(bytes, Seq::empty()) {
                Ok(s) => Ok(RecordView::GetValues(s)),
                Err(e) => Err(e),
            }
        } else if type_id == FCGI_GET_VALUES_RESULT {
            match decode_pairs(bytes, Seq::empty()) {
                Ok(s) => Ok(RecordView::GetValuesResult(s)),
                Err(e) => Err(e),
            }
        } else if type_id == FCGI_BEGIN_REQUEST {
            match BeginRequest::decode(bytes) {
                Ok(b) => Ok(RecordView::BeginRequest(b)),
                Err(e) => Err(e),
            }
        } else if type_id == FCGI_PARAMS {
            match decode_pairs(bytes, Seq::empty()) {
                Ok(s) => Ok(RecordView::Params(s)),
                Err(e) => Err(e),
            }
        } else if type_id == FCGI_STDIN {
            Ok(RecordView::Stdin(bytes))
        } else if type_id == FCGI_DATA {
            Ok(RecordView::Data(bytes))
        } else if type_id == FCGI_STDOUT {
            Ok(RecordView::Stdout(bytes))
        } else if type_id == FCGI_STDERR {
            Ok(RecordView::Stderr(bytes))
        } else if type_id == FCGI_ABORT_REQUEST {
            match AbortRequest::decode(bytes) {
                Ok(_) => Ok(RecordView::AbortRequest),
                Err(e) => Err(e),
            }
        } else if type_id == FCGI_END_REQUEST {
            match EndRequest::decode(bytes) {
                Ok(e) => Ok(RecordView::EndRequest(e)),
                Err(e) => Err(e),
            }
        } else if type_id == FCGI_UNKNOWN_TYPE {
            match UnknownType::decode(bytes) {
                Ok(t) => Ok(RecordView::UnknownType(t)),
                Err(e) => Err(e),
            }
        } else {
            Err(Error::UnknownRecordType(type_id))
        }
    }

    /// The type that it travels under.
    pub fn type_id(&self) -> (r: u8)
        ensures
            r == Self::spec_type_id(self@),
    {
        match self {
            Record::GetValues(_) => FCGI_GET_VALUES,
            Record::GetValuesResult(_) => FCGI_GET_VALUES_RESULT,
            Record::BeginRequest(_) => FCGI_BEGIN_REQUEST,
            Record::Params(_) => FCGI_PARAMS,
            Record::Stdin(_) => FCGI_STDIN,
            Record::Data(_) => FCGI_DATA,
            Record::Stdout(_) => FCGI_STDOUT,
            Record::Stderr(_) => FCGI_STDERR,
            Record::AbortRequest(_) => FCGI_ABORT_REQUEST,
            Record::EndRequest(_) => FCGI_END_REQUEST,
            Record::UnknownType(_) => FCGI_UNKNOWN_TYPE,
        }
    }

    /// True for a record that concerns the protocol itself rather than a request.
    pub fn is_management_record(&self) -> (r: bool)
        ensures
            r == is_management_type(Self::spec_type_id(self@)),
    {
        management_type(self.type_id())
    }

    /// Reads the record that a payload of the given type stands for.
    pub fn from_bytes(type_id: u8, payload: Vec<u8>) -> (r: Result<Self, Error>)
        ensures
            match Self::decode(type_id, payload@) {
                Ok(v) => r matches Ok(x) && x@ == v,
                Err(e) => r matches Err(f) && f == e,
            },
    {
        if type_id == FCGI_GET_VALUES {
            match GetValues::from_record_bytes(payload) {
                Ok(r) => Ok(Record::GetValues(r)),
                Err(e) => Err(e),
            }
        } else if type_id == FCGI_GET_VALUES_RESULT {
            match GetValuesResult::from_record_bytes(payload) {
                Ok(r) => Ok(Record::GetValuesResult(r)),
                Err(e) => Err(e),
            }
        } else if type_id == FCGI_BEGIN_REQUEST {
            match BeginRequest::from_record_bytes(payload) {
                Ok(r) => Ok(Record::BeginRequest(r)),
                Err(e) => Err(e),
            }
        } else if type_id == FCGI_PARAMS {
            match Params::from_record_bytes(payload) {
                Ok(r) => Ok(Record::Params(r)),
                Err(e) => Err(e),
            }
        } else if type_id == FCGI_STDIN {
            match Stdin::from_record_bytes(payload) {
                Ok(r) => Ok(Record::Stdin(r)),
                Err(e) => Err(e),
            }
        } else if type_id == FCGI_DATA {
            match Data::from_record_bytes(payload) {
                Ok(r) => Ok(Record::Data(r)),
                Err(e) => Err(e),
            }
        } else if type_id == FCGI_STDOUT {
            match Stdout::from_record_bytes(payload) {
                Ok(r) => Ok(Record::Stdout(r)),
                Err(e) => Err(e),
            }
        } else if type_id == FCGI_STDERR {
            match Stderr::from_record_bytes(payload) {
                Ok(r) => Ok(Record::Stderr(r)),
                Err(e) => Err(e),
            }
        } else if type_id == FCGI_ABORT_REQUEST {
            match AbortRequest::from_record_bytes(payload) {
                Ok(r) => Ok(Record::AbortRequest(r)),
                Err(e) => Err(e),
            }
        } else if type_id == FCGI_END_REQUEST {
            match EndRequest::from_record_bytes(payload) {
                Ok(r) => Ok(Record::EndRequest(r)),
                Err(e) => Err(e),
            }
        } else if type_id == FCGI_UNKNOWN_TYPE {
            match UnknownType::from_record_bytes(payload) {
                Ok(r) => Ok(Record::UnknownType(r)),
                Err(e) => Err(e),
            }
        } else {
            Err(Error::UnknownRecordType(type_id))
        }
    }

    /// Appends the record's payload.
    pub fn write_bytes(&self, out: &mut Vec<u8>)
        ensures
            final(out)@ == old(out)@ + Self::encode(self@),
    {
        match self {
            Record::GetValues(r) => r.write_record_bytes(out),
            Record::GetValuesResult(r) => r.write_record_bytes(out),
            Record::BeginRequest(r) => r.write_record_bytes(out),
            Record::Params(r) => r.write_record_bytes(out),
            Record::Stdin(r) => r.write_record_bytes(out),
            Record::Data(r) => r.write_record_bytes(out),
            Record::Stdout(r) => r.write_record_bytes(out),
            Record::Stderr(r) => r.write_record_bytes(out),
            Record::AbortRequest(r) => {
                r.write_record_bytes(out);
                assert(out@ =~= old(out)@ + Seq::<u8>::empty());
            },
            Record::EndRequest(r) => r.write_record_bytes(out),
            Record::UnknownType(r) => r.write_record_bytes(out),
        }
    }
}

/// True of a record that its payload can carry whole: its names are distinct and
/// short enough for the wire, and a `BeginRequest` asks for the responder role.
pub open spec fn faithful(v: RecordView) -> bool {
    match v {
        RecordView::GetValues(s) => distinct(s) && lengths_fit(s),
        RecordView::GetValuesResult(s) => distinct(s) && lengths_fit(s),
        RecordView::Params(s) => distinct(s) && lengths_fit(s),
        RecordView::BeginRequest(b) => b.role == Role::Responder,
        _ => true,
    }
}

/// Round trip: the payload written for a record, read back under the record's
/// type, gives the record again.
pub proof fn lemma_record_round_trip(v: RecordView)
    requires
        faithful(v),
    ensures
        Record::decode(Record::spec_type_id(v), Record::encode(v)) == Ok::<RecordView, Error>(v),
{
    match v {
        RecordView::GetValues(s) => lemma_pairs_round_trip(s),
        RecordView::GetValuesResult(s) => lemma_pairs_round_trip(s),
        RecordView::Params(s) => lemma_pairs_round_trip(s),
        RecordView::BeginRequest(b) => lemma_begin_request_round_trip(b),
        RecordView::EndRequest(e) => lemma_end_request_round_trip(e),
        _ => {},
    }
}

} // verus!
