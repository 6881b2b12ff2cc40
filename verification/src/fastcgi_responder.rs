//! The conversation on one connection.
//!
//! There are two expected flows:
//! + A `GetValues` arrives, and is answered with a `GetValuesResult`.
//! + A `BeginRequest` arrives, followed by `Params` and `Stdin`. The handler is
//!   called on the request they make up, and its response is sent as `Stdout`
//!   followed by `EndRequest`.
//!
//! Either way the connection ends after the answer.

use crate::connection::{
    lemma_record_read_back, parse_record, record_bytes, Connection, ConnectionView,
};
use crate::context::{stdout_bytes, Request, RequestView, Response, ResponseView};
use crate::encoding::{str_eq, strip_prefix};
use crate::error::Error;
use crate::record::begin_request::{BeginRequest, BeginRequestView};
use crate::record::end_request::{EndRequest, EndRequestView};
use crate::record::get_values::GetValues;
use crate::record::get_values_result::GetValuesResult;
use crate::record::pairs::{
    distinct, has_name, index_of, insert, lemma_without_other, lengths_fit, lookup, without, Pairs,
};
use crate::record::protocol_status::ProtocolStatus;
use crate::record::role::Role;
use crate::record::stdout::Stdout;
use crate::record::unknown::UnknownType;
use crate::record::{Record, RecordView};
use vstd::prelude::*;
use vstd::string::*;

verus! {

/// What `convert_case` makes of a string when it converts it to train case
/// (`Case::Train`): the words capitalised and joined by hyphens.
pub uninterp spec fn train_case(s: Seq<char>) -> Seq<char>;

/// `Casing::to_case` with `Case::Train`.
#[verifier::external_body]
fn to_train_case(s: &str) -> (r: String)
    ensures
        r@ == train_case(s@),
{
    convert_case::Casing::to_case(&s, convert_case::Case::Train)
}

/// The headers among the variables of a request: each variable whose name starts
/// with `HTTP_`, under the rest of its name in train case. Where two variables
/// come to the same header, the later one counts.
pub open spec fn http_headers(vars: Seq<(Seq<char>, Seq<char>)>) -> Seq<(Seq<char>, Seq<char>)>
    decreases vars.len(),
{
    if vars.len() == 0 {
        Seq::empty()
    } else {
        let earlier = http_headers(vars.drop_last());
        let (name, value) = vars.last();
        if "HTTP_"@.is_prefix_of(name) {
            insert(earlier, train_case(name.skip("HTTP_"@.len() as int)), value)
        } else {
            earlier
        }
    }
}

/// The request that the variables and the body of a connection make up. The
/// variables `REQUEST_METHOD`, `PATH_INFO` and `QUERY_STRING` have to be there.
pub open spec fn request_of(vars: Seq<(Seq<char>, Seq<char>)>, body: Seq<u8>) -> Option<
    RequestView,
> {
    if has_name(vars, "REQUEST_METHOD"@) && has_name(vars, "PATH_INFO"@) && has_name(
        vars,
        "QUERY_STRING"@,
    ) {
        Some(
            RequestView {
                method: lookup(vars, "REQUEST_METHOD"@)->0,
                path: lookup(vars, "PATH_INFO"@)->0,
                query_string: lookup(vars, "QUERY_STRING"@)->0,
                headers: http_headers(vars),
                body,
            },
        )
    } else {
        None
    }
}

/// Variables whose names do not start with `HTTP_` make no headers: without one
/// of them, the headers are the same.
pub proof fn lemma_headers_without(vars: Seq<(Seq<char>, Seq<char>)>, k: int)
    requires
        0 <= k < vars.len(),
        !"HTTP_"@.is_prefix_of(vars[k].0),
    ensures
        http_headers(vars.remove(k)) == http_headers(vars),
    decreases vars.len(),
{
    if k == vars.len() - 1 {
        assert(vars.remove(k) =~= vars.drop_last());
    } else {
        let shorter = vars.remove(k);
        assert(shorter.drop_last() =~= vars.drop_last().remove(k));
        assert(shorter.last() == vars.last());
        lemma_headers_without(vars.drop_last(), k);
    }
}

/// The three required variables have different names, none of which starts with
/// `HTTP_`.
proof fn lemma_required_names()
    ensures
        "REQUEST_METHOD"@ != "PATH_INFO"@,
        "REQUEST_METHOD"@ != "QUERY_STRING"@,
        "PATH_INFO"@ != "QUERY_STRING"@,
        !"HTTP_"@.is_prefix_of("REQUEST_METHOD"@),
        !"HTTP_"@.is_prefix_of("PATH_INFO"@),
        !"HTTP_"@.is_prefix_of("QUERY_STRING"@),
{
    reveal_strlit("REQUEST_METHOD");
    reveal_strlit("PATH_INFO");
    reveal_strlit("QUERY_STRING");
    reveal_strlit("HTTP_");
    let http = "HTTP_"@;
    assert("REQUEST_METHOD"@[0] == 'R' && "PATH_INFO"@[0] == 'P' && "QUERY_STRING"@[0] == 'Q');
    assert(http[0] == 'H');
    assert(http.is_prefix_of("REQUEST_METHOD"@) ==> "REQUEST_METHOD"@.subrange(0, 5)[0] == http[0]);
    assert(http.is_prefix_of("PATH_INFO"@) ==> "PATH_INFO"@.subrange(0, 5)[0] == http[0]);
    assert(http.is_prefix_of("QUERY_STRING"@) ==> "QUERY_STRING"@.subrange(0, 5)[0] == http[0]);
}

/// Taking a variable whose name does not start with `HTTP_` out of the variables
/// leaves the headers as they were.
proof fn lemma_headers_after(vars: Seq<(Seq<char>, Seq<char>)>, name: Seq<char>)
    requires
        !"HTTP_"@.is_prefix_of(name),
    ensures
        http_headers(without(vars, name)) == http_headers(vars),
{
    if has_name(vars, name) {
        lemma_headers_without(vars, index_of(vars, name));
    }
}

/// Picks the headers among the variables of a request.
pub fn headers_from(vars: &Pairs) -> (r: Pairs)
    ensures
        r@ == http_headers(vars@),
{
    let n: usize = vars.len();
    let mut headers = Pairs::new();
    let mut i: usize = 0;
    assert(vars@.take(0) =~= Seq::<(Seq<char>, Seq<char>)>::empty());
    while i < n
        invariant
            n == vars@.len(),
            i <= n,
            headers@ == http_headers(vars@.take(i as int)),
        decreases n - i,
    {
        let name = vars.name_at(i);
        let value = vars.value_at(i);
        proof {
            let next = vars@.take(i + 1);
            assert(next.drop_last() =~= vars@.take(i as int));
            assert(next.last() == (name@, value@));
        }
        match strip_prefix(name, "HTTP_") {
            Some(suffix) => {
                assert(suffix@ =~= name@.skip("HTTP_"@.len() as int));
                headers.insert(to_train_case(suffix), value.to_owned());
            },
            None => {},
        }
        i += 1;
    }
    assert(vars@.take(n as int) =~= vars@);
    headers
}

/// Makes the request out of the variables and the body that a connection
/// delivered. Returns nothing where a required variable is missing.
pub fn request_from(vars: Pairs, body: Vec<u8>) -> (r: Option<Request>)
    ensures
        match request_of(vars@, body@) {
            Some(v) => r matches Some(request) && request@ == v,
            None => r is None,
        },
{
    let mut vars = vars;
    let ghost all = vars@;
    let ghost after_method = without(all, "REQUEST_METHOD"@);
    let ghost after_path = without(after_method, "PATH_INFO"@);
    let method = match vars.remove("REQUEST_METHOD") {
        Some(method) => method,
        None => {
            return None;
        },
    };
    proof {
        lemma_required_names();
        lemma_without_other(all, "REQUEST_METHOD"@, "PATH_INFO"@);
        lemma_without_other(all, "REQUEST_METHOD"@, "QUERY_STRING"@);
        lemma_headers_after(all, "REQUEST_METHOD"@);
    }
    let path = match vars.remove("PATH_INFO") {
        Some(path) => path,
        None => {
            return None;
        },
    };
    proof {
        lemma_without_other(after_method, "PATH_INFO"@, "QUERY_STRING"@);
        lemma_headers_after(after_method, "PATH_INFO"@);
    }
    let query_string = match vars.remove("QUERY_STRING") {
        Some(query_string) => query_string,
        None => {
            return None;
        },
    };
    proof {
        lemma_headers_after(after_path, "QUERY_STRING"@);
    }
    let headers = headers_from(&vars);
    Some(Request::new(method, path, query_string, headers, body))
}

/// The answer to a query for the application's settings: `FCGI_MPXS_CONNS` is 0
/// where the client asks for it, since connections are not multiplexed; no other
/// variable is answered.
pub open spec fn answer(names: Seq<(Seq<char>, Seq<char>)>) -> Seq<(Seq<char>, Seq<char>)> {
    if has_name(names, "FCGI_MPXS_CONNS"@) {
        seq![("FCGI_MPXS_CONNS"@, "0"@)]
    } else {
        Seq::empty()
    }
}

/// The record to send in answer to a failure to read, where the protocol has one.
pub open spec fn error_reply(e: Error) -> Option<RecordView> {
    match e {
        Error::UnsupportedRole(_) => Some(
            RecordView::EndRequest(
                EndRequestView { exit_code: 0, protocol_status: ProtocolStatus::UnknownRole },
            ),
        ),
        Error::MultiplexingUnsupported => Some(
            RecordView::EndRequest(
                EndRequestView {
                    exit_code: 0,
                    protocol_status: ProtocolStatus::MultiplexingUnsupported,
                },
            ),
        ),
        Error::UnknownRecordType(t) => Some(RecordView::UnknownType(t)),
        _ => None,
    }
}

/// The `Stdout` and the `EndRequest` that carry a response.
pub open spec fn response_records(v: ResponseView) -> (RecordView, RecordView) {
    (
        RecordView::Stdout(stdout_bytes(v)),
        RecordView::EndRequest(
            EndRequestView { exit_code: 0, protocol_status: ProtocolStatus::RequestComplete },
        ),
    )
}

/// Where a conversation stands.
pub enum SessionView {
    AwaitFirst,
    AwaitParams,
    AwaitStdin(Seq<(Seq<char>, Seq<char>)>),
    Closed,
}

/// What to do next in a conversation.
pub enum StepView {
    Continue,
    Reply(RecordView),
    Dispatch(RequestView),
    Close,
}

/// What a conversation that stands at `state` does when the outcome `event` of
/// reading a record arrives, and where it stands after.
pub open spec fn step(state: SessionView, event: Result<RecordView, Error>) -> (
    SessionView,
    StepView,
) {
    match state {
        SessionView::Closed => (SessionView::Closed, StepView::Close),
        _ => match event {
            Err(e) => match error_reply(e) {
                Some(reply) => (SessionView::Closed, StepView::Reply(reply)),
                None => (SessionView::Closed, StepView::Close),
            },
            Ok(record) => match (state, record) {
                (SessionView::AwaitFirst, RecordView::GetValues(names)) => (
                    SessionView::Closed,
                    StepView::Reply(RecordView::GetValuesResult(answer(names))),
                ),
                (SessionView::AwaitFirst, RecordView::BeginRequest(begin)) => if begin.role
                    != Role::Responder {
                    (
                        SessionView::Closed,
                        StepView::Reply(
                            RecordView::EndRequest(
                                EndRequestView {
                                    exit_code: 0,
                                    protocol_status: ProtocolStatus::UnknownRole,
                                },
                            ),
                        ),
                    )
                } else if BeginRequest::spec_keep_alive(begin) {
                    (
                        SessionView::Closed,
                        StepView::Reply(
                            RecordView::EndRequest(
                                EndRequestView {
                                    exit_code: 0,
                                    protocol_status: ProtocolStatus::MultiplexingUnsupported,
                                },
                            ),
                        ),
                    )
                } else {
                    (SessionView::AwaitParams, StepView::Continue)
                },
                (SessionView::AwaitParams, RecordView::Params(vars)) => (
                    SessionView::AwaitStdin(vars),
                    StepView::Continue,
                ),
                (SessionView::AwaitStdin(vars), RecordView::Stdin(body)) => match request_of(
                    vars,
                    body,
                ) {
                    Some(request) => (SessionView::Closed, StepView::Dispatch(request)),
                    None => (SessionView::Closed, StepView::Close),
                },
                _ => (SessionView::Closed, StepView::Close),
            },
        },
    }
}

/// What a conversation does on the input `input`, and the input that it leaves
/// unread: it reads up to three records and stops at the first that ends it.
pub open spec fn conversation(input: Seq<u8>) -> (StepView, Seq<u8>) {
    let (first, after_first) = parse_record(input);
    let (begun, on_first) = step(SessionView::AwaitFirst, first);
    if !(on_first is Continue) {
        (on_first, after_first)
    } else {
        let (second, after_second) = parse_record(after_first);
        let (with_params, on_second) = step(begun, second);
        if !(on_second is Continue) {
            (on_second, after_second)
        } else {
            let (third, after_third) = parse_record(after_second);
            (step(with_params, third).1, after_third)
        }
    }
}

/// A request that arrives whole is dispatched: on a `BeginRequest` for the
/// responder role without `KEEP_CONN`, then `Params` with the required variables,
/// then `Stdin`, a conversation calls for the handler on the request that they make
/// up, and leaves what follows them unread.
pub proof fn lemma_responder_flow(
    flags: u8,
    vars: Seq<(Seq<char>, Seq<char>)>,
    body: Seq<u8>,
    rest: Seq<u8>,
)
    requires
        flags % 2 == 0,
        distinct(vars),
        lengths_fit(vars),
        request_of(vars, body) is Some,
    ensures
        conversation(
            record_bytes(
                RecordView::BeginRequest(BeginRequestView { role: Role::Responder, flags }),
            ) + record_bytes(RecordView::Params(vars)) + record_bytes(RecordView::Stdin(body))
                + rest,
        ) == (StepView::Dispatch(request_of(vars, body)->0), rest),
{
    let begin = RecordView::BeginRequest(BeginRequestView { role: Role::Responder, flags });
    let params = RecordView::Params(vars);
    let stdin = RecordView::Stdin(body);
    let a = record_bytes(begin);
    let b = record_bytes(params);
    let c = record_bytes(stdin);
    let input = a + b + c + rest;
    assert(input =~= a + (b + (c + rest)));
    assert(Record::encode(begin).len() == 8);
    lemma_record_read_back(begin, b + (c + rest));
    lemma_record_read_back(params, c + rest);
    lemma_record_read_back(stdin, rest);
}

/// What is written for a response reads back as a `Stdout` with the response's
/// bytes, then an `EndRequest` that reports the request as complete with exit code
/// 0.
pub proof fn lemma_response_read_back(v: ResponseView, rest: Seq<u8>)
    ensures
        parse_record(
            record_bytes(response_records(v).0) + record_bytes(response_records(v).1) + rest,
        ) == (
            Ok::<RecordView, Error>(RecordView::Stdout(stdout_bytes(v))),
            record_bytes(response_records(v).1) + rest,
        ),
        parse_record(record_bytes(response_records(v).1) + rest) == (
            Ok::<RecordView, Error>(
                RecordView::EndRequest(
                    EndRequestView {
                        exit_code: 0,
                        protocol_status: ProtocolStatus::RequestComplete,
                    },
                ),
            ),
            rest,
        ),
{
    let (stdout, end) = response_records(v);
    let a = record_bytes(stdout);
    let b = record_bytes(end);
    assert(a + b + rest =~= a + (b + rest));
    assert(Record::encode(end).len() == 8);
    lemma_record_read_back(stdout, b + rest);
    lemma_record_read_back(end, rest);
}

/// Where a conversation stands.
#[derive(Debug)]
pub enum Session {
    /// Nothing has arrived yet.
    AwaitFirst,
    /// A request has begun; its variables come next.
    AwaitParams,
    /// The variables have arrived; the body comes next.
    AwaitStdin(Pairs),
    /// The conversation is over.
    Closed,
}

impl View for Session {
    type V = SessionView;

    open spec fn view(&self) -> SessionView {
        match self {
            Session::AwaitFirst => SessionView::AwaitFirst,
            Session::AwaitParams => SessionView::AwaitParams,
            Session::AwaitStdin(vars) => SessionView::AwaitStdin(vars@),
            Session::Closed => SessionView::Closed,
        }
    }
}

/// What to do next in a conversation.
#[derive(Debug)]
pub enum Step {
    /// Read the next record and come back with it.
    Continue,
    /// Send this record, then close the connection.
    Reply(Record),
    /// Call the handler on this request, send its response, then close the
    /// connection.
    Dispatch(Request),
    /// Close the connection.
    Close,
}

impl View for Step {
    type V = StepView;

    open spec fn view(&self) -> StepView {
        match self {
            Step::Continue => StepView::Continue,
            Step::Reply(record) => StepView::Reply(record@),
            Step::Dispatch(request) => StepView::Dispatch(request@),
            Step::Close => StepView::Close,
        }
    }
}

/// The outcome of reading a record, as plain values.
pub open spec fn event_view(event: Result<Record, Error>) -> Result<RecordView, Error> {
    match event {
        Ok(record) => Ok(record@),
        Err(e) => Err(e),
    }
}

/// Answers a query for the application's settings.
pub fn get_values_result(record: &GetValues) -> (r: GetValuesResult)
    ensures
        r@ == answer(record@),
{
    let names = record.get_variables();
    let mut i: usize = 0;
    while i < names.len()
        invariant
            i <= names@.len(),
            names@.len() == record@.len(),
            forall|j: int| 0 <= j < names@.len() ==> (#[trigger] names@[j])@ == record@[j].0,
            forall|j: int| 0 <= j < i ==> (#[trigger] record@[j]).0 != "FCGI_MPXS_CONNS"@,
        decreases names@.len() - i,
    {
        if str_eq(names[i].as_str(), "FCGI_MPXS_CONNS") {
            assert(record@[i as int].0 == "FCGI_MPXS_CONNS"@);
            let r = GetValuesResult::default().add("FCGI_MPXS_CONNS", "0");
            assert(r@ =~= answer(record@));
            return r;
        }
        i += 1;
    }
    GetValuesResult::default()
}

/// The record to send in answer to a failure to read, where the protocol has one.
pub fn reply_to_error(e: &Error) -> (r: Option<Record>)
    ensures
        match error_reply(*e) {
            Some(v) => r matches Some(record) && record@ == v,
            None => r is None,
        },
{
    match e {
        Error::UnsupportedRole(_) => Some(
            Record::EndRequest(EndRequest::new(0, ProtocolStatus::UnknownRole)),
        ),
        Error::MultiplexingUnsupported => Some(
            Record::EndRequest(EndRequest::new(0, ProtocolStatus::MultiplexingUnsupported)),
        ),
        Error::UnknownRecordType(t) => Some(Record::UnknownType(UnknownType::new(*t))),
        _ => None,
    }
}

/// The records that carry a response: its bytes as `Stdout`, then an `EndRequest`
/// that reports the request as complete.
pub fn records_of(response: &Response) -> (r: (Record, Record))
    ensures
        (r.0@, r.1@) == response_records(response@),
{
    let mut bytes: Vec<u8> = Vec::new();
    response.write_stdout_bytes(&mut bytes);
    assert(bytes@ =~= stdout_bytes(response@));
    (
        Record::Stdout(Stdout::new(bytes)),
        Record::EndRequest(EndRequest::new(0, ProtocolStatus::RequestComplete)),
    )
}

/// The record to send in place of a response when the handler failed: an
/// `EndRequest` with exit code 1.
pub fn failure_record() -> (r: Record)
    ensures
        r@ == RecordView::EndRequest(
            EndRequestView { exit_code: 1, protocol_status: ProtocolStatus::RequestComplete },
        ),
{
    Record::EndRequest(EndRequest::new(1, ProtocolStatus::RequestComplete))
}

impl Session {
    /// A conversation at its start.
    pub fn new() -> (r: Self)
        ensures
            r@ == SessionView::AwaitFirst,
    {
        Session::AwaitFirst
    }

    /// Takes the outcome of reading the next record, and says what to do next.
    pub fn advance(self, event: Result<Record, Error>) -> (r: (Session, Step))
        ensures
            (r.0@, r.1@) == step(self@, event_view(event)),
    {
        if let Session::Closed = self {
            return (Session::Closed, Step::Close);
        }
        let record = match event {
            Ok(record) => record,
            Err(e) => {
                return match reply_to_error(&e) {
                    Some(reply) => (Session::Closed, Step::Reply(reply)),
                    None => (Session::Closed, Step::Close),
                };
            },
        };
        match (self, record) {
            (Session::AwaitFirst, Record::GetValues(names)) => (
                Session::Closed,
                Step::Reply(Record::GetValuesResult(get_values_result(&names))),
            ),
            (Session::AwaitFirst, Record::BeginRequest(begin)) => {
                if !begin.role().supported() {
                    (
                        Session::Closed,
                        Step::Reply(
                            Record::EndRequest(EndRequest::new(0, ProtocolStatus::UnknownRole)),
                        ),
                    )
                } else if begin.keep_alive() {
                    (
                        Session::Closed,
                        Step::Reply(
                            Record::EndRequest(
                                EndRequest::new(0, ProtocolStatus::MultiplexingUnsupported),
                            ),
                        ),
                    )
                } else {
                    (Session::AwaitParams, Step::Continue)
                }
            },
            (Session::AwaitParams, Record::Params(params)) => {
                let mut params = params;
                (Session::AwaitStdin(params.take()), Step::Continue)
            },
            (Session::AwaitStdin(vars), Record::Stdin(stdin)) => {
                let mut stdin = stdin;
                match request_from(vars, stdin.take()) {
                    Some(request) => (Session::Closed, Step::Dispatch(request)),
                    None => (Session::Closed, Step::Close),
                }
            },
            _ => (Session::Closed, Step::Close),
        }
    }
}

/// Answers a failure to read a record: writes the reply that the protocol has for
/// it, if it has one.
pub fn handle_error(conn: &mut Connection, e: Error)
    ensures
        final(conn)@.input == old(conn)@.input,
        final(conn)@.output == old(conn)@.output + (match error_reply(e) {
            Some(reply) => record_bytes(reply),
            None => Seq::empty(),
        }),
{
    match reply_to_error(&e) {
        Some(reply) => {
            conn.write_record(&reply);
        },
        None => {
            assert(conn@.output =~= conn@.output + Seq::<u8>::empty());
        },
    }
}

/// Answers a query for the application's settings.
pub fn handle_get_values(conn: &mut Connection, record: GetValues)
    ensures
        final(conn)@.input == old(conn)@.input,
        final(conn)@.output == old(conn)@.output + record_bytes(
            RecordView::GetValuesResult(answer(record@)),
        ),
{
    let reply = Record::GetValuesResult(get_values_result(&record));
    conn.write_record(&reply);
}

/// True when the connection `after` is what a conversation leaves of `before`,
/// where a call of the handler on `request` may return `response`.
pub open spec fn served<F: Fn(Request) -> Response>(
    handler: F,
    before: ConnectionView,
    after: ConnectionView,
) -> bool {
    &&& after.input == conversation(before.input).1
    &&& match conversation(before.input).0 {
        StepView::Reply(reply) => after.output == before.output + record_bytes(reply),
        StepView::Dispatch(v) => exists|request: Request, response: Response|
            {
                &&& request@ == v
                &&& call_ensures(handler, (request,), response)
                &&& after.output == before.output + record_bytes(response_records(response@).0)
                    + record_bytes(response_records(response@).1)
            },
        _ => after.output == before.output,
    }
}

/// A request that arrives whole is answered by exactly one `Stdout` stream and one
/// `EndRequest`, in that order: after a conversation on a `BeginRequest` for the
/// responder role without `KEEP_CONN`, `Params` with the required variables and
/// `Stdin`, the output has grown by the records of a response that the handler may
/// give to the request, and what followed the request is left unread.
pub proof fn lemma_request_served<F: Fn(Request) -> Response>(
    handler: F,
    before: ConnectionView,
    after: ConnectionView,
    flags: u8,
    vars: Seq<(Seq<char>, Seq<char>)>,
    body: Seq<u8>,
    rest: Seq<u8>,
)
    requires
        served(handler, before, after),
        flags % 2 == 0,
        distinct(vars),
        lengths_fit(vars),
        request_of(vars, body) is Some,
        before.input == record_bytes(
            RecordView::BeginRequest(BeginRequestView { role: Role::Responder, flags }),
        ) + record_bytes(RecordView::Params(vars)) + record_bytes(RecordView::Stdin(body))
            + rest,
    ensures
        after.input == rest,
        exists|request: Request, response: Response|
            {
                &&& request@ == request_of(vars, body)->0
                &&& call_ensures(handler, (request,), response)
                &&& after.output == before.output + record_bytes(
                    RecordView::Stdout(stdout_bytes(response@)),
                ) + record_bytes(
                    RecordView::EndRequest(
                        EndRequestView {
                            exit_code: 0,
                            protocol_status: ProtocolStatus::RequestComplete,
                        },
                    ),
                )
            },
{
    lemma_responder_flow(flags, vars, body, rest);
}

/// Serves one connection: reads what the client sent, calls the handler where a
/// request came in whole, and writes the answer.
pub fn handle_connection<F: Fn(Request) -> Response>(conn: &mut Connection, handler: F)
    requires
        forall|request: Request| call_requires(handler, (request,)),
    ensures
        served(handler, old(conn)@, final(conn)@),
{
    let first = conn.read_record();
    let (session, next) = Session::new().advance(first);
    if let Step::Continue = next {
        let second = conn.read_record();
        let (session, next) = session.advance(second);
        if let Step::Continue = next {
            let third = conn.read_record();
            let (_, next) = session.advance(third);
            perform(conn, handler, next, Ghost(old(conn)@));
        } else {
            perform(conn, handler, next, Ghost(old(conn)@));
        }
    } else {
        perform(conn, handler, next, Ghost(old(conn)@));
    }
}

/// Carries out the step that ends a conversation.
fn perform<F: Fn(Request) -> Response>(
    conn: &mut Connection,
    handler: F,
    next: Step,
    Ghost(before): Ghost<ConnectionView>,
)
    requires
        forall|request: Request| call_requires(handler, (request,)),
        old(conn)@.output == before.output,
        old(conn)@.input == conversation(before.input).1,
        next@ == conversation(before.input).0,
    ensures
        served(handler, before, final(conn)@),
{
    match next {
        Step::Reply(reply) => {
            conn.write_record(&reply);
        },
        Step::Dispatch(request) => {
            let ghost asked = request;
            let response = handler(request);
            let (stdout, end) = records_of(&response);
            conn.write_record(&stdout);
            conn.write_record(&end);
            assert(call_ensures(handler, (asked,), response));
        },
        _ => {},
    }
}

} // verus!
