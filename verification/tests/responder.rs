use vintage::connection::Connection;
use vintage::context::{Request, Response};
use vintage::error::Error;
use vintage::fastcgi_responder::{
    failure_record, handle_connection, handle_error, handle_get_values, Session, Step,
};
use vintage::record::begin_request::BeginRequest;
use vintage::record::end_request::EndRequest;
use vintage::record::get_values::GetValues;
use vintage::record::get_values_result::GetValuesResult;
use vintage::record::params::Params;
use vintage::record::protocol_status::ProtocolStatus;
use vintage::record::role::Role;
use vintage::record::stdin::Stdin;
use vintage::record::stdout::Stdout;
use vintage::record::unknown::UnknownType;
use vintage::record::Record;
use vintage::status;

fn basic_params() -> Params {
    Params::default()
        .add("REQUEST_METHOD", "GET")
        .add("PATH_INFO", "/")
        .add("QUERY_STRING", "")
}

fn not_found(_request: Request) -> Response {
    Response::default().set_status(status::NOT_FOUND)
}

// A handler that echoes the body
fn echo(mut request: Request) -> Response {
    let body = request.take_body();
    Response::default().set_raw_body(body)
}

// Serves a connection on which the client has sent `bytes`, and returns what the
// server wrote.
fn serve_bytes<F: Fn(Request) -> Response>(bytes: Vec<u8>, handler: F) -> Vec<u8> {
    let mut server = Connection::new(bytes);
    handle_connection(&mut server, handler);
    server.take_output()
}

// When the client sends the `to_send` records, the server sends back the `expected`
// records and nothing more.
fn assert_request<F: Fn(Request) -> Response>(
    handler: F,
    to_send: Vec<Record>,
    mut expected: Vec<Record>,
) {
    let mut client = Connection::default();
    for record in to_send.iter() {
        client.write_record(record);
    }
    let mut client = Connection::new(serve_bytes(client.take_output(), handler));

    loop {
        if expected.is_empty() {
            let result = client.read_record();
            assert!(matches!(result, Err(Error::UnexpectedSocketClose)));
            break;
        }

        match client.read_record() {
            Ok(record) => {
                assert_eq!(record, expected.remove(0));
            }
            Err(err) => panic!("{}", err.message()),
        }
    }
}

fn get_values_flow() {
    assert_request(
        not_found,
        vec![Record::GetValues(GetValues::default())],
        vec![Record::GetValuesResult(GetValuesResult::default())],
    );

    assert_request(
        not_found,
        vec![Record::GetValues(
            GetValues::default()
                .add("FCGI_MPXS_CONNS")
                .add("VALUE_WE_DONT_KNOW"),
        )],
        vec![Record::GetValuesResult(
            GetValuesResult::default().add("FCGI_MPXS_CONNS", "0"),
        )],
    );
}

fn unsupported_keepalive_flow() {
    assert_request(
        not_found,
        vec![
            Record::BeginRequest(BeginRequest::new(Role::Responder, true)),
            Record::Params(basic_params()),
            Record::Stdin(Stdin(vec![])),
        ],
        vec![Record::EndRequest(EndRequest::new(
            0,
            ProtocolStatus::MultiplexingUnsupported,
        ))],
    );
}

fn successful_responder_flow() {
    assert_request(
        echo,
        vec![
            Record::BeginRequest(BeginRequest::new(Role::Responder, false)),
            Record::Params(basic_params()),
            Record::Stdin(Stdin(b"BAR".to_vec())),
        ],
        vec![
            Record::Stdout(Stdout(b"Status: 200\n\nBAR".to_vec())),
            Record::EndRequest(EndRequest::new(0, ProtocolStatus::RequestComplete)),
        ],
    );
}

#[test]
fn server_get_values() {
    get_values_flow();
}

#[test]
fn server_unsupported_keepalive() {
    unsupported_keepalive_flow();
}

#[test]
fn server_successful_responder_flow() {
    successful_responder_flow();
}

#[test]
fn server_config_get_values() {
    get_values_flow();
}

#[test]
fn server_config_unsupported_keepalive() {
    unsupported_keepalive_flow();
}

#[test]
fn server_config_successful_responder_flow() {
    successful_responder_flow();
}

#[test]
fn get_values_with_the_unknown_name_first() {
    assert_request(
        not_found,
        vec![Record::GetValues(
            GetValues::default()
                .add("UNKNOWN")
                .add("FCGI_MAX_CONNS")
                .add("FCGI_MPXS_CONNS"),
        )],
        vec![Record::GetValuesResult(
            GetValuesResult::default().add("FCGI_MPXS_CONNS", "0"),
        )],
    );
    assert_request(
        not_found,
        vec![Record::GetValues(GetValues::default().add("FCGI_MAX_CONNS"))],
        vec![Record::GetValuesResult(GetValuesResult::default())],
    );
}

#[test]
fn unknown_role() {
    // BeginRequest(Authorizer, false), as it arrives on the wire
    let mut bytes = vec![1, 1, 0, 1, 0, 8, 0, 0];
    bytes.extend_from_slice(&[0, 2, 0, 0, 0, 0, 0, 0]);
    let written = serve_bytes(bytes, not_found);
    let mut client = Connection::new(written);
    assert_eq!(
        client.read_record().unwrap(),
        Record::EndRequest(EndRequest::new(0, ProtocolStatus::UnknownRole))
    );
    assert_eq!(client.remaining(), 0);

    assert_request(
        not_found,
        vec![Record::BeginRequest(BeginRequest::new(Role::Authorizer, false))],
        vec![Record::EndRequest(EndRequest::new(
            0,
            ProtocolStatus::UnknownRole,
        ))],
    );
    assert_request(
        not_found,
        vec![Record::BeginRequest(BeginRequest::new(Role::Filter, true))],
        vec![Record::EndRequest(EndRequest::new(
            0,
            ProtocolStatus::UnknownRole,
        ))],
    );
}

#[test]
fn multiplexed_request_id() {
    let written = serve_bytes(vec![1, 1, 0, 2, 0, 8, 0, 0, 0, 1, 0, 0, 0, 0, 0, 0], not_found);
    let mut client = Connection::new(written);
    assert_eq!(
        client.read_record().unwrap(),
        Record::EndRequest(EndRequest::new(
            0,
            ProtocolStatus::MultiplexingUnsupported
        ))
    );
    assert_eq!(client.remaining(), 0);
}

#[test]
fn unknown_record_type_is_answered() {
    let written = serve_bytes(vec![1, 77, 0, 1, 0, 0, 0, 0], not_found);
    let mut client = Connection::new(written);
    assert_eq!(
        client.read_record().unwrap(),
        Record::UnknownType(UnknownType::new(77))
    );
    assert_eq!(client.remaining(), 0);
}

#[test]
fn other_failures_close_silently() {
    // nothing at all
    assert!(serve_bytes(vec![], not_found).is_empty());
    // version 2
    assert!(serve_bytes(vec![2, 1, 0, 1, 0, 0, 0, 0], not_found).is_empty());
    // a BeginRequest that is too short
    assert!(serve_bytes(vec![1, 1, 0, 1, 0, 0, 0, 0], not_found).is_empty());
    // anything but GetValues or BeginRequest first
    assert_request(not_found, vec![Record::Params(basic_params())], vec![]);
    assert_request(not_found, vec![Record::Stdin(Stdin(vec![]))], vec![]);
    // BeginRequest, then no Params
    assert_request(
        not_found,
        vec![
            Record::BeginRequest(BeginRequest::new(Role::Responder, false)),
            Record::Stdin(Stdin(vec![])),
        ],
        vec![],
    );
    // BeginRequest and Params, then no Stdin
    assert_request(
        not_found,
        vec![
            Record::BeginRequest(BeginRequest::new(Role::Responder, false)),
            Record::Params(basic_params()),
            Record::Params(basic_params()),
        ],
        vec![],
    );
    // the input ends after the Params
    assert_request(
        not_found,
        vec![
            Record::BeginRequest(BeginRequest::new(Role::Responder, false)),
            Record::Params(basic_params()),
        ],
        vec![],
    );
}

#[test]
fn a_failure_after_the_request_began_is_answered_too() {
    let mut client = Connection::default();
    client.write_record(&Record::BeginRequest(BeginRequest::new(
        Role::Responder,
        false,
    )));
    let mut bytes = client.take_output();
    bytes.extend_from_slice(&[1, 99, 0, 1, 0, 0, 0, 0]);
    let written = serve_bytes(bytes, not_found);
    let mut client = Connection::new(written);
    assert_eq!(
        client.read_record().unwrap(),
        Record::UnknownType(UnknownType::new(99))
    );
}

#[test]
fn required_variables() {
    for missing in ["REQUEST_METHOD", "PATH_INFO", "QUERY_STRING"] {
        let mut params = Params::default();
        for name in ["REQUEST_METHOD", "PATH_INFO", "QUERY_STRING"] {
            if name != missing {
                params = params.add(name, "x");
            }
        }
        assert_request(
            not_found,
            vec![
                Record::BeginRequest(BeginRequest::new(Role::Responder, false)),
                Record::Params(params),
                Record::Stdin(Stdin(vec![])),
            ],
            vec![],
        );
    }
}

#[test]
fn the_handler_sees_the_request() {
    let handler = |request: Request| {
        assert_eq!(request.method(), "POST");
        assert_eq!(request.path(), "/submit");
        assert_eq!(request.query_string(), "a=1&b=two+words&a=%33");
        assert_eq!(request.query("a"), Some("3"));
        assert_eq!(request.query("b"), Some("two words"));
        assert_eq!(request.query("c"), None);
        assert_eq!(request.header("User-Agent"), Some("curl"));
        assert_eq!(request.header("X-Forwarded-For"), Some("10.0.0.1"));
        assert_eq!(request.header("Host"), Some(""));
        assert_eq!(request.header("HTTP_USER_AGENT"), None);
        assert_eq!(request.header("Content-Length"), None);
        assert_eq!(request.header("REQUEST_METHOD"), None);
        assert_eq!(request.body(), b"payload");
        Response::text("done").set_header("X-Seen", "yes").set_status(201)
    };
    assert_request(
        handler,
        vec![
            Record::BeginRequest(BeginRequest::new(Role::Responder, false)),
            Record::Params(
                Params::default()
                    .add("HTTP_USER_AGENT", "curl")
                    .add("REQUEST_METHOD", "POST")
                    .add("CONTENT_LENGTH", "7")
                    .add("PATH_INFO", "/submit")
                    .add("HTTP_X_FORWARDED_FOR", "10.0.0.1")
                    .add("QUERY_STRING", "a=1&b=two+words&a=%33")
                    .add("HTTP_HOST", ""),
            ),
            Record::Stdin(Stdin(b"payload".to_vec())),
        ],
        vec![
            Record::Stdout(Stdout(
                b"Content-Type: text/plain\nX-Seen: yes\nStatus: 201\n\ndone".to_vec(),
            )),
            Record::EndRequest(EndRequest::new(0, ProtocolStatus::RequestComplete)),
        ],
    );
}

#[test]
fn large_stdin_is_reassembled() {
    let handler = |request: Request| {
        assert_eq!(request.body().len(), 5 * 65535);
        assert_eq!(request.body()[0], b'A');
        assert_eq!(request.body()[5 * 65535 - 1], b'A');
        Response::default()
    };
    let mut client = Connection::default();
    client.write_record(&Record::BeginRequest(BeginRequest::new(
        Role::Responder,
        false,
    )));
    client.write_record(&Record::Params(basic_params()));
    let before = client.output().len();
    client.write_record(&Record::Stdin(Stdin(vec![b'A'; 5 * 65535])));
    // six packets: five full ones and the empty one
    assert_eq!(
        client.output().len() - before,
        5 * (8 + 65535 + 1) + 8
    );
    let written = serve_bytes(client.take_output(), handler);
    let mut client = Connection::new(written);
    assert_eq!(
        client.read_record().unwrap(),
        Record::Stdout(Stdout(b"Status: 200\n\n".to_vec()))
    );
    assert_eq!(
        client.read_record().unwrap(),
        Record::EndRequest(EndRequest::new(0, ProtocolStatus::RequestComplete))
    );
}

#[test]
fn input_after_the_request_is_left_unread() {
    let mut client = Connection::default();
    client.write_record(&Record::GetValues(GetValues::default()));
    client.write_record(&Record::GetValues(GetValues::default()));
    let one = client.output().len() / 2;
    let mut server = Connection::new(client.take_output());
    handle_connection(&mut server, not_found);
    assert_eq!(server.remaining(), one);
}

#[test]
fn stepping_through_a_conversation() {
    let session = Session::new();
    let (session, step) = session.advance(Ok(Record::BeginRequest(BeginRequest::new(
        Role::Responder,
        false,
    ))));
    assert!(matches!(session, Session::AwaitParams));
    assert!(matches!(step, Step::Continue));
    let (session, step) = session.advance(Ok(Record::Params(basic_params())));
    assert!(matches!(session, Session::AwaitStdin(_)));
    assert!(matches!(step, Step::Continue));
    let (session, step) = session.advance(Ok(Record::Stdin(Stdin(b"x".to_vec()))));
    assert!(matches!(session, Session::Closed));
    match step {
        Step::Dispatch(request) => {
            assert_eq!(request.method(), "GET");
            assert_eq!(request.path(), "/");
            assert_eq!(request.query_string(), "");
            assert_eq!(request.body(), b"x");
        }
        _ => panic!("the request should be dispatched"),
    }
    let (session, step) = session.advance(Ok(Record::Stdin(Stdin(vec![]))));
    assert!(matches!(session, Session::Closed));
    assert!(matches!(step, Step::Close));

    let (session, step) = Session::new().advance(Err(Error::UnsupportedRole(2)));
    assert!(matches!(session, Session::Closed));
    match step {
        Step::Reply(record) => assert_eq!(
            record,
            Record::EndRequest(EndRequest::new(0, ProtocolStatus::UnknownRole))
        ),
        _ => panic!("the error should be answered"),
    }
    let (_, step) = Session::new().advance(Err(Error::MalformedRecordStream));
    assert!(matches!(step, Step::Close));
}

#[test]
fn error_replies() {
    let reply = |e: Error| {
        let mut conn = Connection::default();
        handle_error(&mut conn, e);
        let mut client = Connection::new(conn.take_output());
        client.read_record()
    };
    assert_eq!(
        reply(Error::UnsupportedRole(3)),
        Ok(Record::EndRequest(EndRequest::new(
            0,
            ProtocolStatus::UnknownRole
        )))
    );
    assert_eq!(
        reply(Error::MultiplexingUnsupported),
        Ok(Record::EndRequest(EndRequest::new(
            0,
            ProtocolStatus::MultiplexingUnsupported
        )))
    );
    assert_eq!(
        reply(Error::UnknownRecordType(200)),
        Ok(Record::UnknownType(UnknownType::new(200)))
    );
    for silent in [
        Error::UnexpectedSocketClose,
        Error::UnsupportedVersion(2),
        Error::MalformedRecordPayload("Params"),
        Error::UnsupportedProtocolStatus(9),
        Error::InvalidUtf8KeyValuePair,
        Error::MalformedRecordStream,
    ] {
        assert_eq!(reply(silent), Err(Error::UnexpectedSocketClose));
    }
}

#[test]
fn answering_get_values_directly() {
    let mut conn = Connection::default();
    handle_get_values(&mut conn, GetValues::default().add("FCGI_MPXS_CONNS"));
    let mut client = Connection::new(conn.take_output());
    assert_eq!(
        client.read_record().unwrap(),
        Record::GetValuesResult(GetValuesResult::default().add("FCGI_MPXS_CONNS", "0"))
    );
}

#[test]
fn the_record_for_a_failed_handler() {
    assert_eq!(
        failure_record(),
        Record::EndRequest(EndRequest::new(1, ProtocolStatus::RequestComplete))
    );
}
