use vintage::connection::{Connection, Packet};
use vintage::record::abort_request::AbortRequest;
use vintage::record::begin_request::BeginRequest;
use vintage::record::data::Data;
use vintage::record::end_request::EndRequest;
use vintage::record::get_values::GetValues;
use vintage::record::get_values_result::GetValuesResult;
use vintage::record::params::Params;
use vintage::record::protocol_status::ProtocolStatus;
use vintage::record::role::Role;
use vintage::record::stderr::Stderr;
use vintage::record::stdin::Stdin;
use vintage::record::stdout::Stdout;
use vintage::record::unknown::UnknownType;
use vintage::record::Record;

// Records can be serialized and deserialized without losing information.
//
// Some records are stream records, so this function sends a sequence of records, each
// as one packet, and asserts that they come out on the other side stitched together
// into one record.
fn round_trip(send: Vec<Record>, receive: Record) {
    let mut client = Connection::default();

    for r in send.iter() {
        let mut payload = vec![];
        r.write_bytes(&mut payload);
        client.write_packet(&Packet::new(r.type_id(), payload));
    }
    let mut server = Connection::new(client.take_output());
    let from_client = server.read_record().unwrap();
    assert_eq!(receive, from_client);
}

#[test]
fn connection_get_values() {
    round_trip(
        vec![Record::GetValues(GetValues::default())],
        Record::GetValues(GetValues::default()),
    );
    round_trip(
        vec![Record::GetValues(GetValues::default().add("FCGI_MAX_CONNS"))],
        Record::GetValues(GetValues::default().add("FCGI_MAX_CONNS")),
    );
}

#[test]
fn get_values_result() {
    round_trip(
        vec![Record::GetValuesResult(GetValuesResult::default())],
        Record::GetValuesResult(GetValuesResult::default()),
    );

    round_trip(
        vec![Record::GetValuesResult(
            GetValuesResult::default().add("FCGI_MAX_REQS", "1"),
        )],
        Record::GetValuesResult(GetValuesResult::default().add("FCGI_MAX_REQS", "1")),
    );
}

#[test]
fn unknown_type() {
    round_trip(
        vec![Record::UnknownType(UnknownType::new(100))],
        Record::UnknownType(UnknownType::new(100)),
    );
}

#[test]
fn begin_request() {
    round_trip(
        vec![Record::BeginRequest(BeginRequest::new(Role::Responder, true))],
        Record::BeginRequest(BeginRequest::new(Role::Responder, true)),
    );
}

#[test]
fn params() {
    round_trip(
        vec![Record::Params(Params::default())],
        Record::Params(Params::default()),
    );

    round_trip(
        vec![
            Record::Params(Params::default().add("PATH", "/home")),
            Record::Params(Params::default()),
        ],
        Record::Params(Params::default().add("PATH", "/home")),
    );
}

#[test]
fn stdin() {
    round_trip(
        vec![Record::Stdin(Stdin::new(vec![]))],
        Record::Stdin(Stdin::new(vec![])),
    );

    round_trip(
        vec![
            Record::Stdin(Stdin::new(b"HELLO".into())),
            Record::Stdin(Stdin::new(b"WORLD".into())),
            Record::Stdin(Stdin::new(vec![])),
        ],
        Record::Stdin(Stdin::new(b"HELLOWORLD".into())),
    );
}

#[test]
fn stdout() {
    round_trip(
        vec![Record::Stdout(Stdout::new(vec![]))],
        Record::Stdout(Stdout::new(vec![])),
    );

    round_trip(
        vec![
            Record::Stdout(Stdout::new(b"HELLO".into())),
            Record::Stdout(Stdout::new(b"WORLD".into())),
            Record::Stdout(Stdout::new(vec![])),
        ],
        Record::Stdout(Stdout::new(b"HELLOWORLD".into())),
    );
}

#[test]
fn stderr() {
    round_trip(
        vec![Record::Stderr(Stderr::new(vec![]))],
        Record::Stderr(Stderr::new(vec![])),
    );

    round_trip(
        vec![
            Record::Stderr(Stderr::new(b"HELLO".into())),
            Record::Stderr(Stderr::new(b"WORLD".into())),
            Record::Stderr(Stderr::new(vec![])),
        ],
        Record::Stderr(Stderr::new(b"HELLOWORLD".into())),
    );
}

#[test]
fn data() {
    round_trip(
        vec![Record::Data(Data::new(vec![]))],
        Record::Data(Data::new(vec![])),
    );

    round_trip(
        vec![
            Record::Data(Data::new(b"HELLO".into())),
            Record::Data(Data::new(b"WORLD".into())),
            Record::Data(Data::new(vec![])),
        ],
        Record::Data(Data::new(b"HELLOWORLD".into())),
    );
}

#[test]
fn abort_request() {
    round_trip(
        vec![Record::AbortRequest(AbortRequest)],
        Record::AbortRequest(AbortRequest),
    );
}

#[test]
fn end_request() {
    round_trip(
        vec![Record::EndRequest(EndRequest::new(
            0,
            ProtocolStatus::RequestComplete,
        ))],
        Record::EndRequest(EndRequest::new(0, ProtocolStatus::RequestComplete)),
    );

    round_trip(
        vec![Record::EndRequest(EndRequest::new(
            1,
            ProtocolStatus::UnknownRole,
        ))],
        Record::EndRequest(EndRequest::new(1, ProtocolStatus::UnknownRole)),
    );
}

// What `write_record` puts on the wire for `record`.
fn wire(record: &Record) -> Vec<u8> {
    let mut conn = Connection::default();
    conn.write_record(record);
    conn.take_output()
}

// The packets that `bytes` hold, as (type, request id, content length).
fn packets(bytes: Vec<u8>) -> Vec<(u8, u16, usize)> {
    let mut conn = Connection::new(bytes);
    let mut seen = vec![];
    while conn.remaining() > 0 {
        let packet = conn.read_packet().unwrap();
        seen.push((packet.type_id(), packet.request_id(), packet.content().len()));
    }
    seen
}

#[test]
fn written_records_are_read_back() {
    let records = vec![
        Record::GetValues(GetValues::default().add("FCGI_MPXS_CONNS").add("FCGI_MAX_REQS")),
        Record::GetValuesResult(GetValuesResult::default().add("FCGI_MPXS_CONNS", "0")),
        Record::BeginRequest(BeginRequest::new(Role::Responder, false)),
        Record::BeginRequest(BeginRequest::new(Role::Responder, true)),
        Record::Params(Params::default().add("B", "2").add("A", "1").add("C", "")),
        Record::Stdin(Stdin::new(b"body".to_vec())),
        Record::Stdout(Stdout::new(vec![0u8; 70000])),
        Record::Stderr(Stderr::new(b"oops".to_vec())),
        Record::Data(Data::new(vec![])),
        Record::AbortRequest(AbortRequest),
        Record::UnknownType(UnknownType::new(42)),
        Record::EndRequest(EndRequest::new(0xdead_beef, ProtocolStatus::Overloaded)),
    ];
    let mut client = Connection::default();
    for record in records.iter() {
        client.write_record(record);
    }
    let mut server = Connection::new(client.take_output());
    for record in records.iter() {
        assert_eq!(&server.read_record().unwrap(), record);
    }
    assert_eq!(server.remaining(), 0);
}

#[test]
fn stream_of_n_bytes_takes_ceil_n_over_65535_plus_one_packets() {
    for (n, expected) in [
        (0usize, vec![0usize]),
        (1, vec![1, 0]),
        (127, vec![127, 0]),
        (128, vec![128, 0]),
        (65535, vec![65535, 0]),
        (65536, vec![65535, 1, 0]),
        (5 * 65535, vec![65535, 65535, 65535, 65535, 65535, 0]),
        (5 * 65535 + 1, vec![65535, 65535, 65535, 65535, 65535, 1, 0]),
    ] {
        let record = Record::Stdout(Stdout::new(vec![b'A'; n]));
        let bytes = wire(&record);
        let lengths: Vec<usize> = packets(bytes.clone()).iter().map(|p| p.2).collect();
        assert_eq!(lengths, expected);
        if n > 0 {
            assert_eq!(lengths.len(), n.div_ceil(65535) + 1);
        }
        let mut server = Connection::new(bytes);
        assert_eq!(server.read_record().unwrap(), record);
    }
}

#[test]
fn packets_are_padded_to_a_multiple_of_eight() {
    for n in 0usize..40 {
        let bytes = wire(&Record::Stdin(Stdin::new(vec![7u8; n])));
        // the first packet: header, content, padding
        let padding = bytes[6] as usize;
        assert!(padding <= 7);
        assert_eq!((8 + n + padding) % 8, 0);
        assert_eq!(padding, (8 - n % 8) % 8);
        assert_eq!(bytes[0], 1);
        assert_eq!(bytes[7], 0);
        assert_eq!(bytes[4] as usize * 256 + bytes[5] as usize, n);
        assert!(bytes[8 + n..8 + n + padding].iter().all(|b| *b == 0));
        assert_eq!(bytes.len() % 8, 0);
    }
}

#[test]
fn exact_wire_bytes_of_an_end_request() {
    let bytes = wire(&Record::EndRequest(EndRequest::new(
        0x0102_0304,
        ProtocolStatus::UnknownRole,
    )));
    assert_eq!(
        bytes,
        vec![1, 3, 0, 1, 0, 8, 0, 0, 1, 2, 3, 4, 3, 0, 0, 0]
    );
}

#[test]
fn exact_wire_bytes_of_a_stdin_stream() {
    let bytes = wire(&Record::Stdin(Stdin::new(b"BAR".to_vec())));
    assert_eq!(
        bytes,
        vec![
            1, 5, 0, 1, 0, 3, 5, 0, b'B', b'A', b'R', 0, 0, 0, 0, 0, // content and padding
            1, 5, 0, 1, 0, 0, 0, 0, // the empty packet that ends the stream
        ]
    );
}

#[test]
fn management_records_travel_under_request_id_zero() {
    for record in [
        Record::GetValues(GetValues::default()),
        Record::GetValuesResult(GetValuesResult::default()),
        Record::UnknownType(UnknownType::new(1)),
    ] {
        assert!(record.is_management_record());
        let seen = packets(wire(&record));
        assert_eq!(seen.len(), 1);
        assert_eq!(seen[0].1, 0);
    }
    for record in [
        Record::BeginRequest(BeginRequest::new(Role::Responder, false)),
        Record::AbortRequest(AbortRequest),
        Record::EndRequest(EndRequest::new(0, ProtocolStatus::RequestComplete)),
    ] {
        assert!(!record.is_management_record());
        let seen = packets(wire(&record));
        assert_eq!(seen.len(), 1);
        assert_eq!(seen[0].1, 1);
    }
}

#[test]
fn a_discrete_record_is_one_packet() {
    let mut values = GetValuesResult::default();
    for i in 0..10 {
        values = values.add(&format!("NAME_{i}"), &"v".repeat(100));
    }
    let seen = packets(wire(&Record::GetValuesResult(values)));
    assert_eq!(seen.len(), 1);
    assert_eq!(seen[0].0, 10);
}

#[test]
fn padding_on_read_is_ignored() {
    // a Stdin packet with one byte of content and three bytes of padding that are not zero
    let mut bytes = vec![1, 5, 0, 1, 0, 1, 3, 0, b'x', 9, 9, 9];
    bytes.extend_from_slice(&[1, 5, 0, 1, 0, 0, 0, 0]);
    let mut conn = Connection::new(bytes);
    assert_eq!(
        conn.read_record().unwrap(),
        Record::Stdin(Stdin::new(b"x".to_vec()))
    );
    assert_eq!(conn.remaining(), 0);
}

#[test]
fn feeding_input_in_pieces() {
    let bytes = wire(&Record::Params(Params::default().add("PATH", "/home")));
    let mut conn = Connection::default();
    for piece in bytes.chunks(3) {
        conn.feed(piece);
    }
    assert_eq!(conn.remaining(), bytes.len());
    assert_eq!(
        conn.expect_params().unwrap(),
        Params::default().add("PATH", "/home")
    );
    assert!(conn.output().is_empty());
}

#[test]
fn expecting_another_kind_of_record() {
    let bytes = wire(&Record::Stdin(Stdin::new(b"x".to_vec())));
    let mut conn = Connection::new(bytes.clone());
    assert_eq!(conn.expect_params(), Err(None));
    let mut conn = Connection::new(bytes);
    assert_eq!(conn.expect_stdin(), Ok(Stdin::new(b"x".to_vec())));
    let mut conn = Connection::new(vec![1, 5, 0]);
    assert_eq!(
        conn.expect_stdin(),
        Err(Some(vintage::error::Error::UnexpectedSocketClose))
    );
}
