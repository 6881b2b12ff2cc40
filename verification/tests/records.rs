use vintage::connection::{Assembler, Connection, Packet, PacketHeader};
use vintage::error::Error;
use vintage::record::abort_request::AbortRequest;
use vintage::record::begin_request::BeginRequest;
use vintage::record::data::Data;
use vintage::record::end_request::EndRequest;
use vintage::record::get_values::GetValues;
use vintage::record::get_values_result::GetValuesResult;
use vintage::record::params::Params;
use vintage::record::protocol_status::ProtocolStatus;
use vintage::record::role::Role;
use vintage::record::stderr::Stderr;
use vintage::record::stdin::Stdin;
use vintage::record::stdout::Stdout;
use vintage::record::unknown::UnknownType;
use vintage::record::{
    discrete_type, management_type, Record, FCGI_ABORT_REQUEST, FCGI_BEGIN_REQUEST, FCGI_DATA,
    FCGI_END_REQUEST, FCGI_GET_VALUES, FCGI_GET_VALUES_RESULT, FCGI_PARAMS, FCGI_STDERR,
    FCGI_STDIN, FCGI_STDOUT, FCGI_UNKNOWN_TYPE,
};

fn every_kind() -> Vec<(Record, u8)> {
    vec![
        (Record::BeginRequest(BeginRequest::new(Role::Responder, false)), 1),
        (Record::AbortRequest(AbortRequest), 2),
        (Record::EndRequest(EndRequest::new(0, ProtocolStatus::RequestComplete)), 3),
        (Record::Params(Params::default()), 4),
        (Record::Stdin(Stdin::default()), 5),
        (Record::Stdout(Stdout::default()), 6),
        (Record::Stderr(Stderr::default()), 7),
        (Record::Data(Data::default()), 8),
        (Record::GetValues(GetValues::default()), 9),
        (Record::GetValuesResult(GetValuesResult::default()), 10),
        (Record::UnknownType(UnknownType::new(0)), 11),
    ]
}

#[test]
fn type_ids() {
    for (record, type_id) in every_kind() {
        assert_eq!(record.type_id(), type_id);
        assert_eq!(record.is_management_record(), type_id >= 9);
    }
    assert_eq!(
        [
            FCGI_BEGIN_REQUEST,
            FCGI_ABORT_REQUEST,
            FCGI_END_REQUEST,
            FCGI_PARAMS,
            FCGI_STDIN,
            FCGI_STDOUT,
            FCGI_STDERR,
            FCGI_DATA,
            FCGI_GET_VALUES,
            FCGI_GET_VALUES_RESULT,
            FCGI_UNKNOWN_TYPE
        ],
        [1, 2, 3, 4, 5, 6, 7, 8, 9, 10, 11]
    );
}

#[test]
fn discrete_and_management_types() {
    for type_id in 0..=255u8 {
        assert_eq!(management_type(type_id), matches!(type_id, 9 | 10 | 11));
        assert_eq!(
            discrete_type(type_id),
            matches!(type_id, 1 | 2 | 3 | 9 | 10 | 11)
        );
    }
}

#[test]
fn every_kind_comes_back_from_its_payload() {
    for (record, type_id) in every_kind() {
        let mut payload = vec![];
        record.write_bytes(&mut payload);
        assert_eq!(Record::from_bytes(type_id, payload), Ok(record));
    }
}

#[test]
fn roles() {
    assert_eq!(Role::Responder.id(), 1);
    assert_eq!(Role::Authorizer.id(), 2);
    assert_eq!(Role::Filter.id(), 3);
    assert_eq!(Role::from_record_bytes([0, 1]), Ok(Role::Responder));
    assert_eq!(Role::from_record_bytes([0, 2]), Ok(Role::Authorizer));
    assert_eq!(Role::from_record_bytes([0, 3]), Ok(Role::Filter));
    assert_eq!(Role::from_record_bytes([0, 0]), Err(Error::UnsupportedRole(0)));
    assert_eq!(Role::from_record_bytes([0, 4]), Err(Error::UnsupportedRole(4)));
    assert_eq!(
        Role::from_record_bytes([0x12, 0x34]),
        Err(Error::UnsupportedRole(0x1234))
    );
    assert!(Role::Responder.supported());
    assert!(!Role::Authorizer.supported());
    assert!(!Role::Filter.supported());
    for role in [Role::Responder, Role::Authorizer, Role::Filter] {
        let mut bytes = vec![7];
        role.as_record_bytes(&mut bytes);
        assert_eq!(bytes, vec![7, 0, role.id() as u8]);
        assert_eq!(Role::from_record_bytes([bytes[1], bytes[2]]), Ok(role));
    }
}

#[test]
fn protocol_statuses() {
    let all = [
        (ProtocolStatus::RequestComplete, 0u8),
        (ProtocolStatus::MultiplexingUnsupported, 1),
        (ProtocolStatus::Overloaded, 2),
        (ProtocolStatus::UnknownRole, 3),
    ];
    for (status, id) in all {
        assert_eq!(status.id(), id);
        assert_eq!(ProtocolStatus::from_record_byte(id), Ok(status));
        let mut bytes = vec![];
        status.as_record_byte(&mut bytes);
        assert_eq!(bytes, vec![id]);
    }
    for byte in 4..=255u8 {
        assert_eq!(
            ProtocolStatus::from_record_byte(byte),
            Err(Error::UnsupportedProtocolStatus(byte))
        );
    }
}

#[test]
fn begin_request_layout() {
    let mut bytes = vec![];
    BeginRequest::new(Role::Responder, true).write_record_bytes(&mut bytes);
    assert_eq!(bytes, vec![0, 1, 1, 0, 0, 0, 0, 0]);
    let mut bytes = vec![];
    BeginRequest::new(Role::Filter, false).write_record_bytes(&mut bytes);
    assert_eq!(bytes, vec![0, 3, 0, 0, 0, 0, 0, 0]);

    let begin = BeginRequest::from_record_bytes(vec![0, 1, 0xff, 1, 2, 3, 4, 5]).unwrap();
    assert_eq!(begin.role(), Role::Responder);
    assert!(begin.keep_alive());
    let mut bytes = vec![];
    begin.write_record_bytes(&mut bytes);
    assert_eq!(bytes, vec![0, 1, 0xff, 0, 0, 0, 0, 0]);

    // only the low bit of the flags asks to keep the connection
    assert!(!BeginRequest::from_record_bytes(vec![0, 1, 0xfe, 0, 0, 0, 0, 0])
        .unwrap()
        .keep_alive());
    assert!(BeginRequest::from_record_bytes(vec![0, 1, 3, 0, 0, 0, 0, 0])
        .unwrap()
        .keep_alive());
    assert!(BeginRequest::new(Role::Responder, true).keep_alive());
    assert!(!BeginRequest::new(Role::Responder, false).keep_alive());
    assert_eq!(BeginRequest::new(Role::Authorizer, false).role(), Role::Authorizer);
}

#[test]
fn end_request_layout() {
    let mut bytes = vec![];
    EndRequest::new(1, ProtocolStatus::RequestComplete).write_record_bytes(&mut bytes);
    assert_eq!(bytes, vec![0, 0, 0, 1, 0, 0, 0, 0]);
    let mut bytes = vec![];
    EndRequest::new(u32::MAX, ProtocolStatus::Overloaded).write_record_bytes(&mut bytes);
    assert_eq!(bytes, vec![0xff, 0xff, 0xff, 0xff, 2, 0, 0, 0]);
    assert_eq!(
        EndRequest::from_record_bytes(vec![0x12, 0x34, 0x56, 0x78, 1, 9, 9, 9]),
        Ok(EndRequest::new(
            0x1234_5678,
            ProtocolStatus::MultiplexingUnsupported
        ))
    );
}

#[test]
fn unknown_type_layout() {
    let mut bytes = vec![];
    UnknownType::new(200).write_record_bytes(&mut bytes);
    assert_eq!(bytes, vec![200, 0, 0, 0, 0, 0, 0, 0]);
    assert_eq!(
        UnknownType::from_record_bytes(vec![5, 1, 2, 3, 4, 5, 6, 7]),
        Ok(UnknownType::new(5))
    );
}

#[test]
fn abort_request_has_no_payload() {
    let mut bytes = vec![1];
    AbortRequest.write_record_bytes(&mut bytes);
    assert_eq!(bytes, vec![1]);
    assert_eq!(AbortRequest::from_record_bytes(vec![]), Ok(AbortRequest));
}

#[test]
fn stream_records_carry_their_bytes() {
    let mut stdin = Stdin::from_record_bytes(vec![1, 2, 3]).unwrap();
    assert_eq!(stdin, Stdin(vec![1, 2, 3]));
    assert_eq!(stdin.bytes(), &[1, 2, 3]);
    let mut out = vec![0];
    stdin.write_record_bytes(&mut out);
    assert_eq!(out, vec![0, 1, 2, 3]);
    assert_eq!(stdin.take(), vec![1, 2, 3]);
    assert_eq!(stdin, Stdin::default());
    assert_eq!(stdin.take(), Vec::<u8>::new());

    assert_eq!(Stdout::from_record_bytes(vec![4]).unwrap(), Stdout(vec![4]));
    assert_eq!(Data::from_record_bytes(vec![5]).unwrap(), Data(vec![5]));
    assert_eq!(
        Stderr::from_record_bytes(vec![6]).unwrap(),
        Stderr::new(vec![6])
    );
    assert_eq!(Stderr::new(vec![6]).bytes(), &[6]);
    let mut out = vec![];
    Stdout::new(vec![7, 8]).write_record_bytes(&mut out);
    Data::new(vec![9]).write_record_bytes(&mut out);
    Stderr::new(vec![10]).write_record_bytes(&mut out);
    assert_eq!(out, vec![7, 8, 9, 10]);
}

#[test]
fn params_take_leaves_them_empty() {
    let mut params = Params::default().add("A", "1");
    let taken = params.take();
    assert_eq!(taken.get("A"), Some("1"));
    assert_eq!(params, Params::default());
    assert_eq!(params.get("A"), None);
}

#[test]
fn packets() {
    let packet = Packet::new(5, vec![1, 2, 3]);
    assert_eq!(packet.type_id(), 5);
    assert_eq!(packet.request_id(), 1);
    assert_eq!(packet.content(), &[1, 2, 3]);
    assert!(!packet.is_empty());
    assert!(!packet.is_incomplete());
    assert_eq!(packet.clone(), packet);
    assert_eq!(packet.into_content(), vec![1, 2, 3]);

    let packet = Packet::new(9, vec![]);
    assert_eq!(packet.request_id(), 0);
    assert!(packet.is_empty());
    assert!(packet.is_incomplete());

    let header = PacketHeader::parse(&[1, 4, 0, 0, 0, 2, 6, 0]).unwrap();
    let packet = Packet::from_header(&header, vec![8, 9]);
    assert_eq!(packet.type_id(), 4);
    assert_eq!(packet.request_id(), 0);
    assert_eq!(packet.content(), &[8, 9]);

    let mut conn = Connection::default();
    conn.write_packet(&packet);
    assert_eq!(
        conn.output(),
        &[1, 4, 0, 0, 0, 2, 6, 0, 8, 9, 0, 0, 0, 0, 0, 0]
    );
    let mut conn = Connection::new(conn.take_output());
    assert_eq!(conn.read_packet(), Ok(packet));
    assert_eq!(conn.read_packet(), Err(Error::UnexpectedSocketClose));
}

#[test]
fn a_packet_of_the_greatest_length() {
    let packet = Packet::new(6, vec![3; 65535]);
    let mut conn = Connection::default();
    conn.write_packet(&packet);
    assert_eq!(conn.output().len(), 8 + 65535 + 1);
    assert_eq!(&conn.output()[4..7], &[0xff, 0xff, 1]);
    let mut conn = Connection::new(conn.take_output());
    assert_eq!(conn.read_packet(), Ok(packet));
}

#[test]
fn putting_a_record_together_packet_by_packet() {
    let mut assembler = Assembler::new();
    // a discrete record is whole at once
    assert_eq!(
        assembler.push(Packet::new(2, vec![])),
        Some(Ok(Record::AbortRequest(AbortRequest)))
    );
    // an empty first packet of a stream is a whole record
    assert_eq!(
        assembler.push(Packet::new(5, vec![])),
        Some(Ok(Record::Stdin(Stdin(vec![]))))
    );
    // a stream goes on until its empty packet
    assert_eq!(assembler.push(Packet::new(5, b"ab".to_vec())), None);
    assert_eq!(assembler.push(Packet::new(5, b"cd".to_vec())), None);
    assert_eq!(
        assembler.push(Packet::new(5, vec![])),
        Some(Ok(Record::Stdin(Stdin(b"abcd".to_vec()))))
    );
    // and then the assembler starts afresh
    assert_eq!(assembler.push(Packet::new(4, vec![1, 0, b'a'])), None);
    assert_eq!(
        assembler.push(Packet::new(4, vec![])),
        Some(Ok(Record::Params(Params::default().add("a", ""))))
    );
    // a packet of another type breaks a stream
    assert_eq!(assembler.push(Packet::new(5, b"ab".to_vec())), None);
    assert_eq!(
        assembler.push(Packet::new(6, b"cd".to_vec())),
        Some(Err(Error::MalformedRecordStream))
    );
    assert_eq!(
        assembler.push(Packet::new(6, vec![])),
        Some(Ok(Record::Stdout(Stdout(vec![]))))
    );
    // a stream of an unknown type is gathered, then refused
    assert_eq!(assembler.push(Packet::new(50, vec![1])), None);
    assert_eq!(
        assembler.push(Packet::new(50, vec![])),
        Some(Err(Error::UnknownRecordType(50)))
    );
    // a payload that cannot be decoded comes out as its error
    assert_eq!(assembler.push(Packet::new(4, vec![1])), None);
    assert_eq!(
        assembler.push(Packet::new(4, vec![])),
        Some(Err(Error::MalformedRecordPayload("Params")))
    );
}
