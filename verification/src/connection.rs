//! Packets on the wire and records in them.
//!
//! A FastCGI client may send content using one or more packets. A packet is a
//! single physical message: an 8-byte header, the content, and padding. A record is
//! a logically complete message: one packet for a discrete record, and for a stream
//! record the contents of successive packets of one type up to an empty packet.
//!
//! The connection in this module lives in memory: what the peer sent is fed into it,
//! and what is written to it is collected for the peer.

use crate::encoding::{be16, be16_bytes, lemma_be16_round_trip, push_u16_be, u16_from_be};
use crate::error::Error;
use crate::record::abort_request::AbortRequest;
use crate::record::begin_request::BeginRequest;
use crate::record::data::Data;
use crate::record::end_request::EndRequest;
use crate::record::get_values::GetValues;
use crate::record::get_values_result::GetValuesResult;
use crate::record::params::Params;
use crate::record::stderr::Stderr;
use crate::record::stdin::Stdin;
use crate::record::stdout::Stdout;
use crate::record::unknown::UnknownType;
use crate::record::{
    discrete_type, faithful, is_discrete_type, is_management_type, lemma_record_round_trip,
    management_type, Record, RecordView,
};
use vstd::prelude::*;
use vstd::slice::{slice_subrange, slice_to_vec};

verus! {

/// The most bytes that one packet can carry.
pub const MAX_CONTENT: usize = 65535;

/// What a packet holds.
pub struct PacketView {
    pub type_id: u8,
    pub request_id: u16,
    pub content: Seq<u8>,
}

/// The header of a packet.
#[derive(Debug, Clone, Copy, PartialEq, Eq)]
pub struct PacketHeader {
    pub type_id: u8,
    pub request_id: u16,
    pub content_length: u16,
    pub padding_length: u8,
}

/// `n` zero bytes.
pub open spec fn zeros(n: int) -> Seq<u8> {
    Seq::new(n as nat, |i: int| 0u8)
}

/// The number of padding bytes after `len` bytes of content: the least that makes
/// the packet's length a multiple of 8.
pub open spec fn padding_for(len: int) -> int {
    (8 - len % 8) % 8
}

/// The request id that a record of the given type travels under: 0 for a
/// management record, 1 for any other.
pub open spec fn request_id_for(type_id: u8) -> u16 {
    if is_management_type(type_id) {
        0
    } else {
        1
    }
}

/// The eight bytes of a header: version 1, the type, the request id, the content
/// length, the padding length and a reserved zero byte.
pub open spec fn header_bytes(h: PacketHeader) -> Seq<u8> {
    seq![1u8, h.type_id] + be16_bytes(h.request_id) + be16_bytes(h.content_length) + seq![
        h.padding_length,
        0u8,
    ]
}

/// The header that eight bytes stand for.
pub open spec fn parse_header(bytes: Seq<u8>) -> Result<PacketHeader, Error> {
    if bytes[0] != 1 {
        Err(Error::UnsupportedVersion(bytes[0]))
    } else if be16(bytes[2], bytes[3]) > 1 {
        Err(Error::MultiplexingUnsupported)
    } else {
        Ok(
            PacketHeader {
                type_id: bytes[1],
                request_id: be16(bytes[2], bytes[3]) as u16,
                content_length: be16(bytes[4], bytes[5]) as u16,
                padding_length: bytes[6],
            },
        )
    }
}

/// The bytes of a packet on the wire: header, content, zero padding.
#[verifier::opaque]
pub open spec fn packet_bytes(p: PacketView) -> Seq<u8> {
    header_bytes(
        PacketHeader {
            type_id: p.type_id,
            request_id: p.request_id,
            content_length: p.content.len() as u16,
            padding_length: padding_for(p.content.len() as int) as u8,
        },
    ) + p.content + zeros(padding_for(p.content.len() as int))
}

/// The packet that `input` starts with, and the input that is left after it. Input
/// that ends inside a packet is used up whole.
#[verifier::opaque]
pub open spec fn parse_packet(input: Seq<u8>) -> (Result<PacketView, Error>, Seq<u8>) {
    if input.len() < 8 {
        (Err(Error::UnexpectedSocketClose), Seq::empty())
    } else {
        match parse_header(input.take(8)) {
            Err(e) => (Err(e), input.skip(8)),
            Ok(h) => {
                let body = input.skip(8);
                if body.len() < h.content_length + h.padding_length {
                    (Err(Error::UnexpectedSocketClose), Seq::empty())
                } else {
                    (
                        Ok(
                            PacketView {
                                type_id: h.type_id,
                                request_id: h.request_id,
                                content: body.take(h.content_length as int),
                            },
                        ),
                        body.skip(h.content_length + h.padding_length),
                    )
                }
            },
        }
    }
}

/// Reading a packet uses up at least its header.
pub proof fn lemma_parse_packet_shrinks(input: Seq<u8>)
    ensures
        parse_packet(input).0 is Ok ==> parse_packet(input).1.len() + 8 <= input.len(),
        parse_packet(input).1.len() <= input.len(),
{
    reveal(parse_packet);
}

/// The padding fills a packet up to a multiple of 8 bytes, with at most 7 bytes.
pub proof fn lemma_padding(len: int)
    requires
        0 <= len,
    ensures
        0 <= padding_for(len) <= 7,
        (8 + len + padding_for(len)) % 8 == 0,
{
}

/// The length of a packet on the wire.
pub proof fn lemma_packet_bytes_len(p: PacketView)
    ensures
        packet_bytes(p).len() == 8 + p.content.len() + padding_for(p.content.len() as int),
        packet_bytes(p).len() % 8 == 0,
{
    reveal(packet_bytes);
    lemma_padding(p.content.len() as int);
}

/// A packet is read back as it was written, whatever follows it.
pub proof fn lemma_packet_round_trip(p: PacketView, rest: Seq<u8>)
    requires
        p.content.len() <= 65535,
        p.request_id <= 1,
    ensures
        parse_packet(packet_bytes(p) + rest) == (Ok::<PacketView, Error>(p), rest),
{
    reveal(packet_bytes);
    reveal(parse_packet);
    let n = p.content.len() as int;
    let pad = padding_for(n);
    lemma_padding(n);
    let h = PacketHeader {
        type_id: p.type_id,
        request_id: p.request_id,
        content_length: n as u16,
        padding_length: pad as u8,
    };
    let input = packet_bytes(p) + rest;
    lemma_be16_round_trip(h.request_id);
    lemma_be16_round_trip(h.content_length);
    assert(input.take(8) =~= header_bytes(h));
    assert(parse_header(header_bytes(h)) == Ok::<PacketHeader, Error>(h));
    let body = input.skip(8);
    assert(body =~= p.content + zeros(pad) + rest);
    assert(body.take(n) =~= p.content);
    assert(body.skip(n + pad) =~= rest);
}

/// A single physical message: a record type, a request id and at most 65535 bytes
/// of content.
#[derive(Debug, PartialEq, Eq)]
pub struct Packet {
    type_id: u8,
    request_id: u16,
    content: Vec<u8>,
}

impl View for Packet {
    type V = PacketView;

    closed spec fn view(&self) -> PacketView {
        PacketView { type_id: self.type_id, request_id: self.request_id, content: self.content@ }
    }
}

impl Clone for Packet {
    fn clone(&self) -> (r: Self)
        ensures
            r@ == self@,
    {
        proof {
            use_type_invariant(self);
        }
        Packet {
            type_id: self.type_id,
            request_id: self.request_id,
            content: slice_to_vec(self.content.as_slice()),
        }
    }
}

impl Packet {
    #[verifier::type_invariant]
    spec fn inv(&self) -> bool {
        self.content@.len() <= 65535 && self.request_id <= 1
    }

    /// A packet of the given type, under the request id that goes with the type.
    pub fn new(type_id: u8, content: Vec<u8>) -> (r: Self)
        requires
            content@.len() <= 65535,
        ensures
            r@ == (PacketView { type_id, request_id: request_id_for(type_id), content: content@ }),
    {
        let request_id: u16 = if management_type(type_id) {
            0
        } else {
            1
        };
        Packet { type_id, request_id, content }
    }

    /// The packet that a header announces, once its content has been read.
    pub fn from_header(header: &PacketHeader, content: Vec<u8>) -> (r: Self)
        requires
            content@.len() == header.content_length,
            header.request_id <= 1,
        ensures
            r@ == (PacketView {
                type_id: header.type_id,
                request_id: header.request_id,
                content: content@,
            }),
    {
        Packet { type_id: header.type_id, request_id: header.request_id, content }
    }

    /// The type that it travels under.
    pub fn type_id(&self) -> (r: u8)
        ensures
            r == self@.type_id,
    {
        self.type_id
    }

    /// The request that it belongs to: 0 or 1.
    pub fn request_id(&self) -> (r: u16)
        ensures
            r == self@.request_id,
            r <= 1,
    {
        proof {
            use_type_invariant(self);
        }
        self.request_id
    }

    /// The bytes that it carries.
    pub fn content(&self) -> (r: &[u8])
        ensures
            r@ == self@.content,
            r@.len() <= 65535,
    {
        proof {
            use_type_invariant(self);
        }
        self.content.as_slice()
    }

    /// Gives up the packet for its content.
    pub fn into_content(self) -> (r: Vec<u8>)
        ensures
            r@ == self@.content,
            r@.len() <= 65535,
    {
        proof {
            use_type_invariant(&self);
        }
        self.content
    }

    /// True when the packet's type is one of the discrete ones, so that the packet
    /// is a record by itself and no further packet belongs to it.
    pub fn is_incomplete(&self) -> (r: bool)
        ensures
            r == is_discrete_type(self@.type_id),
    {
        discrete_type(self.type_id)
    }

    /// True when the packet has no content: as the last packet of a stream, it
    /// ends the stream.
    pub fn is_empty(&self) -> (r: bool)
        ensures
            r == (self@.content.len() == 0),
    {
        self.content.len() == 0
    }
}

impl PacketHeader {
    /// Reads a header from its eight bytes. The version must be 1 and the request
    /// id at most 1.
    pub fn parse(bytes: &[u8; 8]) -> (r: Result<PacketHeader, Error>)
        ensures
            r == parse_header(bytes@),
    {
        let version: u8 = bytes[0];
        if version != 1 {
            return Err(Error::UnsupportedVersion(version));
        }
        let request_id: u16 = u16_from_be(bytes[2], bytes[3]);
        if request_id > 1 {
            return Err(Error::MultiplexingUnsupported);
        }
        Ok(
            PacketHeader {
                type_id: bytes[1],
                request_id,
                content_length: u16_from_be(bytes[4], bytes[5]),
                padding_length: bytes[6],
            },
        )
    }

    /// The number of bytes that follow the header: content and padding.
    pub fn body_length(&self) -> (r: usize)
        ensures
            r == self.content_length + self.padding_length,
    {
        self.content_length as usize + self.padding_length as usize
    }
}

/// True when `r` is the outcome `v`, record for record and error for error.
pub open spec fn same_record(r: Result<Record, Error>, v: Result<RecordView, Error>) -> bool {
    match v {
        Ok(w) => r matches Ok(x) && x@ == w,
        Err(e) => r matches Err(f) && f == e,
    }
}

/// One step of putting a record together: what becomes of the bytes gathered so far
/// (nothing yet, or the stream's type and bytes) when the next packet arrives, and
/// the record or the error that the packet completes, if it completes one.
///
/// A first packet of a discrete type, or without content, is a record by itself.
/// Any other first packet opens a stream, which goes on until an empty packet of the
/// same type; a packet of another type breaks it.
pub open spec fn assemble(state: Option<(u8, Seq<u8>)>, p: PacketView) -> (
    Option<(u8, Seq<u8>)>,
    Option<Result<RecordView, Error>>,
) {
    match state {
        None => if is_discrete_type(p.type_id) || p.content.len() == 0 {
            (None, Some(Record::decode(p.type_id, p.content)))
        } else {
            (Some((p.type_id, p.content)), None)
        },
        Some((type_id, gathered)) => if p.type_id != type_id {
            (None, Some(Err(Error::MalformedRecordStream)))
        } else if p.content.len() == 0 {
            (None, Some(Record::decode(type_id, gathered)))
        } else {
            (Some((type_id, gathered + p.content)), None)
        },
    }
}

/// The record that the packets at the start of `input` complete, on top of what has
/// been gathered, and the input that is left after them.
pub open spec fn parse_record_from(state: Option<(u8, Seq<u8>)>, input: Seq<u8>) -> (
    Result<RecordView, Error>,
    Seq<u8>,
)
    decreases input.len(),
{
    let (packet, rest) = parse_packet(input);
    match packet {
        Err(e) => (Err(e), rest),
        Ok(p) => match assemble(state, p) {
            (_, Some(result)) => (result, rest),
            (next, None) => if rest.len() < input.len() {
                parse_record_from(next, rest)
            } else {
                (Err(Error::UnexpectedSocketClose), rest)
            },
        },
    }
}

/// The record that `input` starts with, and the input that is left after it.
pub open spec fn parse_record(input: Seq<u8>) -> (Result<RecordView, Error>, Seq<u8>) {
    parse_record_from(None, input)
}

/// The length of the next packet's content when `n` bytes are left to send.
pub open spec fn chunk_len(n: int) -> int {
    if n <= 65535 {
        n
    } else {
        65535
    }
}

/// The packet of the given type that carries `content`.
pub open spec fn packet_of(type_id: u8, content: Seq<u8>) -> PacketView {
    PacketView { type_id, request_id: request_id_for(type_id), content }
}

/// The packets of a stream: the payload in pieces of at most 65535 bytes, then an
/// empty packet.
pub open spec fn stream_packets(type_id: u8, payload: Seq<u8>) -> Seq<PacketView>
    decreases payload.len(),
{
    if payload.len() == 0 {
        seq![packet_of(type_id, payload)]
    } else {
        let n = chunk_len(payload.len() as int);
        seq![packet_of(type_id, payload.take(n))] + stream_packets(type_id, payload.skip(n))
    }
}

/// The packets that a record is written as. A stream record is written as its
/// stream. A discrete record is written as one packet, which carries the payload
/// as far as one packet can.
pub open spec fn record_packets(v: RecordView) -> Seq<PacketView> {
    let type_id = Record::spec_type_id(v);
    let payload = Record::encode(v);
    if is_discrete_type(type_id) {
        seq![packet_of(type_id, payload.take(chunk_len(payload.len() as int)))]
    } else {
        stream_packets(type_id, payload)
    }
}

/// The bytes of a sequence of packets on the wire.
pub open spec fn packets_bytes(packets: Seq<PacketView>) -> Seq<u8>
    decreases packets.len(),
{
    if packets.len() == 0 {
        Seq::empty()
    } else {
        packet_bytes(packets[0]) + packets_bytes(packets.drop_first())
    }
}

/// The bytes that a record is written as.
pub open spec fn record_bytes(v: RecordView) -> Seq<u8> {
    packets_bytes(record_packets(v))
}

/// The bytes of a packet followed by more packets.
pub proof fn lemma_packets_bytes_cons(p: PacketView, rest: Seq<PacketView>)
    ensures
        packets_bytes(seq![p] + rest) == packet_bytes(p) + packets_bytes(rest),
{
    let all = seq![p] + rest;
    assert(all[0] == p);
    assert(all.drop_first() =~= rest);
}

/// The bytes of a single packet, as a sequence of packets.
pub proof fn lemma_packets_bytes_one(p: PacketView)
    ensures
        packets_bytes(seq![p]) == packet_bytes(p),
{
    let one = seq![p];
    assert(one.drop_first() =~= Seq::<PacketView>::empty());
    assert(packets_bytes(one.drop_first()) == Seq::<u8>::empty());
    assert(packet_bytes(p) + Seq::<u8>::empty() =~= packet_bytes(p));
}

/// A stream of `n` bytes takes ⌈n / 65535⌉ packets with content and one empty
/// packet; each carries at most 65535 bytes, under the request id of its type.
pub proof fn lemma_stream_packets(type_id: u8, payload: Seq<u8>)
    ensures
        stream_packets(type_id, payload).len() == (payload.len() + 65534) / 65535 + 1,
        stream_packets(type_id, payload).last().content.len() == 0,
        forall|i: int|
            0 <= i < stream_packets(type_id, payload).len() ==> {
                let p = #[trigger] stream_packets(type_id, payload)[i];
                p.type_id == type_id && p.request_id == request_id_for(type_id) && p.content.len()
                    <= 65535 && (i < stream_packets(type_id, payload).len() - 1
                    ==> p.content.len() > 0)
            },
    decreases payload.len(),
{
    if payload.len() == 0 {
    } else {
        let n = chunk_len(payload.len() as int);
        let head = seq![packet_of(type_id, payload.take(n))];
        let tail = stream_packets(type_id, payload.skip(n));
        lemma_stream_packets(type_id, payload.skip(n));
        let all = stream_packets(type_id, payload);
        assert(all == head + tail);
        assert(all.last() == tail.last());
        assert forall|i: int| 0 <= i < all.len() implies ({
            let p = #[trigger] all[i];
            p.type_id == type_id && p.request_id == request_id_for(type_id) && p.content.len()
                <= 65535 && (i < all.len() - 1 ==> p.content.len() > 0)
        }) by {
            if i > 0 {
                assert(all[i] == tail[i - 1]);
            }
        }
    }
}

/// A stream is read back, on top of what has been gathered of the same type, as
/// the record that the gathered bytes followed by the payload stand for.
pub proof fn lemma_stream_read_back(
    state: Option<(u8, Seq<u8>)>,
    type_id: u8,
    payload: Seq<u8>,
    rest: Seq<u8>,
)
    requires
        !is_discrete_type(type_id),
        state matches Some((t, _)) ==> t == type_id,
    ensures
        parse_record_from(state, packets_bytes(stream_packets(type_id, payload)) + rest) == (
            Record::decode(
                type_id,
                (match state {
                    Some((_, gathered)) => gathered,
                    None => Seq::empty(),
                }) + payload,
            ),
            rest,
        ),
    decreases payload.len(),
{
    let gathered = match state {
        Some((_, gathered)) => gathered,
        None => Seq::<u8>::empty(),
    };
    let input = packets_bytes(stream_packets(type_id, payload)) + rest;
    if payload.len() == 0 {
        let p = packet_of(type_id, payload);
        lemma_packets_bytes_one(p);
        lemma_packet_round_trip(p, rest);
        assert(gathered + payload =~= gathered);
    } else {
        let n = chunk_len(payload.len() as int);
        let p = packet_of(type_id, payload.take(n));
        let tail = stream_packets(type_id, payload.skip(n));
        let after = packets_bytes(tail) + rest;
        lemma_packets_bytes_cons(p, tail);
        lemma_packet_bytes_len(p);
        assert(input =~= packet_bytes(p) + after);
        lemma_packet_round_trip(p, after);
        let next = assemble(state, p).0;
        assert(next == Some((type_id, gathered + payload.take(n))));
        lemma_stream_read_back(next, type_id, payload.skip(n), rest);
        assert((gathered + payload.take(n)) + payload.skip(n) =~= gathered + payload);
    }
}

/// What is written for a record is read back as the record, whatever follows it:
/// for every record that its payload carries whole and, where it is discrete, that
/// one packet can hold.
pub proof fn lemma_record_read_back(v: RecordView, rest: Seq<u8>)
    requires
        faithful(v),
        is_discrete_type(Record::spec_type_id(v)) ==> Record::encode(v).len() <= 65535,
    ensures
        parse_record(record_bytes(v) + rest) == (Ok::<RecordView, Error>(v), rest),
{
    let type_id = Record::spec_type_id(v);
    let payload = Record::encode(v);
    lemma_record_round_trip(v);
    if is_discrete_type(type_id) {
        assert(payload.take(payload.len() as int) =~= payload);
        let p = packet_of(type_id, payload);
        lemma_packets_bytes_one(p);
        lemma_packet_round_trip(p, rest);
    } else {
        lemma_stream_read_back(None, type_id, payload, rest);
        assert(Seq::<u8>::empty() + payload =~= payload);
    }
}

/// Puts records together from the packets that arrive.
#[derive(Debug)]
pub struct Assembler {
    started: bool,
    type_id: u8,
    content: Vec<u8>,
}

impl View for Assembler {
    type V = Option<(u8, Seq<u8>)>;

    closed spec fn view(&self) -> Option<(u8, Seq<u8>)> {
        if self.started {
            Some((self.type_id, self.content@))
        } else {
            None
        }
    }
}

impl Assembler {
    /// An assembler that has gathered nothing.
    pub fn new() -> (r: Self)
        ensures
            r@ is None,
    {
        Assembler { started: false, type_id: 0, content: Vec::new() }
    }

    /// Takes the next packet. Returns the record, or the error, that the packet
    /// completes; nothing where more packets have to follow.
    pub fn push(&mut self, packet: Packet) -> (r: Option<Result<Record, Error>>)
        ensures
            final(self)@ == assemble(old(self)@, packet@).0,
            match assemble(old(self)@, packet@).1 {
                None => r is None,
                Some(outcome) => r matches Some(result) && same_record(result, outcome),
            },
    {
        let type_id: u8 = packet.type_id();
        if !self.started {
            if packet.is_incomplete() || packet.is_empty() {
                return Some(Record::from_bytes(type_id, packet.into_content()));
            }
            self.started = true;
            self.type_id = type_id;
            self.content = packet.into_content();
            None
        } else if type_id != self.type_id {
            self.started = false;
            self.content = Vec::new();
            Some(Err(Error::MalformedRecordStream))
        } else if packet.is_empty() {
            self.started = false;
            let mut content: Vec<u8> = Vec::new();
            core::mem::swap(&mut self.content, &mut content);
            Some(Record::from_bytes(type_id, content))
        } else {
            self.content.extend_from_slice(packet.content());
            None
        }
    }
}

/// What a connection holds: the input not yet read, and the output written so far.
pub struct ConnectionView {
    pub input: Seq<u8>,
    pub output: Seq<u8>,
}

/// One side of a FastCGI conversation, held in memory.
#[derive(Debug)]
pub struct Connection {
    input: Vec<u8>,
    position: usize,
    output: Vec<u8>,
}

impl View for Connection {
    type V = ConnectionView;

    closed spec fn view(&self) -> ConnectionView {
        ConnectionView { input: self.input@.skip(self.position as int), output: self.output@ }
    }
}

impl Default for Connection {
    fn default() -> (r: Self)
        ensures
            r@.input == Seq::<u8>::empty(),
            r@.output == Seq::<u8>::empty(),
    {
        Connection::new(Vec::new())
    }
}

impl Connection {
    #[verifier::type_invariant]
    spec fn inv(&self) -> bool {
        self.position <= self.input@.len()
    }

    /// A connection on which the peer has sent `input`, and nothing was written.
    pub fn new(input: Vec<u8>) -> (r: Self)
        ensures
            r@.input == input@,
            r@.output == Seq::<u8>::empty(),
    {
        assert(input@.skip(0) =~= input@);
        Connection { input, position: 0, output: Vec::new() }
    }

    /// Adds `bytes` to the input: the peer has sent them.
    pub fn feed(&mut self, bytes: &[u8])
        ensures
            final(self)@.input == old(self)@.input + bytes@,
            final(self)@.output == old(self)@.output,
    {
        proof {
            use_type_invariant(&*self);
        }
        let position: usize = self.position;
        let mut input: Vec<u8> = Vec::new();
        self.position = 0;
        core::mem::swap(&mut self.input, &mut input);
        input.extend_from_slice(bytes);
        core::mem::swap(&mut self.input, &mut input);
        self.position = position;
        assert(self@.input =~= old(self)@.input + bytes@);
    }

    /// The number of input bytes not yet read.
    pub fn remaining(&self) -> (r: usize)
        ensures
            r == self@.input.len(),
    {
        proof {
            use_type_invariant(self);
        }
        self.input.len() - self.position
    }

    /// What has been written so far.
    pub fn output(&self) -> (r: &[u8])
        ensures
            r@ == self@.output,
    {
        self.output.as_slice()
    }

    /// Hands out what has been written so far, and starts the output afresh.
    pub fn take_output(&mut self) -> (r: Vec<u8>)
        ensures
            r@ == old(self)@.output,
            final(self)@.output == Seq::<u8>::empty(),
            final(self)@.input == old(self)@.input,
    {
        proof {
            use_type_invariant(&*self);
        }
        let mut taken: Vec<u8> = Vec::new();
        core::mem::swap(&mut self.output, &mut taken);
        taken
    }

    /// Reads exactly `n` bytes of input. Where fewer are left, uses them up and
    /// fails.
    fn read_exact(&mut self, n: usize) -> (r: Option<Vec<u8>>)
        ensures
            final(self)@.output == old(self)@.output,
            n <= old(self)@.input.len() ==> (r matches Some(bytes) && bytes@ == old(
                self,
            )@.input.take(n as int)) && final(self)@.input == old(self)@.input.skip(n as int),
            n > old(self)@.input.len() ==> r is None && final(self)@.input == Seq::<u8>::empty(),
    {
        proof {
            use_type_invariant(&*self);
        }
        let len: usize = self.input.len();
        if n > len - self.position {
            self.position = len;
            assert(self@.input =~= Seq::<u8>::empty());
            return None;
        }
        let start: usize = self.position;
        let bytes = slice_to_vec(slice_subrange(self.input.as_slice(), start, start + n));
        self.position = start + n;
        assert(bytes@ =~= old(self)@.input.take(n as int));
        assert(self@.input =~= old(self)@.input.skip(n as int));
        Some(bytes)
    }

    /// Appends `bytes` to the output.
    fn write_all(&mut self, bytes: &[u8])
        ensures
            final(self)@.output == old(self)@.output + bytes@,
            final(self)@.input == old(self)@.input,
    {
        proof {
            use_type_invariant(&*self);
        }
        let mut output: Vec<u8> = Vec::new();
        core::mem::swap(&mut self.output, &mut output);
        output.extend_from_slice(bytes);
        core::mem::swap(&mut self.output, &mut output);
    }

    /// Reads one packet. Its padding is read and dropped.
    pub fn read_packet(&mut self) -> (r: Result<Packet, Error>)
        ensures
            final(self)@.output == old(self)@.output,
            final(self)@.input == parse_packet(old(self)@.input).1,
            match parse_packet(old(self)@.input).0 {
                Ok(p) => r matches Ok(x) && x@ == p,
                Err(e) => r matches Err(f) && f == e,
            },
    {
        proof {
            reveal(parse_packet);
        }
        let header_vec = match self.read_exact(8) {
            Some(bytes) => bytes,
            None => {
                return Err(Error::UnexpectedSocketClose);
            },
        };
        let header_bytes: [u8; 8] = [
            header_vec[0],
            header_vec[1],
            header_vec[2],
            header_vec[3],
            header_vec[4],
            header_vec[5],
            header_vec[6],
            header_vec[7],
        ];
        assert(header_bytes@ =~= old(self)@.input.take(8));
        let header = match PacketHeader::parse(&header_bytes) {
            Ok(header) => header,
            Err(e) => {
                return Err(e);
            },
        };
        let ghost body = old(self)@.input.skip(8);
        if self.remaining() < header.body_length() {
            let _ = self.read_exact(header.body_length());
            return Err(Error::UnexpectedSocketClose);
        }
        let content = match self.read_exact(header.content_length as usize) {
            Some(bytes) => bytes,
            None => {
                return Err(Error::UnexpectedSocketClose);
            },
        };
        let _ = self.read_exact(header.padding_length as usize);
        assert(self@.input =~= body.skip(header.content_length + header.padding_length));
        Ok(Packet::from_header(&header, content))
    }

    /// Writes one packet: header, content, zero padding.
    pub fn write_packet(&mut self, packet: &Packet)
        ensures
            final(self)@.output == old(self)@.output + packet_bytes(packet@),
            final(self)@.input == old(self)@.input,
    {
        self.write_chunk(packet.type_id(), packet.request_id(), packet.content());
    }

    /// Writes the packet of the given type and request id that carries `content`.
    fn write_chunk(&mut self, type_id: u8, request_id: u16, content: &[u8])
        requires
            content@.len() <= 65535,
        ensures
            final(self)@.output == old(self)@.output + packet_bytes(
                PacketView { type_id, request_id, content: content@ },
            ),
            final(self)@.input == old(self)@.input,
    {
        proof {
            reveal(packet_bytes);
        }
        let len: usize = content.len();
        let padding: u8 = ((8 - len % 8) % 8) as u8;
        let mut bytes: Vec<u8> = Vec::new();
        bytes.push(1);
        bytes.push(type_id);
        push_u16_be(&mut bytes, request_id);
        push_u16_be(&mut bytes, len as u16);
        bytes.push(padding);
        bytes.push(0);
        bytes.extend_from_slice(content);
        let mut i: u8 = 0;
        let ghost unpadded = bytes@;
        while i < padding
            invariant
                i <= padding,
                bytes@ == unpadded + zeros(i as int),
            decreases padding - i,
        {
            bytes.push(0);
            i += 1;
            assert(bytes@ =~= unpadded + zeros(i as int));
        }
        assert(bytes@ =~= packet_bytes(PacketView { type_id, request_id, content: content@ }));
        self.write_all(bytes.as_slice());
    }

    /// Reads one record: one packet for a discrete record, the packets of a stream
    /// up to its empty packet for a stream record.
    pub fn read_record(&mut self) -> (r: Result<Record, Error>)
        ensures
            final(self)@.output == old(self)@.output,
            final(self)@.input == parse_record(old(self)@.input).1,
            same_record(r, parse_record(old(self)@.input).0),
    {
        let ghost start = self@;
        let mut assembler = Assembler::new();
        loop
            invariant
                start == old(self)@,
                self@.output == start.output,
                parse_record(start.input) == parse_record_from(assembler@, self@.input),
            decreases self@.input.len(),
        {
            proof {
                lemma_parse_packet_shrinks(self@.input);
            }
            let packet = match self.read_packet() {
                Ok(packet) => packet,
                Err(e) => {
                    return Err(e);
                },
            };
            match assembler.push(packet) {
                Some(result) => {
                    return result;
                },
                None => {},
            }
        }
    }

    /// Writes one record. A stream record goes out in packets of at most 65535
    /// bytes, followed by an empty packet. A discrete record goes out as a single
    /// packet, which carries the payload as far as one packet can.
    pub fn write_record(&mut self, record: &Record)
        ensures
            final(self)@.output == old(self)@.output + record_bytes(record@),
            final(self)@.input == old(self)@.input,
    {
        let mut payload: Vec<u8> = Vec::new();
        record.write_bytes(&mut payload);
        assert(payload@ =~= Record::encode(record@));
        let type_id: u8 = record.type_id();
        let request_id: u16 = if record.is_management_record() {
            0
        } else {
            1
        };
        let len: usize = payload.len();
        if discrete_type(type_id) {
            let n: usize = if len <= MAX_CONTENT {
                len
            } else {
                MAX_CONTENT
            };
            let chunk = slice_subrange(payload.as_slice(), 0, n);
            assert(chunk@ =~= payload@.take(n as int));
            self.write_chunk(type_id, request_id, chunk);
            proof {
                lemma_packets_bytes_one(packet_of(type_id, payload@.take(n as int)));
            }
            return ;
        }
        let ghost start = self@;
        let ghost all = packets_bytes(stream_packets(type_id, payload@));
        let mut pos: usize = 0;
        assert(payload@.skip(0) =~= payload@);
        while pos < len
            invariant
                len == payload@.len(),
                pos <= len,
                request_id == request_id_for(type_id),
                self@.input == start.input,
                start.output + all == self@.output + packets_bytes(
                    stream_packets(type_id, payload@.skip(pos as int)),
                ),
            decreases len - pos,
        {
            let n: usize = if len - pos <= MAX_CONTENT {
                len - pos
            } else {
                MAX_CONTENT
            };
            let chunk = slice_subrange(payload.as_slice(), pos, pos + n);
            let ghost left = payload@.skip(pos as int);
            let ghost written = self@.output;
            proof {
                assert(chunk@ =~= left.take(n as int));
                assert(left.skip(n as int) =~= payload@.skip(pos + n));
                lemma_packets_bytes_cons(
                    packet_of(type_id, left.take(n as int)),
                    stream_packets(type_id, left.skip(n as int)),
                );
            }
            self.write_chunk(type_id, request_id, chunk);
            proof {
                let p = packet_bytes(packet_of(type_id, left.take(n as int)));
                let q = packets_bytes(stream_packets(type_id, left.skip(n as int)));
                assert(written + (p + q) =~= (written + p) + q);
            }
            pos += n;
        }
        let ghost written = self@.output;
        let trailer = slice_subrange(payload.as_slice(), len, len);
        proof {
            assert(trailer@ =~= payload@.skip(len as int));
            lemma_packets_bytes_one(packet_of(type_id, payload@.skip(len as int)));
        }
        self.write_chunk(type_id, request_id, trailer);
    }

    /// Reads the next record and returns it if it is a `GetValues`. Fails with an error
    /// where reading fails, and with nothing where the record is of another kind.
    pub fn expect_get_values(&mut self) -> (r: Result<GetValues, Option<Error>>)
        ensures
            final(self)@.output == old(self)@.output,
            final(self)@.input == parse_record(old(self)@.input).1,
            match parse_record(old(self)@.input).0 {
                Ok(RecordView::GetValues(v)) => r matches Ok(x) && x@ == v,
                Ok(_) => r matches Err(None),
                Err(e) => r matches Err(Some(f)) && f == e,
            },
    {
        match self.read_record() {
            Ok(Record::GetValues(record)) => Ok(record),
            Ok(_) => Err(None),
            Err(e) => Err(Some(e)),
        }
    }

    /// Reads the next record and returns it if it is a `GetValuesResult`. Fails with an error
    /// where reading fails, and with nothing where the record is of another kind.
    pub fn expect_get_values_result(&mut self) -> (r: Result<GetValuesResult, Option<Error>>)
        ensures
            final(self)@.output == old(self)@.output,
            final(self)@.input == parse_record(old(self)@.input).1,
            match parse_record(old(self)@.input).0 {
                Ok(RecordView::GetValuesResult(v)) => r matches Ok(x) && x@ == v,
                Ok(_) => r matches Err(None),
                Err(e) => r matches Err(Some(f)) && f == e,
            },
    {
        match self.read_record() {
            Ok(Record::GetValuesResult(record)) => Ok(record),
            Ok(_) => Err(None),
            Err(e) => Err(Some(e)),
        }
    }

    /// Reads the next record and returns it if it is a `UnknownType`. Fails with an error
    /// where reading fails, and with nothing where the record is of another kind.
    pub fn expect_unknown_type(&mut self) -> (r: Result<UnknownType, Option<Error>>)
        ensures
            final(self)@.output == old(self)@.output,
            final(self)@.input == parse_record(old(self)@.input).1,
            match parse_record(old(self)@.input).0 {
                Ok(RecordView::UnknownType(v)) => r matches Ok(x) && x@ == v,
                Ok(_) => r matches Err(None),
                Err(e) => r matches Err(Some(f)) && f == e,
            },
    {
        match self.read_record() {
            Ok(Record::UnknownType(record)) => Ok(record),
            Ok(_) => Err(None),
            Err(e) => Err(Some(e)),
        }
    }

    /// Reads the next record and returns it if it is a `BeginRequest`. Fails with an error
    /// where reading fails, and with nothing where the record is of another kind.
    pub fn expect_begin_request(&mut self) -> (r: Result<BeginRequest, Option<Error>>)
        ensures
            final(self)@.output == old(self)@.output,
            final(self)@.input == parse_record(old(self)@.input).1,
            match parse_record(old(self)@.input).0 {
                Ok(RecordView::BeginRequest(v)) => r matches Ok(x) && x@ == v,
                Ok(_) => r matches Err(None),
                Err(e) => r matches Err(Some(f)) && f == e,
            },
    {
        match self.read_record() {
            Ok(Record::BeginRequest(record)) => Ok(record),
            Ok(_) => Err(None),
            Err(e) => Err(Some(e)),
        }
    }

    /// Reads the next record and returns it if it is a `EndRequest`. Fails with an error
    /// where reading fails, and with nothing where the record is of another kind.
    pub fn expect_end_request(&mut self) -> (r: Result<EndRequest, Option<Error>>)
        ensures
            final(self)@.output == old(self)@.output,
            final(self)@.input == parse_record(old(self)@.input).1,
            match parse_record(old(self)@.input).0 {
                Ok(RecordView::EndRequest(v)) => r matches Ok(x) && x@ == v,
                Ok(_) => r matches Err(None),
                Err(e) => r matches Err(Some(f)) && f == e,
            },
    {
        match self.read_record() {
            Ok(Record::EndRequest(record)) => Ok(record),
            Ok(_) => Err(None),
            Err(e) => Err(Some(e)),
        }
    }

    /// Reads the next record and returns it if it is a `Params`. Fails with an error
    /// where reading fails, and with nothing where the record is of another kind.
    pub fn expect_params(&mut self) -> (r: Result<Params, Option<Error>>)
        ensures
            final(self)@.output == old(self)@.output,
            final(self)@.input == parse_record(old(self)@.input).1,
            match parse_record(old(self)@.input).0 {
                Ok(RecordView::Params(v)) => r matches Ok(x) && x@ == v,
                Ok(_) => r matches Err(None),
                Err(e) => r matches Err(Some(f)) && f == e,
            },
    {
        match self.read_record() {
            Ok(Record::Params(record)) => Ok(record),
            Ok(_) => Err(None),
            Err(e) => Err(Some(e)),
        }
    }

    /// Reads the next record and returns it if it is a `AbortRequest`. Fails with an error
    /// where reading fails, and with nothing where the record is of another kind.
    pub fn expect_abort_request(&mut self) -> (r: Result<AbortRequest, Option<Error>>)
        ensures
            final(self)@.output == old(self)@.output,
            final(self)@.input == parse_record(old(self)@.input).1,
            match parse_record(old(self)@.input).0 {
                Ok(RecordView::AbortRequest) => r is Ok,
                Ok(_) => r matches Err(None),
                Err(e) => r matches Err(Some(f)) && f == e,
            },
    {
        match self.read_record() {
            Ok(Record::AbortRequest(record)) => Ok(record),
            Ok(_) => Err(None),
            Err(e) => Err(Some(e)),
        }
    }

    /// Reads the next record and returns it if it is a `Stdin`. Fails with an error
    /// where reading fails, and with nothing where the record is of another kind.
    pub fn expect_stdin(&mut self) -> (r: Result<Stdin, Option<Error>>)
        ensures
            final(self)@.output == old(self)@.output,
            final(self)@.input == parse_record(old(self)@.input).1,
            match parse_record(old(self)@.input).0 {
                Ok(RecordView::Stdin(v)) => r matches Ok(x) && x@ == v,
                Ok(_) => r matches Err(None),
                Err(e) => r matches Err(Some(f)) && f == e,
            },
    {
        match self.read_record() {
            Ok(Record::Stdin(record)) => Ok(record),
            Ok(_) => Err(None),
            Err(e) => Err(Some(e)),
        }
    }

    /// Reads the next record and returns it if it is a `Stdout`. Fails with an error
    /// where reading fails, and with nothing where the record is of another kind.
    pub fn expect_stdout(&mut self) -> (r: Result<Stdout, Option<Error>>)
        ensures
            final(self)@.output == old(self)@.output,
            final(self)@.input == parse_record(old(self)@.input).1,
            match parse_record(old(self)@.input).0 {
                Ok(RecordView::Stdout(v)) => r matches Ok(x) && x@ == v,
                Ok(_) => r matches Err(None),
                Err(e) => r matches Err(Some(f)) && f == e,
            },
    {
        match self.read_record() {
            Ok(Record::Stdout(record)) => Ok(record),
            Ok(_) => Err(None),
            Err(e) => Err(Some(e)),
        }
    }

    /// Reads the next record and returns it if it is a `Stderr`. Fails with an error
    /// where reading fails, and with nothing where the record is of another kind.
    pub fn expect_stderr(&mut self) -> (r: Result<Stderr, Option<Error>>)
        ensures
            final(self)@.output == old(self)@.output,
            final(self)@.input == parse_record(old(self)@.input).1,
            match parse_record(old(self)@.input).0 {
                Ok(RecordView::Stderr(v)) => r matches Ok(x) && x@ == v,
                Ok(_) => r matches Err(None),
                Err(e) => r matches Err(Some(f)) && f == e,
            },
    {
        match self.read_record() {
            Ok(Record::Stderr(record)) => Ok(record),
            Ok(_) => Err(None),
            Err(e) => Err(Some(e)),
        }
    }

    /// Reads the next record and returns it if it is a `Data`. Fails with an error
    /// where reading fails, and with nothing where the record is of another kind.
    pub fn expect_data(&mut self) -> (r: Result<Data, Option<Error>>)
        ensures
            final(self)@.output == old(self)@.output,
            final(self)@.input == parse_record(old(self)@.input).1,
            match parse_record(old(self)@.input).0 {
                Ok(RecordView::Data(v)) => r matches Ok(x) && x@ == v,
                Ok(_) => r matches Err(None),
                Err(e) => r matches Err(Some(f)) && f == e,
            },
    {
        match self.read_record() {
            Ok(Record::Data(record)) => Ok(record),
            Ok(_) => Err(None),
            Err(e) => Err(Some(e)),
        }
    }
}

} // verus!
