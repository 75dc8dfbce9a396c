//! Datagrams of the protocol: each one is built with `new`, written with
//! `as_bytes` and read back with `try_from`.
#![allow(non_camel_case_types)]

use vstd::prelude::*;
use std::collections::HashSet;
use vstd::std_specs::hash::spec_hash_keys_iter;
use vstd::std_specs::iter::IteratorSpec;
use vstd::string::StringSliceAdditionalSpecFns;
use crate::bytes::{copy_range, read_u64_le, extend_bytes, from_le16, from_le32, from_le64, le16, le32, le64,
    lemma_le16_roundtrip, lemma_le32_roundtrip, lemma_le64_roundtrip, push_u16_le, push_u32_le,
    push_u64_le};
use crate::messages::common::{get_bytes_from_slice, get_u16_at_pos, get_u32_at_pos, get_u64_at_pos};
use crate::messages::enums::{lemma_object_flags_code_roundtrip, object_flags_from_byte, object_flags_to_byte, ObjectFlags, lemma_connect_status_code_roundtrip, lemma_topics_action_code_roundtrip, lemma_topics_response_code_roundtrip, lemma_message_type_code_roundtrip, lemma_end_connexion_reason_code_roundtrip, lemma_stream_type_code_roundtrip, connect_status_from_byte, connect_status_to_byte,
    end_connexion_reason_from_byte, end_connexion_reason_to_byte, message_type_from_byte,
    message_type_to_byte, stream_type_from_byte, stream_type_to_byte, topics_action_from_byte,
    topics_action_to_byte, topics_response_from_byte, topics_response_to_byte, ConnectStatus,
    EndConnexionReason, MessageType, StreamType, TopicsAction, TopicsResponse};

verus! {

/// `r` is an error carrying the message `msg`.
pub open spec fn fails_with<T>(r: Result<T, &str>, msg: Seq<char>) -> bool {
    r matches Err(e) && e@ == msg
}

/// The `u16` stored little-endian at `pos` in `b`.
pub open spec fn u16_at(b: Seq<u8>, pos: int) -> u16 {
    from_le16(b.subrange(pos, pos + 2))
}

/// The `u32` stored little-endian at `pos` in `b`.
pub open spec fn u32_at(b: Seq<u8>, pos: int) -> u32 {
    from_le32(b.subrange(pos, pos + 4))
}

/// The `u64` stored little-endian at `pos` in `b`.
pub open spec fn u64_at(b: Seq<u8>, pos: int) -> u64 {
    from_le64(b.subrange(pos, pos + 8))
}

/// A `u16` encoded after `pre` is read back at offset `pre.len()`.
pub proof fn lemma_u16_in(pre: Seq<u8>, v: u16, post: Seq<u8>)
    ensures
        u16_at(pre + le16(v) + post, pre.len() as int) == v,
{
    lemma_le16_roundtrip(v);
    assert((pre + le16(v) + post).subrange(pre.len() as int, pre.len() + 2int) =~= le16(v));
}

/// A `u32` encoded after `pre` is read back at offset `pre.len()`.
pub proof fn lemma_u32_in(pre: Seq<u8>, v: u32, post: Seq<u8>)
    ensures
        u32_at(pre + le32(v) + post, pre.len() as int) == v,
{
    lemma_le32_roundtrip(v);
    assert((pre + le32(v) + post).subrange(pre.len() as int, pre.len() + 4int) =~= le32(v));
}

/// A `u64` encoded after `pre` is read back at offset `pre.len()`.
pub proof fn lemma_u64_in(pre: Seq<u8>, v: u64, post: Seq<u8>)
    ensures
        u64_at(pre + le64(v) + post, pre.len() as int) == v,
{
    lemma_le64_roundtrip(v);
    assert((pre + le64(v) + post).subrange(pre.len() as int, pre.len() + 8int) =~= le64(v));
}

//===== Sent by a peer to connect to the broker
pub struct RQ_Connect {
    pub message_type: MessageType,
}

impl RQ_Connect {
    /// Bytes written by `as_bytes`.
    pub open spec fn wire(&self) -> Seq<u8> {
        seq![message_type_to_byte(self.message_type)]
    }

    /// Datagram read from a buffer holding at least one byte.
    pub open spec fn decode(b: Seq<u8>) -> RQ_Connect {
        RQ_Connect { message_type: message_type_from_byte(b[0]) }
    }

    /// Builds a CONNECT datagram.
    pub fn new() -> (r: RQ_Connect)
        ensures
            r.message_type == MessageType::CONNECT,
    {
        RQ_Connect { message_type: MessageType::CONNECT }
    }

    /// Encodes the datagram.
    pub fn as_bytes(&self) -> (r: Vec<u8>)
        ensures
            r@ == self.wire(),
    {
        let mut bytes: Vec<u8> = Vec::new();
        bytes.push(u8::from(self.message_type));
        assert(bytes@ =~= self.wire());
        bytes
    }

    /// Decodes a datagram; fails on an empty buffer.
    pub fn try_from<'a>(buffer: &'a [u8]) -> (r: Result<RQ_Connect, &'a str>)
        ensures
            buffer@.len() < 1 ==> fails_with(r, "Payload len is to short for a RQ_Connect."@),
            buffer@.len() >= 1 ==> r == Ok::<RQ_Connect, &str>(RQ_Connect::decode(buffer@)),
    {
        if buffer.len() < 1 {
            return Err("Payload len is to short for a RQ_Connect.");
        }
        Ok(RQ_Connect { message_type: MessageType::from(buffer[0]) })
    }
}

//===== Sent to acknowledge the connexion
pub struct RQ_Connect_ACK_OK {
    pub message_type: MessageType,
    pub status: ConnectStatus,
    pub peer_id: u64,
    pub heartbeat_period: u16,
}

impl RQ_Connect_ACK_OK {
    /// Bytes written by `as_bytes`.
    pub open spec fn wire(&self) -> Seq<u8> {
        seq![message_type_to_byte(self.message_type), connect_status_to_byte(self.status)] + le64(
            self.peer_id,
        ) + le16(self.heartbeat_period)
    }

    /// Datagram read from a buffer of at least twelve bytes.
    pub open spec fn decode(b: Seq<u8>) -> RQ_Connect_ACK_OK {
        RQ_Connect_ACK_OK {
            message_type: message_type_from_byte(b[0]),
            status: connect_status_from_byte(b[1]),
            peer_id: u64_at(b, 2),
            heartbeat_period: u16_at(b, 10),
        }
    }

    /// Builds a successful CONNECT_ACK giving the peer its identifier.
    pub fn new(peer_id: u64, heartbeat_period: u16) -> (r: RQ_Connect_ACK_OK)
        ensures
            r == (RQ_Connect_ACK_OK {
                message_type: MessageType::CONNECT_ACK,
                status: ConnectStatus::SUCCESS,
                peer_id,
                heartbeat_period,
            }),
    {
        RQ_Connect_ACK_OK {
            message_type: MessageType::CONNECT_ACK,
            status: ConnectStatus::SUCCESS,
            peer_id,
            heartbeat_period,
        }
    }

    /// Encodes the datagram on twelve bytes.
    pub fn as_bytes(&self) -> (r: Vec<u8>)
        ensures
            r@ == self.wire(),
    {
        let mut bytes: Vec<u8> = Vec::with_capacity(12);
        bytes.push(u8::from(self.message_type));
        bytes.push(u8::from(self.status));
        push_u64_le(&mut bytes, self.peer_id);
        push_u16_le(&mut bytes, self.heartbeat_period);
        assert(bytes@ =~= self.wire());
        bytes
    }

    /// Decodes a datagram of at least twelve bytes.
    pub fn try_from<'a>(buffer: &'a [u8]) -> (r: Result<RQ_Connect_ACK_OK, &'a str>)
        ensures
            buffer@.len() < 12 ==> fails_with(
                r,
                "Payload len is to short for a RQ_Connect_Ack_OK."@,
            ),
            buffer@.len() >= 12 ==> r == Ok::<RQ_Connect_ACK_OK, &str>(
                RQ_Connect_ACK_OK::decode(buffer@),
            ),
    {
        if buffer.len() < 12 {
            return Err("Payload len is to short for a RQ_Connect_Ack_OK.");
        }
        let peer_id = get_u64_at_pos(buffer, 2)?;
        let heartbeat_period = get_u16_at_pos(buffer, 10)?;
        Ok(
            RQ_Connect_ACK_OK {
                message_type: MessageType::from(buffer[0]),
                status: ConnectStatus::from(buffer[1]),
                peer_id,
                heartbeat_period,
            },
        )
    }
}

//===== Sent to refuse the connexion
pub struct RQ_Connect_ACK_ERROR {
    pub message_type: MessageType,
    pub status: ConnectStatus,
    pub message_size: u16,
    pub reason: Vec<u8>,
}

impl RQ_Connect_ACK_ERROR {
    /// Bytes written by `as_bytes`: the size comes before the status.
    pub open spec fn wire(&self) -> Seq<u8> {
        seq![message_type_to_byte(self.message_type)] + le16(self.message_size) + seq![
            connect_status_to_byte(self.status),
        ] + self.reason@
    }

    /// A buffer that `try_from` reads without going past its end: the
    /// declared size is read at offset 1 and the reason runs from offset
    /// 4 to offset `4 + size`, both included.
    pub open spec fn readable(b: Seq<u8>) -> bool {
        b.len() >= 4 ==> 4 + u16_at(b, 1) <= 0xffff && 4 + u16_at(b, 1) < b.len()
    }

    /// Builds a refusing CONNECT_ACK whose reason is the text `message`.
    pub fn new(message: &str) -> (r: RQ_Connect_ACK_ERROR)
        ensures
            r.message_type == MessageType::CONNECT_ACK,
            r.status == ConnectStatus::FAILURE,
            r.reason@ == message.spec_bytes(),
            r.message_size == message.spec_bytes().len() as u16,
    {
        let reason = copy_range(message.as_bytes(), 0, message.as_bytes().len());
        let message_size = reason.len() as u16;
        RQ_Connect_ACK_ERROR {
            message_type: MessageType::CONNECT_ACK,
            status: ConnectStatus::FAILURE,
            message_size,
            reason,
        }
    }

    /// Encodes the datagram.
    pub fn as_bytes(&self) -> (r: Vec<u8>)
        ensures
            r@ == self.wire(),
    {
        let mut bytes: Vec<u8> = Vec::new();
        bytes.push(u8::from(self.message_type));
        push_u16_le(&mut bytes, self.message_size);
        bytes.push(u8::from(self.status));
        extend_bytes(&mut bytes, self.reason.as_slice());
        assert(bytes@ =~= self.wire());
        bytes
    }

    /// Decodes a datagram; the status is read from the second byte and
    /// the reason holds `size + 1` bytes.
    pub fn try_from<'a>(buffer: &'a [u8]) -> (r: Result<RQ_Connect_ACK_ERROR, &'a str>)
        requires
            RQ_Connect_ACK_ERROR::readable(buffer@),
        ensures
            buffer@.len() < 4 ==> fails_with(
                r,
                "Payload len is to short for a RQ_Connect_Ack_Error."@,
            ),
            buffer@.len() >= 4 ==> (r matches Ok(d) && d.message_type == message_type_from_byte(
                buffer@[0],
            ) && d.status == connect_status_from_byte(buffer@[1]) && d.message_size == u16_at(
                buffer@,
                1,
            ) && d.reason@ == buffer@.subrange(4, 4 + u16_at(buffer@, 1) + 1)),
    {
        if buffer.len() < 4 {
            return Err("Payload len is to short for a RQ_Connect_Ack_Error.");
        }
        let size = get_u16_at_pos(buffer, 1)?;
        Ok(
            RQ_Connect_ACK_ERROR {
                message_type: MessageType::from(buffer[0]),
                status: ConnectStatus::from(buffer[1]),
                message_size: size,
                reason: get_bytes_from_slice(buffer, 4, (4 + size) as usize),
            },
        )
    }
}

//===== Sent to publish data on a topic
pub struct RQ_Data {
    pub message_type: MessageType,
    pub size: u16,
    pub sequence_number: u32,
    pub topic_id: u64,
    pub data: Vec<u8>,
}

impl RQ_Data {
    /// Bytes written by `as_bytes`.
    pub open spec fn wire(&self) -> Seq<u8> {
        seq![message_type_to_byte(self.message_type)] + le16(self.size) + le32(
            self.sequence_number,
        ) + le64(self.topic_id) + self.data@
    }

    /// A buffer that `try_from` reads without going past its end.
    pub open spec fn readable(b: Seq<u8>) -> bool {
        b.len() >= 15 ==> 15 + u16_at(b, 1) <= b.len()
    }

    /// Builds a DATA datagram; the size is the payload length on 16 bits.
    pub fn new(sequence_number: u32, topic_id: u64, payload: Vec<u8>) -> (r: RQ_Data)
        ensures
            r.message_type == MessageType::DATA,
            r.size == payload@.len() as u16,
            r.sequence_number == sequence_number,
            r.topic_id == topic_id,
            r.data@ == payload@,
    {
        let size = payload.len() as u16;
        RQ_Data { message_type: MessageType::DATA, size, sequence_number, topic_id, data: payload }
    }

    /// Encodes the datagram.
    pub fn as_bytes(&self) -> (r: Vec<u8>)
        ensures
            r@ == self.wire(),
    {
        let mut bytes: Vec<u8> = Vec::new();
        bytes.push(u8::from(self.message_type));
        push_u16_le(&mut bytes, self.size);
        push_u32_le(&mut bytes, self.sequence_number);
        push_u64_le(&mut bytes, self.topic_id);
        extend_bytes(&mut bytes, self.data.as_slice());
        assert(bytes@ =~= self.wire());
        bytes
    }

    /// Decodes a datagram of at least fifteen bytes whose payload holds
    /// the declared number of bytes.
    pub fn try_from<'a>(buffer: &'a [u8]) -> (r: Result<RQ_Data, &'a str>)
        requires
            RQ_Data::readable(buffer@),
        ensures
            buffer@.len() < 15 ==> fails_with(r, "Payload len is to short for a RQ_Data."@),
            buffer@.len() >= 15 ==> (r matches Ok(d) && d.message_type == MessageType::DATA
                && d.size == u16_at(buffer@, 1) && d.sequence_number == u32_at(buffer@, 3)
                && d.topic_id == u64_at(buffer@, 7) && d.data@ == buffer@.subrange(
                15,
                15 + u16_at(buffer@, 1),
            )),
    {
        if buffer.len() < 15 {
            return Err("Payload len is to short for a RQ_Data.");
        }
        let size = get_u16_at_pos(buffer, 1)?;
        let sequence_number = get_u32_at_pos(buffer, 3)?;
        let topic_id = get_u64_at_pos(buffer, 7)?;
        Ok(
            RQ_Data {
                message_type: MessageType::DATA,
                size,
                sequence_number,
                topic_id,
                data: copy_range(buffer, 15, 15 + size as usize),
            },
        )
    }
}

/// A DATA datagram whose size field counts its payload is read back
/// unchanged from its own encoding.
pub proof fn lemma_data_roundtrip(d: RQ_Data)
    requires
        d.message_type == MessageType::DATA,
        d.size == d.data@.len(),
    ensures
        d.wire().len() == 15 + d.data@.len(),
        RQ_Data::readable(d.wire()),
        u16_at(d.wire(), 1) == d.size,
        u32_at(d.wire(), 3) == d.sequence_number,
        u64_at(d.wire(), 7) == d.topic_id,
        d.wire().subrange(15, 15 + d.size) == d.data@,
{
    let h = seq![message_type_to_byte(d.message_type)];
    lemma_u16_in(h, d.size, le32(d.sequence_number) + le64(d.topic_id) + d.data@);
    lemma_u32_in(h + le16(d.size), d.sequence_number, le64(d.topic_id) + d.data@);
    lemma_u64_in(h + le16(d.size) + le32(d.sequence_number), d.topic_id, d.data@);
    assert(d.wire() =~= h + le16(d.size) + (le32(d.sequence_number) + le64(d.topic_id)
        + d.data@));
    assert(d.wire() =~= h + le16(d.size) + le32(d.sequence_number) + (le64(d.topic_id)
        + d.data@));
    assert(d.wire().subrange(15, 15 + d.size) =~= d.data@);
}

/// The byte itself.
pub open spec fn spec_id(b: u8) -> u8 {
    b
}

/// Reading back what `as_bytes` writes gives the same datagram.
pub proof fn lemma_rq_connect_roundtrip(d: RQ_Connect)
    ensures
        d.wire().len() == 1,
        RQ_Connect::decode(d.wire()) == d,
{
    lemma_message_type_code_roundtrip(d.message_type);
}

//===== RQ_Heartbeat
pub struct RQ_Heartbeat {
    pub message_type: MessageType,
}

impl RQ_Heartbeat {
    /// Bytes written by `as_bytes`.
    pub open spec fn wire(&self) -> Seq<u8> {
        seq![message_type_to_byte(self.message_type)]
    }

    /// Datagram read from a buffer holding at least one byte.
    pub open spec fn decode(b: Seq<u8>) -> RQ_Heartbeat {
        RQ_Heartbeat { message_type: message_type_from_byte(b[0]) }
    }

    /// Builds the datagram.
    pub fn new() -> (r: RQ_Heartbeat)
        ensures
            r.message_type == MessageType::HEARTBEAT,
    {
        RQ_Heartbeat { message_type: MessageType::HEARTBEAT }
    }

    /// Encodes the datagram on one byte.
    pub fn as_bytes(&self) -> (r: Vec<u8>)
        ensures
            r@ == self.wire(),
    {
        let mut bytes: Vec<u8> = Vec::new();
        bytes.push(u8::from(self.message_type));
        assert(bytes@ =~= self.wire());
        bytes
    }

    /// Decodes a datagram; fails on an empty buffer.
    pub fn try_from<'a>(buffer: &'a [u8]) -> (r: Result<RQ_Heartbeat, &'a str>)
        ensures
            buffer@.len() < 1 ==> fails_with(r, "Payload len is to short for a RQ_Heartbeat."@),
            buffer@.len() >= 1 ==> r == Ok::<RQ_Heartbeat, &str>(RQ_Heartbeat::decode(buffer@)),
    {
        if buffer.len() < 1 {
            return Err("Payload len is to short for a RQ_Heartbeat.");
        }
        Ok(RQ_Heartbeat { message_type: MessageType::from(buffer[0]) })
    }
}

/// Reading back what `as_bytes` writes gives the same datagram.
pub proof fn lemma_rq_heartbeat_roundtrip(d: RQ_Heartbeat)
    ensures
        d.wire().len() == 1,
        RQ_Heartbeat::decode(d.wire()) == d,
{
    lemma_message_type_code_roundtrip(d.message_type);
}

//===== RQ_Heartbeat_Request
pub struct RQ_Heartbeat_Request {
    pub message_type: MessageType,
}

impl RQ_Heartbeat_Request {
    /// Bytes written by `as_bytes`.
    pub open spec fn wire(&self) -> Seq<u8> {
        seq![message_type_to_byte(self.message_type)]
    }

    /// Datagram read from a buffer holding at least one byte.
    pub open spec fn decode(b: Seq<u8>) -> RQ_Heartbeat_Request {
        RQ_Heartbeat_Request { message_type: message_type_from_byte(b[0]) }
    }

    /// Builds the datagram.
    pub fn new() -> (r: RQ_Heartbeat_Request)
        ensures
            r.message_type == MessageType::HEARTBEAT_REQUEST,
    {
        RQ_Heartbeat_Request { message_type: MessageType::HEARTBEAT_REQUEST }
    }

    /// Encodes the datagram on one byte.
    pub fn as_bytes(&self) -> (r: Vec<u8>)
        ensures
            r@ == self.wire(),
    {
        let mut bytes: Vec<u8> = Vec::new();
        bytes.push(u8::from(self.message_type));
        assert(bytes@ =~= self.wire());
        bytes
    }

    /// Decodes a datagram; fails on an empty buffer.
    pub fn try_from<'a>(buffer: &'a [u8]) -> (r: Result<RQ_Heartbeat_Request, &'a str>)
        ensures
            buffer@.len() < 1 ==> fails_with(r, "Payload len is to short for a RQ_Heartbeat_Request."@),
            buffer@.len() >= 1 ==> r == Ok::<RQ_Heartbeat_Request, &str>(RQ_Heartbeat_Request::decode(buffer@)),
    {
        if buffer.len() < 1 {
            return Err("Payload len is to short for a RQ_Heartbeat_Request.");
        }
        Ok(RQ_Heartbeat_Request { message_type: MessageType::from(buffer[0]) })
    }
}

/// Reading back what `as_bytes` writes gives the same datagram.
pub proof fn lemma_rq_heartbeat_request_roundtrip(d: RQ_Heartbeat_Request)
    ensures
        d.wire().len() == 1,
        RQ_Heartbeat_Request::decode(d.wire()) == d,
{
    lemma_message_type_code_roundtrip(d.message_type);
}

//===== RQ_Ping
pub struct RQ_Ping {
    pub message_type: MessageType,
    pub ping_id: u8,
}

impl RQ_Ping {
    /// Bytes written by `as_bytes`.
    pub open spec fn wire(&self) -> Seq<u8> {
        seq![message_type_to_byte(self.message_type), spec_id(self.ping_id)]
    }

    /// Datagram read from a buffer of at least two bytes.
    pub open spec fn decode(b: Seq<u8>) -> RQ_Ping {
        RQ_Ping { message_type: message_type_from_byte(b[0]), ping_id: spec_id(b[1]) }
    }

    /// Builds a PING carrying the reference `ping_id`.
    pub fn new(ping_id: u8) -> (r: RQ_Ping)
        ensures
            r.message_type == MessageType::PING,
            r.ping_id == ping_id,
    {
        RQ_Ping { message_type: MessageType::PING, ping_id }
    }

    /// Encodes the datagram on two bytes.
    pub fn as_bytes(&self) -> (r: Vec<u8>)
        ensures
            r@ == self.wire(),
    {
        let mut bytes: Vec<u8> = Vec::with_capacity(2);
        bytes.push(u8::from(self.message_type));
        bytes.push(self.ping_id);
        assert(bytes@ =~= self.wire());
        bytes
    }

    /// Decodes a datagram; fails on a buffer shorter than two bytes.
    pub fn try_from<'a>(buffer: &'a [u8]) -> (r: Result<RQ_Ping, &'a str>)
        ensures
            buffer@.len() < 2 ==> fails_with(r, "Payload len is to short for a RQ_Ping."@),
            buffer@.len() >= 2 ==> r == Ok::<RQ_Ping, &str>(RQ_Ping::decode(buffer@)),
    {
        if buffer.len() < 2 {
            return Err("Payload len is to short for a RQ_Ping.");
        }
        Ok(RQ_Ping { message_type: MessageType::from(buffer[0]), ping_id: buffer[1] })
    }
}

/// Reading back what `as_bytes` writes gives the same datagram.
pub proof fn lemma_rq_ping_roundtrip(d: RQ_Ping)
    ensures
        d.wire().len() == 2,
        RQ_Ping::decode(d.wire()) == d,
{
    lemma_message_type_code_roundtrip(d.message_type);
}

//===== RQ_Pong
pub struct RQ_Pong {
    pub message_type: MessageType,
    pub ping_id: u8,
}

impl RQ_Pong {
    /// Bytes written by `as_bytes`.
    pub open spec fn wire(&self) -> Seq<u8> {
        seq![message_type_to_byte(self.message_type), spec_id(self.ping_id)]
    }

    /// Datagram read from a buffer of at least two bytes.
    pub open spec fn decode(b: Seq<u8>) -> RQ_Pong {
        RQ_Pong { message_type: message_type_from_byte(b[0]), ping_id: spec_id(b[1]) }
    }

    /// Builds the answer to the PING `ping_id`; the value built is an `RQ_Ping` whose kind is PONG.
    pub fn new(ping_id: u8) -> (r: RQ_Ping)
        ensures
            r.message_type == MessageType::PONG,
            r.ping_id == ping_id,
    {
        RQ_Ping { message_type: MessageType::PONG, ping_id }
    }

    /// Encodes the datagram on two bytes.
    pub fn as_bytes(&self) -> (r: Vec<u8>)
        ensures
            r@ == self.wire(),
    {
        let mut bytes: Vec<u8> = Vec::with_capacity(2);
        bytes.push(u8::from(self.message_type));
        bytes.push(self.ping_id);
        assert(bytes@ =~= self.wire());
        bytes
    }

    /// Decodes a datagram; fails on a buffer shorter than two bytes.
    pub fn try_from<'a>(buffer: &'a [u8]) -> (r: Result<RQ_Pong, &'a str>)
        ensures
            buffer@.len() < 2 ==> fails_with(r, "Payload len is to short for a RQ_Pong."@),
            buffer@.len() >= 2 ==> r == Ok::<RQ_Pong, &str>(RQ_Pong::decode(buffer@)),
    {
        if buffer.len() < 2 {
            return Err("Payload len is to short for a RQ_Pong.");
        }
        Ok(RQ_Pong { message_type: MessageType::from(buffer[0]), ping_id: buffer[1] })
    }
}

/// Reading back what `as_bytes` writes gives the same datagram.
pub proof fn lemma_rq_pong_roundtrip(d: RQ_Pong)
    ensures
        d.wire().len() == 2,
        RQ_Pong::decode(d.wire()) == d,
{
    lemma_message_type_code_roundtrip(d.message_type);
}

//===== RQ_Shutdown
pub struct RQ_Shutdown {
    pub message_type: MessageType,
    pub reason: EndConnexionReason,
}

impl RQ_Shutdown {
    /// Bytes written by `as_bytes`.
    pub open spec fn wire(&self) -> Seq<u8> {
        seq![message_type_to_byte(self.message_type), end_connexion_reason_to_byte(self.reason)]
    }

    /// Datagram read from a buffer of at least two bytes.
    pub open spec fn decode(b: Seq<u8>) -> RQ_Shutdown {
        RQ_Shutdown { message_type: message_type_from_byte(b[0]), reason: end_connexion_reason_from_byte(b[1]) }
    }

    /// Builds a SHUTDOWN giving `reason`.
    pub fn new(reason: EndConnexionReason) -> (r: RQ_Shutdown)
        ensures
            r.message_type == MessageType::SHUTDOWN,
            r.reason == reason,
    {
        RQ_Shutdown { message_type: MessageType::SHUTDOWN, reason }
    }

    /// Encodes the datagram on two bytes.
    pub fn as_bytes(&self) -> (r: Vec<u8>)
        ensures
            r@ == self.wire(),
    {
        let mut bytes: Vec<u8> = Vec::with_capacity(2);
        bytes.push(u8::from(self.message_type));
        bytes.push(u8::from(self.reason));
        assert(bytes@ =~= self.wire());
        bytes
    }

    /// Decodes a datagram; fails on a buffer shorter than two bytes.
    pub fn try_from<'a>(buffer: &'a [u8]) -> (r: Result<RQ_Shutdown, &'a str>)
        ensures
            buffer@.len() < 2 ==> fails_with(r, "Payload len is to short for a RQ_Shutdown."@),
            buffer@.len() >= 2 ==> r == Ok::<RQ_Shutdown, &str>(RQ_Shutdown::decode(buffer@)),
    {
        if buffer.len() < 2 {
            return Err("Payload len is to short for a RQ_Shutdown.");
        }
        Ok(RQ_Shutdown { message_type: MessageType::from(buffer[0]), reason: EndConnexionReason::from(buffer[1]) })
    }
}

/// Reading back what `as_bytes` writes gives the same datagram.
pub proof fn lemma_rq_shutdown_roundtrip(d: RQ_Shutdown)
    ensures
        d.wire().len() == 2,
        RQ_Shutdown::decode(d.wire()) == d,
{
    lemma_message_type_code_roundtrip(d.message_type);
    lemma_end_connexion_reason_code_roundtrip(d.reason);
}

//===== RQ_OpenStream
pub struct RQ_OpenStream {
    pub message_type: MessageType,
    pub stream_type: StreamType,
}

impl RQ_OpenStream {
    /// Bytes written by `as_bytes`.
    pub open spec fn wire(&self) -> Seq<u8> {
        seq![message_type_to_byte(self.message_type), stream_type_to_byte(self.stream_type)]
    }

    /// Datagram read from a buffer of at least two bytes.
    pub open spec fn decode(b: Seq<u8>) -> RQ_OpenStream {
        RQ_OpenStream { message_type: message_type_from_byte(b[0]), stream_type: stream_type_from_byte(b[1]) }
    }

    /// Builds an OPEN_STREAM for `stream_type`.
    pub fn new(stream_type: StreamType) -> (r: RQ_OpenStream)
        ensures
            r.message_type == MessageType::OPEN_STREAM,
            r.stream_type == stream_type,
    {
        RQ_OpenStream { message_type: MessageType::OPEN_STREAM, stream_type }
    }

    /// Encodes the datagram on two bytes.
    pub fn as_bytes(&self) -> (r: Vec<u8>)
        ensures
            r@ == self.wire(),
    {
        let mut bytes: Vec<u8> = Vec::with_capacity(2);
        bytes.push(u8::from(self.message_type));
        bytes.push(u8::from(self.stream_type));
        assert(bytes@ =~= self.wire());
        bytes
    }

    /// Decodes a datagram; fails on a buffer shorter than two bytes.
    pub fn try_from<'a>(buffer: &'a [u8]) -> (r: Result<RQ_OpenStream, &'a str>)
        ensures
            buffer@.len() < 2 ==> fails_with(r, "Payload len is to short for a RQ_OpenStream."@),
            buffer@.len() >= 2 ==> r == Ok::<RQ_OpenStream, &str>(RQ_OpenStream::decode(buffer@)),
    {
        if buffer.len() < 2 {
            return Err("Payload len is to short for a RQ_OpenStream.");
        }
        Ok(RQ_OpenStream { message_type: MessageType::from(buffer[0]), stream_type: StreamType::from(buffer[1]) })
    }
}

/// Reading back what `as_bytes` writes gives the same datagram.
pub proof fn lemma_rq_openstream_roundtrip(d: RQ_OpenStream)
    ensures
        d.wire().len() == 2,
        RQ_OpenStream::decode(d.wire()) == d,
{
    lemma_message_type_code_roundtrip(d.message_type);
    lemma_stream_type_code_roundtrip(d.stream_type);
}

/// Reading back what `as_bytes` writes gives the same CONNECT_ACK.
pub proof fn lemma_rq_connect_ack_ok_roundtrip(d: RQ_Connect_ACK_OK)
    ensures
        d.wire().len() == 12,
        RQ_Connect_ACK_OK::decode(d.wire()) == d,
{
    let h = seq![message_type_to_byte(d.message_type), connect_status_to_byte(d.status)];
    lemma_message_type_code_roundtrip(d.message_type);
    lemma_connect_status_code_roundtrip(d.status);
    lemma_u64_in(h, d.peer_id, le16(d.heartbeat_period));
    lemma_u16_in(h + le64(d.peer_id), d.heartbeat_period, Seq::empty());
    assert(d.wire() =~= h + le64(d.peer_id) + le16(d.heartbeat_period) + Seq::<u8>::empty());
}

//===== Sent to ask for the broker's status
pub struct RQ_ServerStatus {
    pub message_type: MessageType,
}

impl RQ_ServerStatus {
    /// Bytes written by `as_bytes`.
    pub open spec fn wire(&self) -> Seq<u8> {
        seq![message_type_to_byte(self.message_type)]
    }

    /// Builds a SERVER_STATUS datagram.
    pub fn new() -> (r: RQ_ServerStatus)
        ensures
            r.message_type == MessageType::SERVER_STATUS,
    {
        RQ_ServerStatus { message_type: MessageType::SERVER_STATUS }
    }

    /// Encodes the datagram on one byte.
    pub fn as_bytes(&self) -> (r: Vec<u8>)
        ensures
            r@ == self.wire(),
    {
        let mut bytes: Vec<u8> = Vec::new();
        bytes.push(u8::from(self.message_type));
        assert(bytes@ =~= self.wire());
        bytes
    }

    /// Decodes a datagram from its first byte.
    pub fn from(buffer: &[u8]) -> (r: RQ_ServerStatus)
        requires
            buffer@.len() >= 1,
        ensures
            r.message_type == message_type_from_byte(buffer@[0]),
    {
        RQ_ServerStatus { message_type: MessageType::from(buffer[0]) }
    }
}

//===== Sent to answer a SERVER_STATUS
pub struct RQ_ServerStatus_ACK {
    pub message_type: MessageType,
    pub status: bool,
    pub connected_client: u64,
}

/// Byte that stands for a boolean.
pub open spec fn bool_byte(b: bool) -> u8 {
    if b {
        1
    } else {
        0
    }
}

impl RQ_ServerStatus_ACK {
    /// Bytes written by `as_bytes`.
    pub open spec fn wire(&self) -> Seq<u8> {
        seq![message_type_to_byte(self.message_type), bool_byte(self.status)] + le64(
            self.connected_client,
        )
    }

    /// Datagram read from a buffer of at least ten bytes.
    pub open spec fn decode(b: Seq<u8>) -> RQ_ServerStatus_ACK {
        RQ_ServerStatus_ACK {
            message_type: message_type_from_byte(b[0]),
            status: b[1] != 0,
            connected_client: u64_at(b, 2),
        }
    }

    /// Builds the answer giving the running status and the number of
    /// connected clients.
    pub fn new(status: bool, nb_client: u64) -> (r: RQ_ServerStatus_ACK)
        ensures
            r == (RQ_ServerStatus_ACK {
                message_type: MessageType::SERVER_STATUS_ACK,
                status,
                connected_client: nb_client,
            }),
    {
        RQ_ServerStatus_ACK {
            message_type: MessageType::SERVER_STATUS_ACK,
            status,
            connected_client: nb_client,
        }
    }

    /// Encodes the datagram on ten bytes.
    pub fn as_bytes(&self) -> (r: Vec<u8>)
        ensures
            r@ == self.wire(),
    {
        let mut bytes: Vec<u8> = Vec::with_capacity(10);
        bytes.push(u8::from(self.message_type));
        bytes.push(
            if self.status {
                1
            } else {
                0
            },
        );
        push_u64_le(&mut bytes, self.connected_client);
        assert(bytes@ =~= self.wire());
        bytes
    }

    /// Decodes a datagram of at least ten bytes.
    pub fn try_from<'a>(buffer: &'a [u8]) -> (r: Result<RQ_ServerStatus_ACK, &'a str>)
        ensures
            buffer@.len() < 10 ==> fails_with(
                r,
                "Payload len is to short for a RQ_ServerStatus_Ack."@,
            ),
            buffer@.len() >= 10 ==> r == Ok::<RQ_ServerStatus_ACK, &str>(
                RQ_ServerStatus_ACK::decode(buffer@),
            ),
    {
        if buffer.len() < 10 {
            return Err("Payload len is to short for a RQ_ServerStatus_Ack.");
        }
        let connected_client = get_u64_at_pos(buffer, 2)?;
        Ok(
            RQ_ServerStatus_ACK {
                message_type: MessageType::from(buffer[0]),
                status: buffer[1] != 0,
                connected_client,
            },
        )
    }
}

/// Reading back what `as_bytes` writes gives the same answer.
pub proof fn lemma_rq_serverstatus_ack_roundtrip(d: RQ_ServerStatus_ACK)
    ensures
        d.wire().len() == 10,
        RQ_ServerStatus_ACK::decode(d.wire()) == d,
{
    let h = seq![message_type_to_byte(d.message_type), bool_byte(d.status)];
    lemma_message_type_code_roundtrip(d.message_type);
    lemma_u64_in(h, d.connected_client, Seq::empty());
    assert(d.wire() =~= h + le64(d.connected_client) + Seq::<u8>::empty());
}

//===== Sent to subscribe to or unsubscribe from a topic
pub struct RQ_TopicRequest {
    pub message_type: MessageType,
    pub action: TopicsAction,
    pub topic_id: u64,
}

impl RQ_TopicRequest {
    /// Bytes written by `as_bytes`.
    pub open spec fn wire(&self) -> Seq<u8> {
        seq![message_type_to_byte(self.message_type), topics_action_to_byte(self.action)] + le64(
            self.topic_id,
        )
    }

    /// Datagram read from a buffer of at least ten bytes.
    pub open spec fn decode(b: Seq<u8>) -> RQ_TopicRequest {
        RQ_TopicRequest {
            message_type: message_type_from_byte(b[0]),
            action: topics_action_from_byte(b[1]),
            topic_id: u64_at(b, 2),
        }
    }

    /// Builds a TOPIC_REQUEST for `topic_id`.
    pub fn new(action: TopicsAction, topic_id: u64) -> (r: RQ_TopicRequest)
        ensures
            r == (RQ_TopicRequest { message_type: MessageType::TOPIC_REQUEST, action, topic_id }),
    {
        RQ_TopicRequest { message_type: MessageType::TOPIC_REQUEST, action, topic_id }
    }

    /// Encodes the datagram on ten bytes.
    pub fn as_bytes(&self) -> (r: Vec<u8>)
        ensures
            r@ == self.wire(),
    {
        let mut bytes: Vec<u8> = Vec::with_capacity(10);
        bytes.push(u8::from(self.message_type));
        bytes.push(u8::from(self.action));
        push_u64_le(&mut bytes, self.topic_id);
        assert(bytes@ =~= self.wire());
        bytes
    }

    /// Decodes a datagram of at least ten bytes.
    pub fn try_from<'a>(buffer: &'a [u8]) -> (r: Result<RQ_TopicRequest, &'a str>)
        ensures
            buffer@.len() < 10 ==> fails_with(r, "Payload len is to short for a RQ_TopicRequest."@),
            buffer@.len() >= 10 ==> r == Ok::<RQ_TopicRequest, &str>(
                RQ_TopicRequest::decode(buffer@),
            ),
    {
        if buffer.len() < 10 {
            return Err("Payload len is to short for a RQ_TopicRequest.");
        }
        let topic_id = get_u64_at_pos(buffer, 2)?;
        Ok(
            RQ_TopicRequest {
                message_type: MessageType::from(buffer[0]),
                action: TopicsAction::from(buffer[1]),
                topic_id,
            },
        )
    }
}

/// Reading back what `as_bytes` writes gives the same request.
pub proof fn lemma_rq_topicrequest_roundtrip(d: RQ_TopicRequest)
    ensures
        d.wire().len() == 10,
        RQ_TopicRequest::decode(d.wire()) == d,
{
    let h = seq![message_type_to_byte(d.message_type), topics_action_to_byte(d.action)];
    lemma_message_type_code_roundtrip(d.message_type);
    lemma_topics_action_code_roundtrip(d.action);
    lemma_u64_in(h, d.topic_id, Seq::empty());
    assert(d.wire() =~= h + le64(d.topic_id) + Seq::<u8>::empty());
}

//===== Sent to acknowledge a TOPIC_REQUEST
pub struct RQ_TopicRequest_ACK {
    pub message_type: MessageType,
    pub status: TopicsResponse,
    pub topic_id: u64,
}

impl RQ_TopicRequest_ACK {
    /// Bytes written by `as_bytes`.
    pub open spec fn wire(&self) -> Seq<u8> {
        seq![message_type_to_byte(self.message_type), topics_response_to_byte(self.status)] + le64(
            self.topic_id,
        )
    }

    /// Datagram read from a buffer of at least ten bytes.
    pub open spec fn decode(b: Seq<u8>) -> RQ_TopicRequest_ACK {
        RQ_TopicRequest_ACK {
            message_type: message_type_from_byte(b[0]),
            status: topics_response_from_byte(b[1]),
            topic_id: u64_at(b, 2),
        }
    }

    /// Builds the acknowledgement of a request on `topic_id`.
    pub fn new(topic_id: u64, status: TopicsResponse) -> (r: RQ_TopicRequest_ACK)
        ensures
            r == (RQ_TopicRequest_ACK {
                message_type: MessageType::TOPIC_REQUEST_ACK,
                status,
                topic_id,
            }),
    {
        RQ_TopicRequest_ACK { message_type: MessageType::TOPIC_REQUEST_ACK, status, topic_id }
    }

    /// Encodes the datagram on ten bytes.
    pub fn as_bytes(&self) -> (r: Vec<u8>)
        ensures
            r@ == self.wire(),
    {
        let mut bytes: Vec<u8> = Vec::with_capacity(10);
        bytes.push(u8::from(self.message_type));
        bytes.push(u8::from(self.status));
        push_u64_le(&mut bytes, self.topic_id);
        assert(bytes@ =~= self.wire());
        bytes
    }

    /// Decodes a datagram of at least ten bytes.
    pub fn try_from<'a>(buffer: &'a [u8]) -> (r: Result<RQ_TopicRequest_ACK, &'a str>)
        ensures
            buffer@.len() < 10 ==> fails_with(
                r,
                "Payload len is to short for a RQ_TopicRequest_Ack."@,
            ),
            buffer@.len() >= 10 ==> r == Ok::<RQ_TopicRequest_ACK, &str>(
                RQ_TopicRequest_ACK::decode(buffer@),
            ),
    {
        if buffer.len() < 10 {
            return Err("Payload len is to short for a RQ_TopicRequest_Ack.");
        }
        let topic_id = get_u64_at_pos(buffer, 2)?;
        Ok(
            RQ_TopicRequest_ACK {
                message_type: MessageType::from(buffer[0]),
                status: TopicsResponse::from(buffer[1]),
                topic_id,
            },
        )
    }
}

/// Reading back what `as_bytes` writes gives the same acknowledgement.
pub proof fn lemma_rq_topicrequest_ack_roundtrip(d: RQ_TopicRequest_ACK)
    ensures
        d.wire().len() == 10,
        RQ_TopicRequest_ACK::decode(d.wire()) == d,
{
    let h = seq![message_type_to_byte(d.message_type), topics_response_to_byte(d.status)];
    lemma_message_type_code_roundtrip(d.message_type);
    lemma_topics_response_code_roundtrip(d.status);
    lemma_u64_in(h, d.topic_id, Seq::empty());
    assert(d.wire() =~= h + le64(d.topic_id) + Seq::<u8>::empty());
}

//===== Sent to refuse a TOPIC_REQUEST
pub struct RQ_TopicRequest_NACK {
    pub message_type: MessageType,
    pub status: TopicsResponse,
    pub size: u16,
    pub error_message: Vec<u8>,
}

impl RQ_TopicRequest_NACK {
    /// Bytes written by `as_bytes`: the size is not written.
    pub open spec fn wire(&self) -> Seq<u8> {
        seq![message_type_to_byte(self.message_type), topics_response_to_byte(self.status)]
            + self.error_message@
    }

    /// A buffer that `try_from` reads without going past its end.
    pub open spec fn readable(b: Seq<u8>) -> bool {
        b.len() >= 10 ==> 4 + u16_at(b, 2) <= 0xffff && 4 + u16_at(b, 2) < b.len()
    }

    /// Builds a refusal carrying the text `error_message`; its kind is
    /// TOPIC_REQUEST_ACK.
    pub fn new(status: TopicsResponse, error_message: &str) -> (r: RQ_TopicRequest_NACK)
        ensures
            r.message_type == MessageType::TOPIC_REQUEST_ACK,
            r.status == status,
            r.size == error_message.spec_bytes().len() as u16,
            r.error_message@ == error_message.spec_bytes(),
    {
        let bytes = error_message.as_bytes();
        let size = bytes.len() as u16;
        RQ_TopicRequest_NACK {
            message_type: MessageType::TOPIC_REQUEST_ACK,
            status,
            size,
            error_message: copy_range(bytes, 0, bytes.len()),
        }
    }

    /// Encodes the datagram.
    pub fn as_bytes(&self) -> (r: Vec<u8>)
        ensures
            r@ == self.wire(),
    {
        let mut bytes: Vec<u8> = Vec::new();
        bytes.push(u8::from(self.message_type));
        bytes.push(u8::from(self.status));
        extend_bytes(&mut bytes, self.error_message.as_slice());
        assert(bytes@ =~= self.wire());
        bytes
    }

    /// Decodes a datagram of at least ten bytes: the size is read at
    /// offset 2 and the message holds `size + 1` bytes from offset 4.
    pub fn try_from<'a>(buffer: &'a [u8]) -> (r: Result<RQ_TopicRequest_NACK, &'a str>)
        requires
            RQ_TopicRequest_NACK::readable(buffer@),
        ensures
            buffer@.len() < 10 ==> fails_with(r, "Payload len is to short for a RQ_TopicRequest."@),
            buffer@.len() >= 10 ==> (r matches Ok(d) && d.message_type == message_type_from_byte(
                buffer@[0],
            ) && d.status == topics_response_from_byte(buffer@[1]) && d.size == u16_at(buffer@, 2)
                && d.error_message@ == buffer@.subrange(4, 4 + u16_at(buffer@, 2) + 1)),
    {
        if buffer.len() < 10 {
            return Err("Payload len is to short for a RQ_TopicRequest.");
        }
        let size = get_u16_at_pos(buffer, 2)?;
        Ok(
            RQ_TopicRequest_NACK {
                message_type: MessageType::from(buffer[0]),
                status: TopicsResponse::from(buffer[1]),
                size,
                error_message: get_bytes_from_slice(buffer, 4, (4 + size) as usize),
            },
        )
    }
}

//===== Sent to acknowledge an OBJECT_REQUEST that created an object
pub struct RQ_ObjectRequestCreate_ACK {
    pub message_type: MessageType,
    pub flags: u8,
    pub old_object_id: u64,
    pub final_object_id: u64,
}

impl RQ_ObjectRequestCreate_ACK {
    /// Bytes written by `as_bytes`.
    pub open spec fn wire(&self) -> Seq<u8> {
        seq![message_type_to_byte(self.message_type), self.flags] + le64(self.old_object_id)
            + le64(self.final_object_id)
    }

    /// Datagram read from a buffer of at least eighteen bytes.
    pub open spec fn decode(b: Seq<u8>) -> RQ_ObjectRequestCreate_ACK {
        RQ_ObjectRequestCreate_ACK {
            message_type: message_type_from_byte(b[0]),
            flags: b[1],
            old_object_id: u64_at(b, 2),
            final_object_id: u64_at(b, 10),
        }
    }

    /// Builds the acknowledgement giving the identifier the broker kept.
    pub fn new(flags: u8, old_id: u64, new_id: u64) -> (r: RQ_ObjectRequestCreate_ACK)
        ensures
            r == (RQ_ObjectRequestCreate_ACK {
                message_type: MessageType::OBJECT_REQUEST_ACK,
                flags,
                old_object_id: old_id,
                final_object_id: new_id,
            }),
    {
        RQ_ObjectRequestCreate_ACK {
            message_type: MessageType::OBJECT_REQUEST_ACK,
            flags,
            old_object_id: old_id,
            final_object_id: new_id,
        }
    }

    /// Encodes the datagram on eighteen bytes.
    pub fn as_bytes(&self) -> (r: Vec<u8>)
        ensures
            r@ == self.wire(),
    {
        let mut bytes: Vec<u8> = Vec::with_capacity(18);
        bytes.push(u8::from(self.message_type));
        bytes.push(self.flags);
        push_u64_le(&mut bytes, self.old_object_id);
        push_u64_le(&mut bytes, self.final_object_id);
        assert(bytes@ =~= self.wire());
        bytes
    }

    /// Decodes a datagram of at least eighteen bytes.
    pub fn try_from<'a>(buffer: &'a [u8]) -> (r: Result<RQ_ObjectRequestCreate_ACK, &'a str>)
        ensures
            buffer@.len() < 18 ==> fails_with(
                r,
                "Payload len is to short for a RQ_ObjectRequestCreate_ACK."@,
            ),
            buffer@.len() >= 18 ==> r == Ok::<RQ_ObjectRequestCreate_ACK, &str>(
                RQ_ObjectRequestCreate_ACK::decode(buffer@),
            ),
    {
        if buffer.len() < 18 {
            return Err("Payload len is to short for a RQ_ObjectRequestCreate_ACK.");
        }
        let old_object_id = get_u64_at_pos(buffer, 2)?;
        let final_object_id = get_u64_at_pos(buffer, 10)?;
        Ok(
            RQ_ObjectRequestCreate_ACK {
                message_type: MessageType::from(buffer[0]),
                flags: buffer[1],
                old_object_id,
                final_object_id,
            },
        )
    }
}

/// Reading back what `as_bytes` writes gives the same acknowledgement.
pub proof fn lemma_rq_objectrequestcreate_ack_roundtrip(d: RQ_ObjectRequestCreate_ACK)
    ensures
        d.wire().len() == 18,
        RQ_ObjectRequestCreate_ACK::decode(d.wire()) == d,
{
    let h = seq![message_type_to_byte(d.message_type), d.flags];
    lemma_message_type_code_roundtrip(d.message_type);
    lemma_u64_in(h, d.old_object_id, le64(d.final_object_id));
    lemma_u64_in(h + le64(d.old_object_id), d.final_object_id, Seq::empty());
    assert(d.wire() =~= h + le64(d.old_object_id) + le64(d.final_object_id) + Seq::<u8>::empty());
}

//===== Sent to acknowledge an OBJECT_REQUEST other than a creation
pub struct RQ_ObjectRequestDefault_ACK {
    pub message_type: MessageType,
    pub flags: u8,
    pub object_id: u64,
}

impl RQ_ObjectRequestDefault_ACK {
    /// Bytes written by `as_bytes`.
    pub open spec fn wire(&self) -> Seq<u8> {
        seq![message_type_to_byte(self.message_type), self.flags] + le64(self.object_id)
    }

    /// Datagram read from a buffer of at least ten bytes.
    pub open spec fn decode(b: Seq<u8>) -> RQ_ObjectRequestDefault_ACK {
        RQ_ObjectRequestDefault_ACK {
            message_type: message_type_from_byte(b[0]),
            flags: b[1],
            object_id: u64_at(b, 2),
        }
    }

    /// Builds the acknowledgement of a request on `old_id`.
    pub fn new(flags: u8, old_id: u64) -> (r: RQ_ObjectRequestDefault_ACK)
        ensures
            r == (RQ_ObjectRequestDefault_ACK {
                message_type: MessageType::OBJECT_REQUEST_ACK,
                flags,
                object_id: old_id,
            }),
    {
        RQ_ObjectRequestDefault_ACK {
            message_type: MessageType::OBJECT_REQUEST_ACK,
            flags,
            object_id: old_id,
        }
    }

    /// Encodes the datagram on ten bytes.
    pub fn as_bytes(&self) -> (r: Vec<u8>)
        ensures
            r@ == self.wire(),
    {
        let mut bytes: Vec<u8> = Vec::with_capacity(10);
        bytes.push(u8::from(self.message_type));
        bytes.push(self.flags);
        push_u64_le(&mut bytes, self.object_id);
        assert(bytes@ =~= self.wire());
        bytes
    }

    /// Decodes a datagram of at least ten bytes.
    pub fn try_from<'a>(buffer: &'a [u8]) -> (r: Result<RQ_ObjectRequestDefault_ACK, &'a str>)
        ensures
            buffer@.len() < 10 ==> fails_with(
                r,
                "Payload len is to short for a RQ_ObjectRequestDefault_ACK."@,
            ),
            buffer@.len() >= 10 ==> r == Ok::<RQ_ObjectRequestDefault_ACK, &str>(
                RQ_ObjectRequestDefault_ACK::decode(buffer@),
            ),
    {
        if buffer.len() < 10 {
            return Err("Payload len is to short for a RQ_ObjectRequestDefault_ACK.");
        }
        let object_id = get_u64_at_pos(buffer, 2)?;
        Ok(
            RQ_ObjectRequestDefault_ACK {
                message_type: MessageType::from(buffer[0]),
                flags: buffer[1],
                object_id,
            },
        )
    }
}

/// Reading back what `as_bytes` writes gives the same acknowledgement.
pub proof fn lemma_rq_objectrequestdefault_ack_roundtrip(d: RQ_ObjectRequestDefault_ACK)
    ensures
        d.wire().len() == 10,
        RQ_ObjectRequestDefault_ACK::decode(d.wire()) == d,
{
    let h = seq![message_type_to_byte(d.message_type), d.flags];
    lemma_message_type_code_roundtrip(d.message_type);
    lemma_u64_in(h, d.object_id, Seq::empty());
    assert(d.wire() =~= h + le64(d.object_id) + Seq::<u8>::empty());
}

// ===== Sent when an OBJECT_REQUEST fails
pub struct RQ_ObjectRequest_NACK {
    pub message_type: MessageType,
    pub flags: u8,
    pub object_id: u64,
    pub reason_size: u16,
    pub reason: Vec<u8>,
}

impl RQ_ObjectRequest_NACK {
    /// Bytes written by `as_bytes`.
    pub open spec fn wire(&self) -> Seq<u8> {
        seq![message_type_to_byte(self.message_type), self.flags] + le64(self.object_id) + le16(
            self.reason_size,
        ) + self.reason@
    }

    /// A buffer that `try_from` reads without going past its end.
    pub open spec fn readable(b: Seq<u8>) -> bool {
        b.len() >= 12 ==> u16_at(b, 10) + 12 <= 0xffff && u16_at(b, 10) + 12 < b.len()
    }

    /// Builds a refusal of a request on `object_id` carrying `reason`.
    pub fn new(flags: u8, object_id: u64, reason: &str) -> (r: RQ_ObjectRequest_NACK)
        ensures
            r.message_type == MessageType::OBJECT_REQUEST_NACK,
            r.flags == flags,
            r.object_id == object_id,
            r.reason_size == reason.spec_bytes().len() as u16,
            r.reason@ == reason.spec_bytes(),
    {
        let bytes = reason.as_bytes();
        let reason_vec = copy_range(bytes, 0, bytes.len());
        RQ_ObjectRequest_NACK {
            message_type: MessageType::OBJECT_REQUEST_NACK,
            flags,
            object_id,
            reason_size: reason_vec.len() as u16,
            reason: reason_vec,
        }
    }

    /// Encodes the datagram.
    pub fn as_bytes(&self) -> (r: Vec<u8>)
        ensures
            r@ == self.wire(),
    {
        let mut bytes: Vec<u8> = Vec::new();
        bytes.push(u8::from(self.message_type));
        bytes.push(self.flags);
        push_u64_le(&mut bytes, self.object_id);
        push_u16_le(&mut bytes, self.reason_size);
        extend_bytes(&mut bytes, self.reason.as_slice());
        assert(bytes@ =~= self.wire());
        bytes
    }

    /// Decodes a datagram of at least twelve bytes; the reason holds
    /// `size + 1` bytes from offset 12.
    pub fn try_from<'a>(buffer: &'a [u8]) -> (r: Result<RQ_ObjectRequest_NACK, &'a str>)
        requires
            RQ_ObjectRequest_NACK::readable(buffer@),
        ensures
            buffer@.len() < 12 ==> fails_with(
                r,
                "Payload len is to short for a RQ_ObjectRequest_NACK."@,
            ),
            buffer@.len() >= 12 ==> (r matches Ok(d) && d.message_type == message_type_from_byte(
                buffer@[0],
            ) && d.flags == buffer@[1] && d.object_id == u64_at(buffer@, 2) && d.reason_size
                == u16_at(buffer@, 10) && d.reason@ == buffer@.subrange(
                12,
                12 + u16_at(buffer@, 10) + 1,
            )),
    {
        if buffer.len() < 12 {
            return Err("Payload len is to short for a RQ_ObjectRequest_NACK.");
        }
        let size = get_u16_at_pos(buffer, 10)?;
        let object_id = get_u64_at_pos(buffer, 2)?;
        Ok(
            RQ_ObjectRequest_NACK {
                message_type: MessageType::from(buffer[0]),
                flags: buffer[1],
                object_id,
                reason_size: size,
                reason: get_bytes_from_slice(buffer, 12, (size + 12) as usize),
            },
        )
    }
}

/// Concatenated little-endian encodings of the identifiers in `s`.
pub open spec fn concat_le64(s: Seq<u64>) -> Seq<u8>
    decreases s.len(),
{
    if s.len() == 0 {
        Seq::empty()
    } else {
        concat_le64(s.drop_last()) + le64(s.last())
    }
}

/// The identifiers read from `b` by groups of eight bytes; a last
/// incomplete group is ignored.
pub open spec fn le64_chunks(b: Seq<u8>) -> Seq<u64> {
    Seq::new(b.len() / 8, |i: int| u64_at(b, 8 * i))
}

/// The encoding of `s` holds eight bytes per identifier, the `i`-th
/// identifier being at offset `8 * i`.
pub proof fn lemma_concat_le64(s: Seq<u64>, tail: Seq<u8>)
    ensures
        concat_le64(s).len() == 8 * s.len(),
        forall|i: int| 0 <= i < s.len() ==> #[trigger] u64_at(concat_le64(s) + tail, 8 * i) == s[i],
    decreases s.len(),
{
    if s.len() > 0 {
        let p = s.drop_last();
        lemma_concat_le64(p, le64(s.last()) + tail);
        assert(concat_le64(s) + tail =~= concat_le64(p) + (le64(s.last()) + tail));
        assert(concat_le64(s) + tail =~= concat_le64(p) + le64(s.last()) + tail);
        lemma_u64_in(concat_le64(p), s.last(), tail);
        assert forall|i: int| 0 <= i < s.len() implies #[trigger] u64_at(concat_le64(s) + tail, 8 * i)
            == s[i] by {
            if i < s.len() - 1 {
                assert(p[i] == s[i]);
            }
        }
    }
}

/// Reading identifiers back from their encoding followed by fewer than
/// eight other bytes gives the same sequence.
pub proof fn lemma_le64_chunks_of_concat(s: Seq<u64>, tail: Seq<u8>)
    requires
        tail.len() < 8,
    ensures
        le64_chunks(concat_le64(s) + tail) == s,
{
    lemma_concat_le64(s, tail);
    let b = concat_le64(s) + tail;
    assert(b.len() / 8 == s.len()) by (nonlinear_arith)
        requires
            b.len() == 8 * s.len() + tail.len(),
            tail.len() < 8,
    ;
    assert(le64_chunks(b) =~= s);
}

//===== Sent to create, update, delete, subscribe to or unsubscribe from an object
pub struct RQ_ObjectRequest {
    pub message_type: MessageType,
    pub size: u16,
    pub flags: ObjectFlags,
    pub object_id: u64,
    pub topics: HashSet<u64>,
}

impl RQ_ObjectRequest {
    /// The twelve bytes that precede the topics in the encoding.
    pub open spec fn head(&self) -> Seq<u8> {
        seq![message_type_to_byte(self.message_type)] + le16(self.size) + seq![
            object_flags_to_byte(self.flags),
        ] + le64(self.object_id)
    }

    /// `b` is a possible encoding: the header then the topics in some
    /// order, each one once.
    pub open spec fn is_wire(&self, b: Seq<u8>) -> bool {
        exists|s: Seq<u64>|
            #![trigger concat_le64(s)]
            s.no_duplicates() && s.to_set() == self.topics@ && b == self.head() + concat_le64(s)
    }

    /// A buffer that `try_from` reads without going past its end: when the
    /// size is not 0, the `size + 1` bytes after the header are there.
    pub open spec fn readable(b: Seq<u8>) -> bool {
        b.len() >= 12 && u16_at(b, 1) != 0 ==> u16_at(b, 1) + 12 < b.len()
    }

    /// Topics read from a buffer: groups of eight bytes taken from the
    /// `size + 1` bytes that follow the header, none when the size is 0.
    pub open spec fn topics_read(b: Seq<u8>) -> Set<u64> {
        if u16_at(b, 1) == 0 {
            Set::empty()
        } else {
            le64_chunks(b.subrange(12, 12 + u16_at(b, 1) + 1)).to_set()
        }
    }

    /// Builds an object request; the size is eight bytes per topic on
    /// 16 bits.
    pub fn new(flags: ObjectFlags, object_id: u64, topics: HashSet<u64>) -> (r: RQ_ObjectRequest)
        requires
            topics@.len() * 8 <= usize::MAX,
        ensures
            r.message_type == MessageType::OBJECT_REQUEST,
            r.size == (topics@.len() * 8) as u16,
            r.flags == flags,
            r.object_id == object_id,
            r.topics@ == topics@,
    {
        broadcast use vstd::std_specs::hash::group_hash_axioms;

        let size: u16 = (topics.len() * 8) as u16;
        RQ_ObjectRequest { message_type: MessageType::OBJECT_REQUEST, size, flags, object_id, topics }
    }

    /// Encodes the datagram: the header, then the topics in the set's
    /// iteration order.
    pub fn as_bytes(&self) -> (r: Vec<u8>)
        ensures
            self.is_wire(r@),
    {
        broadcast use vstd::std_specs::hash::group_hash_axioms;

        let mut bytes: Vec<u8> = Vec::new();
        bytes.push(u8::from(self.message_type));
        push_u16_le(&mut bytes, self.size);
        bytes.push(u8::from(self.flags));
        push_u64_le(&mut bytes, self.object_id);
        assert(bytes@ =~= self.head());
        let mut order: Vec<u64> = Vec::new();
        for x in it: self.topics.iter()
            invariant
                it.seq() == spec_hash_keys_iter(&self.topics).remaining(),
                order@ == it.seq().take(it.index() as int).map_values(|r: &u64| *r),
                bytes@ == self.head() + concat_le64(order@),
        {
            let ghost prev = order@;
            order.push(*x);
            push_u64_le(&mut bytes, *x);
            assert(order@.drop_last() =~= prev);
            assert(order@ =~= it.seq().take(it.index() + 1).map_values(|r: &u64| *r));
        }
        let ghost keys = spec_hash_keys_iter(&self.topics).remaining();
        assert(order@ =~= keys.unref());
        assert(order@.no_duplicates());
        assert(order@.to_set() =~= self.topics@);
        bytes
    }
}

impl RQ_ObjectRequest {
    /// Decodes a datagram of at least twelve bytes.
    pub fn try_from<'a>(buffer: &'a [u8]) -> (r: Result<RQ_ObjectRequest, &'a str>)
        requires
            RQ_ObjectRequest::readable(buffer@),
        ensures
            buffer@.len() < 12 ==> fails_with(
                r,
                "Payload len is to short for a RQ_ObjectRequest."@,
            ),
            buffer@.len() >= 12 ==> (r matches Ok(d) && d.message_type == message_type_from_byte(
                buffer@[0],
            ) && d.size == u16_at(buffer@, 1) && d.flags == object_flags_from_byte(buffer@[3])
                && d.object_id == u64_at(buffer@, 4) && d.topics@ == RQ_ObjectRequest::topics_read(
                buffer@,
            )),
    {
        broadcast use vstd::std_specs::hash::group_hash_axioms;
        broadcast use vstd::seq_lib::group_seq_properties;

        if buffer.len() < 12 {
            return Err("Payload len is to short for a RQ_ObjectRequest.");
        }
        let size = get_u16_at_pos(buffer, 1)?;
        let mut topics: HashSet<u64> = HashSet::new();
        if size != 0 {
            let slice = get_bytes_from_slice(buffer, 12, size as usize + 12);
            let n = slice.len() / 8;
            let mut i: usize = 0;
            while i < n
                invariant
                    n == slice.len() / 8,
                    i <= n,
                    topics@ == le64_chunks(slice@).take(i as int).to_set(),
                decreases n - i,
            {
                assert(8 * i + 8 <= slice@.len()) by (nonlinear_arith)
                    requires
                        i < n,
                        n == slice.len() / 8,
                ;
                let t = read_u64_le(slice.as_slice(), 8 * i);
                assert(t == le64_chunks(slice@)[i as int]);
                topics.insert(t);
                i = i + 1;
                assert(le64_chunks(slice@).take(i as int) =~= le64_chunks(slice@).take(
                    i - 1,
                ).push(t));
                proof { le64_chunks(slice@).take(i - 1int).lemma_push_to_set_commute(t); }
                assert(topics@ =~= le64_chunks(slice@).take(i as int).to_set());
            }
            assert(le64_chunks(slice@).take(n as int) =~= le64_chunks(slice@));
        }
        let object_id = get_u64_at_pos(buffer, 4)?;
        Ok(
            RQ_ObjectRequest {
                message_type: MessageType::from(buffer[0]),
                size,
                flags: ObjectFlags::from(buffer[3]),
                object_id,
                topics,
            },
        )
    }
}

/// Reading back an encoding of an object request gives the same header
/// and the same topics; an encoding that holds topics must be followed
/// by at least one more byte.
pub proof fn lemma_rq_objectrequest_roundtrip(d: RQ_ObjectRequest, b: Seq<u8>, extra: Seq<u8>)
    requires
        d.is_wire(b),
        d.size == 8 * d.topics@.len(),
        d.topics@.len() > 0 ==> extra.len() >= 1,
    ensures
        (b + extra).len() >= 12,
        RQ_ObjectRequest::readable(b + extra),
        message_type_from_byte((b + extra)[0]) == d.message_type,
        u16_at(b + extra, 1) == d.size,
        object_flags_from_byte((b + extra)[3]) == d.flags,
        u64_at(b + extra, 4) == d.object_id,
        RQ_ObjectRequest::topics_read(b + extra) == d.topics@,
{
    let s = choose|s: Seq<u64>|
        #![trigger concat_le64(s)]
        s.no_duplicates() && s.to_set() == d.topics@ && b == d.head() + concat_le64(s);
    s.unique_seq_to_set();
    lemma_concat_le64(s, extra);
    lemma_message_type_code_roundtrip(d.message_type);
    lemma_object_flags_code_roundtrip(d.flags);
    let h0 = seq![message_type_to_byte(d.message_type)];
    let h2 = seq![object_flags_to_byte(d.flags)];
    let t = concat_le64(s) + extra;
    assert(b + extra =~= h0 + le16(d.size) + (h2 + le64(d.object_id) + t));
    lemma_u16_in(h0, d.size, h2 + le64(d.object_id) + t);
    assert(b + extra =~= h0 + le16(d.size) + h2 + le64(d.object_id) + t);
    lemma_u64_in(h0 + le16(d.size) + h2, d.object_id, t);
    assert((b + extra)[3] == object_flags_to_byte(d.flags));
    if d.size != 0 {
        let slice = (b + extra).subrange(12, 12 + d.size + 1);
        assert(slice =~= concat_le64(s) + extra.subrange(0, 1));
        lemma_le64_chunks_of_concat(s, extra.subrange(0, 1));
    } else {
        assert(d.topics@.len() == 0);
        assert(d.topics@ =~= Set::empty());
    }
}

} // verus!
