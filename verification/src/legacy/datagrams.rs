//! Datagrams of the first version of the protocol: each one is built with
//! `new`, written with `as_bytes` and read back with `from`.
#![allow(non_camel_case_types)]

use vstd::prelude::*;
use vstd::string::StringSliceAdditionalSpecFns;
use crate::bytes::{copy_range, extend_bytes, le16, le64, push_u16_le, push_u64_le, read_u16_le,
    read_u64_le};
use crate::legacy::enums::{
    connect_status_to_byte, end_connexion_reason_from_byte, end_connexion_reason_to_byte,
    lemma_end_connexion_reason_code_roundtrip, lemma_stream_type_code_roundtrip,
    lemma_topics_action_code_roundtrip, lemma_topics_response_code_roundtrip,
    message_type_from_byte, message_type_to_byte, stream_type_from_byte, stream_type_to_byte,
    topics_action_from_byte, topics_action_to_byte, topics_response_from_byte,
    topics_response_to_byte, ConnectStatus, EndConnexionReason, MessageType, StreamType,
    TopicsAction, TopicsResponse,
};
use crate::messages::datagrams::{lemma_u16_in, lemma_u64_in, u16_at, u64_at};

verus! {

/// A length on 16 bits.
#[derive(Clone, Copy)]
pub struct Size {
    pub size: u16,
}

impl Size {
    /// The length `size`.
    pub fn new(size: u16) -> (r: Size)
        ensures
            r.size == size,
    {
        Size { size }
    }
}

/// Returns `buffer[from..=to]`: both bounds are included.
pub fn get_bytes_from_slice(buffer: &[u8], from: usize, to: usize) -> (r: Vec<u8>)
    requires
        from <= to,
        to < buffer.len(),
    ensures
        r@ == buffer@.subrange(from as int, to + 1),
{
    copy_range(buffer, from, to + 1)
}

//===== Sent by a peer to connect to the broker
pub struct RQ_Connect {
    pub message_type: MessageType,
}

impl RQ_Connect {
    /// Bytes written by `as_bytes`.
    pub open spec fn wire(&self) -> Seq<u8> {
        seq![message_type_to_byte(self.message_type)]
    }

    /// Builds a CONNECT.
    pub fn new() -> (r: RQ_Connect)
        ensures
            r.message_type == MessageType::CONNECT,
    {
        RQ_Connect { message_type: MessageType::CONNECT }
    }

    /// Encodes the datagram on one byte.
    pub fn as_bytes(&self) -> (r: Vec<u8>)
        ensures
            r@ == self.wire(),
    {
        let mut bytes: Vec<u8> = Vec::new();
        bytes.push(u8::from(self.message_type));
        assert(bytes@ =~= self.wire());
        bytes
    }

    /// Reads the kind of a non-empty buffer.
    pub fn from(value: &[u8]) -> (r: RQ_Connect)
        requires
            value@.len() >= 1,
        ensures
            r.message_type == message_type_from_byte(value@[0]),
    {
        RQ_Connect { message_type: MessageType::from(value[0]) }
    }
}

//===== Sent to acknowledge a connection
pub struct RQ_Connect_ACK_OK {
    pub message_type: MessageType,
    pub status: ConnectStatus,
    pub peer_id: u64,
    pub heartbeat_period: u16,
}

impl RQ_Connect_ACK_OK {
    /// Bytes written by `as_bytes`.
    pub open spec fn wire(&self) -> Seq<u8> {
        seq![message_type_to_byte(self.message_type), connect_status_to_byte(self.status)] + le64(
            self.peer_id,
        ) + le16(self.heartbeat_period)
    }

    /// Builds a successful CONNECT_ACK giving the peer its identifier.
    pub fn new(peer_id: u64, heartbeat_period: u16) -> (r: RQ_Connect_ACK_OK)
        ensures
            r.message_type == MessageType::CONNECT_ACK,
            r.status == ConnectStatus::SUCCESS,
            r.peer_id == peer_id,
            r.heartbeat_period == heartbeat_period,
    {
        RQ_Connect_ACK_OK {
            message_type: MessageType::CONNECT_ACK,
            status: ConnectStatus::SUCCESS,
            peer_id,
            heartbeat_period,
        }
    }

    /// Encodes the datagram on twelve bytes.
    pub fn as_bytes(&self) -> (r: Vec<u8>)
        ensures
            r@ == self.wire(),
    {
        let mut bytes: Vec<u8> = Vec::new();
        bytes.push(u8::from(self.message_type));
        bytes.push(u8::from(self.status));
        push_u64_le(&mut bytes, self.peer_id);
        push_u16_le(&mut bytes, self.heartbeat_period);
        assert(bytes@ =~= self.wire());
        bytes
    }

    /// Reads a successful CONNECT_ACK: the identifier at offset 2 and the
    /// period at offset 10.
    pub fn from(buffer: &[u8]) -> (r: RQ_Connect_ACK_OK)
        requires
            buffer@.len() >= 12,
        ensures
            r.message_type == MessageType::CONNECT_ACK,
            r.status == ConnectStatus::SUCCESS,
            r.peer_id == u64_at(buffer@, 2),
            r.heartbeat_period == u16_at(buffer@, 10),
    {
        let peer = get_bytes_from_slice(buffer, 2, 9);
        let period = get_bytes_from_slice(buffer, 10, 11);
        let peer_id = read_u64_le(peer.as_slice(), 0);
        let heartbeat_period = read_u16_le(period.as_slice(), 0);
        assert(peer@.subrange(0, 8) =~= buffer@.subrange(2, 10));
        assert(period@.subrange(0, 2) =~= buffer@.subrange(10, 12));
        RQ_Connect_ACK_OK {
            message_type: MessageType::CONNECT_ACK,
            status: ConnectStatus::SUCCESS,
            peer_id,
            heartbeat_period,
        }
    }
}

/// Reading back what `as_bytes` writes for a successful CONNECT_ACK gives
/// the same identifier and period.
pub proof fn lemma_connect_ack_ok_roundtrip(d: RQ_Connect_ACK_OK)
    ensures
        d.wire().len() == 12,
        u64_at(d.wire(), 2) == d.peer_id,
        u16_at(d.wire(), 10) == d.heartbeat_period,
{
    let h = seq![message_type_to_byte(d.message_type), connect_status_to_byte(d.status)];
    lemma_u64_in(h, d.peer_id, le16(d.heartbeat_period));
    assert(d.wire() =~= h + le64(d.peer_id) + le16(d.heartbeat_period));
    lemma_u16_in(h + le64(d.peer_id), d.heartbeat_period, Seq::empty());
    assert(d.wire() =~= h + le64(d.peer_id) + le16(d.heartbeat_period) + Seq::<u8>::empty());
}

//===== Sent to refuse a connection
pub struct RQ_Connect_ACK_ERROR {
    pub message_type: MessageType,
    pub status: ConnectStatus,
    pub message_size: Size,
    pub reason: Vec<u8>,
}

impl RQ_Connect_ACK_ERROR {
    /// Bytes written by `as_bytes`: the size comes before the status.
    pub open spec fn wire(&self) -> Seq<u8> {
        seq![message_type_to_byte(self.message_type)] + le16(self.message_size.size) + seq![
            connect_status_to_byte(self.status),
        ] + self.reason@
    }

    /// Builds a refusal giving `message`; the size counts one byte more
    /// than the message, on 16 bits.
    pub fn new(message: &str) -> (r: RQ_Connect_ACK_ERROR)
        ensures
            r.message_type == MessageType::CONNECT_ACK,
            r.status == ConnectStatus::FAILURE,
            r.message_size.size == (message.spec_bytes().len() + 1) as u16,
            r.reason@ == message.spec_bytes(),
    {
        let bytes = message.as_bytes();
        let reason = copy_range(bytes, 0, bytes.len());
        let message_size = Size::new((reason.len() as u128 + 1) as u16);
        RQ_Connect_ACK_ERROR {
            message_type: MessageType::CONNECT_ACK,
            status: ConnectStatus::FAILURE,
            message_size,
            reason,
        }
    }

    /// Encodes the datagram.
    pub fn as_bytes(&self) -> (r: Vec<u8>)
        ensures
            r@ == self.wire(),
    {
        let mut bytes: Vec<u8> = Vec::new();
        bytes.push(u8::from(self.message_type));
        push_u16_le(&mut bytes, self.message_size.size);
        bytes.push(u8::from(self.status));
        extend_bytes(&mut bytes, self.reason.as_slice());
        assert(bytes@ =~= self.wire());
        bytes
    }

    /// Reads a refusal: the size at offset 1, then `size` bytes of reason
    /// from offset 4.
    pub fn from(buffer: &[u8]) -> (r: RQ_Connect_ACK_ERROR)
        requires
            buffer@.len() >= 3,
            u16_at(buffer@, 1) >= 1,
            4 + u16_at(buffer@, 1) <= 0xffff,
            4 + u16_at(buffer@, 1) <= buffer@.len(),
        ensures
            r.message_type == MessageType::CONNECT_ACK,
            r.status == ConnectStatus::FAILURE,
            r.message_size.size == u16_at(buffer@, 1),
            r.reason@ == buffer@.subrange(4, 4 + u16_at(buffer@, 1)),
    {
        let size_bytes = get_bytes_from_slice(buffer, 1, 2);
        let size = read_u16_le(size_bytes.as_slice(), 0);
        assert(size_bytes@.subrange(0, 2) =~= buffer@.subrange(1, 3));
        RQ_Connect_ACK_ERROR {
            message_type: MessageType::CONNECT_ACK,
            status: ConnectStatus::FAILURE,
            message_size: Size::new(size),
            reason: get_bytes_from_slice(buffer, 4, (4 + size - 1) as usize),
        }
    }
}

//===== Sent to keep the connection alive
pub struct RQ_Heartbeat {
    pub message_type: MessageType,
}

impl RQ_Heartbeat {
    /// Bytes written by `as_bytes`.
    pub open spec fn wire(&self) -> Seq<u8> {
        seq![message_type_to_byte(self.message_type)]
    }

    /// Builds a HEARTBEAT.
    pub fn new() -> (r: RQ_Heartbeat)
        ensures
            r.message_type == MessageType::HEARTBEAT,
    {
        RQ_Heartbeat { message_type: MessageType::HEARTBEAT }
    }

    /// Encodes the datagram on one byte.
    pub fn as_bytes(&self) -> (r: Vec<u8>)
        ensures
            r@ == self.wire(),
    {
        let mut bytes: Vec<u8> = Vec::new();
        bytes.push(u8::from(self.message_type));
        assert(bytes@ =~= self.wire());
        bytes
    }

    /// Reads a HEARTBEAT; the buffer is not looked at.
    pub fn from(_buffer: &[u8]) -> (r: RQ_Heartbeat)
        ensures
            r.message_type == MessageType::HEARTBEAT,
    {
        RQ_Heartbeat { message_type: MessageType::HEARTBEAT }
    }
}

//===== Sent to ask for a heartbeat that did not come
pub struct RQ_Heartbeat_Request {
    pub message_type: MessageType,
}

impl RQ_Heartbeat_Request {
    /// Bytes written by `as_bytes`.
    pub open spec fn wire(&self) -> Seq<u8> {
        seq![message_type_to_byte(self.message_type)]
    }

    /// Builds a HEARTBEAT_REQUEST.
    pub fn new() -> (r: RQ_Heartbeat_Request)
        ensures
            r.message_type == MessageType::HEARTBEAT_REQUEST,
    {
        RQ_Heartbeat_Request { message_type: MessageType::HEARTBEAT_REQUEST }
    }

    /// Encodes the datagram on one byte.
    pub fn as_bytes(&self) -> (r: Vec<u8>)
        ensures
            r@ == self.wire(),
    {
        let mut bytes: Vec<u8> = Vec::new();
        bytes.push(u8::from(self.message_type));
        assert(bytes@ =~= self.wire());
        bytes
    }

    /// Reads a HEARTBEAT_REQUEST; the buffer is not looked at.
    pub fn from(_buffer: &[u8]) -> (r: RQ_Heartbeat_Request)
        ensures
            r.message_type == MessageType::HEARTBEAT_REQUEST,
    {
        RQ_Heartbeat_Request { message_type: MessageType::HEARTBEAT_REQUEST }
    }
}

//===== Sent to measure the latency between a peer and the broker
pub struct RQ_Ping {
    pub message_type: MessageType,
    pub ping_id: u8,
}

impl RQ_Ping {
    /// Bytes written by `as_bytes`.
    pub open spec fn wire(&self) -> Seq<u8> {
        seq![message_type_to_byte(self.message_type), self.ping_id]
    }

    /// Builds a PING carrying `ping_id`.
    pub fn new(ping_id: u8) -> (r: RQ_Ping)
        ensures
            r.message_type == MessageType::PING,
            r.ping_id == ping_id,
    {
        RQ_Ping { message_type: MessageType::PING, ping_id }
    }

    /// Encodes the datagram on two bytes.
    pub fn as_bytes(&self) -> (r: Vec<u8>)
        ensures
            r@ == self.wire(),
    {
        let mut bytes: Vec<u8> = Vec::new();
        bytes.push(u8::from(self.message_type));
        bytes.push(self.ping_id);
        assert(bytes@ =~= self.wire());
        bytes
    }

    /// Reads a PING: its identifier is the second byte.
    pub fn from(buffer: &[u8]) -> (r: RQ_Ping)
        requires
            buffer@.len() >= 2,
        ensures
            r.message_type == MessageType::PING,
            r.ping_id == buffer@[1],
    {
        RQ_Ping { message_type: MessageType::PING, ping_id: buffer[1] }
    }
}

//===== Sent to answer a PING
pub struct RQ_Pong {
    pub message_type: MessageType,
    pub ping_id: u8,
}

impl RQ_Pong {
    /// Bytes written by `as_bytes`.
    pub open spec fn wire(&self) -> Seq<u8> {
        seq![message_type_to_byte(self.message_type), self.ping_id]
    }

    /// Builds the answer to the PING `ping_id`, as a `RQ_Ping` of kind
    /// PONG.
    pub fn new(ping_id: u8) -> (r: RQ_Ping)
        ensures
            r.message_type == MessageType::PONG,
            r.ping_id == ping_id,
    {
        RQ_Ping { message_type: MessageType::PONG, ping_id }
    }

    /// Encodes the datagram on two bytes.
    pub fn as_bytes(&self) -> (r: Vec<u8>)
        ensures
            r@ == self.wire(),
    {
        let mut bytes: Vec<u8> = Vec::new();
        bytes.push(u8::from(self.message_type));
        bytes.push(self.ping_id);
        assert(bytes@ =~= self.wire());
        bytes
    }

    /// Reads a PONG: its identifier is the second byte.
    pub fn from(buffer: &[u8]) -> (r: RQ_Pong)
        requires
            buffer@.len() >= 2,
        ensures
            r.message_type == MessageType::PONG,
            r.ping_id == buffer@[1],
    {
        RQ_Pong { message_type: MessageType::PONG, ping_id: buffer[1] }
    }
}

//===== Sent to close the connection
pub struct RQ_Shutdown {
    pub message_type: MessageType,
    pub reason: EndConnexionReason,
}

impl RQ_Shutdown {
    /// Bytes written by `as_bytes`.
    pub open spec fn wire(&self) -> Seq<u8> {
        seq![message_type_to_byte(self.message_type), end_connexion_reason_to_byte(self.reason)]
    }

    /// Builds a SHUTDOWN giving `reason`.
    pub fn new(reason: EndConnexionReason) -> (r: RQ_Shutdown)
        ensures
            r.message_type == MessageType::SHUTDOWN,
            r.reason == reason,
    {
        RQ_Shutdown { message_type: MessageType::SHUTDOWN, reason }
    }

    /// Encodes the datagram on two bytes.
    pub fn as_bytes(&self) -> (r: Vec<u8>)
        ensures
            r@ == self.wire(),
    {
        let mut bytes: Vec<u8> = Vec::new();
        bytes.push(u8::from(self.message_type));
        bytes.push(u8::from(self.reason));
        assert(bytes@ =~= self.wire());
        bytes
    }

    /// Reads a SHUTDOWN: its reason is the second byte.
    pub fn from(buffer: &[u8]) -> (r: RQ_Shutdown)
        requires
            buffer@.len() >= 2,
        ensures
            r.message_type == MessageType::SHUTDOWN,
            r.reason == end_connexion_reason_from_byte(buffer@[1]),
    {
        RQ_Shutdown { message_type: MessageType::SHUTDOWN, reason: EndConnexionReason::from(buffer[1]) }
    }
}

/// Reading back what `as_bytes` writes gives the same reason.
pub proof fn lemma_shutdown_roundtrip(d: RQ_Shutdown)
    ensures
        d.wire().len() == 2,
        end_connexion_reason_from_byte(d.wire()[1]) == d.reason,
{
    lemma_end_connexion_reason_code_roundtrip(d.reason);
}

//===== Sent to open a stream
pub struct RQ_OpenStream {
    pub message_type: MessageType,
    pub stream_type: StreamType,
}

impl RQ_OpenStream {
    /// Bytes written by `as_bytes`.
    pub open spec fn wire(&self) -> Seq<u8> {
        seq![message_type_to_byte(self.message_type), stream_type_to_byte(self.stream_type)]
    }

    /// Builds an OPEN_STREAM for a stream of kind `stream_type`.
    pub fn new(stream_type: StreamType) -> (r: RQ_OpenStream)
        ensures
            r.message_type == MessageType::OPEN_STREAM,
            r.stream_type == stream_type,
    {
        RQ_OpenStream { message_type: MessageType::OPEN_STREAM, stream_type }
    }

    /// Encodes the datagram on two bytes.
    pub fn as_bytes(&self) -> (r: Vec<u8>)
        ensures
            r@ == self.wire(),
    {
        let mut bytes: Vec<u8> = Vec::new();
        bytes.push(u8::from(self.message_type));
        bytes.push(u8::from(self.stream_type));
        assert(bytes@ =~= self.wire());
        bytes
    }

    /// Reads an OPEN_STREAM: the kind of stream is the second byte.
    pub fn from(buffer: &[u8]) -> (r: RQ_OpenStream)
        requires
            buffer@.len() >= 2,
        ensures
            r.message_type == MessageType::OPEN_STREAM,
            r.stream_type == stream_type_from_byte(buffer@[1]),
    {
        RQ_OpenStream { message_type: MessageType::OPEN_STREAM, stream_type: StreamType::from(buffer[1]) }
    }
}

/// Reading back what `as_bytes` writes gives the same kind of stream.
pub proof fn lemma_open_stream_roundtrip(d: RQ_OpenStream)
    ensures
        d.wire().len() == 2,
        stream_type_from_byte(d.wire()[1]) == d.stream_type,
{
    lemma_stream_type_code_roundtrip(d.stream_type);
}

//===== Sent to subscribe to or unsubscribe from a topic named by a path
pub struct RQ_TopicRequest {
    pub message_type: MessageType,
    pub action: TopicsAction,
    pub size: Size,
    pub payload: Vec<u8>,
}

impl RQ_TopicRequest {
    /// Bytes written by `as_bytes`: the size comes before the action.
    pub open spec fn wire(&self) -> Seq<u8> {
        seq![message_type_to_byte(self.message_type)] + le16(self.size.size) + seq![
            topics_action_to_byte(self.action),
        ] + self.payload@
    }

    /// Builds a request on the topic path `payload`; the size counts the
    /// path and the action byte, on 16 bits.
    pub fn new(action: TopicsAction, payload: &str) -> (r: RQ_TopicRequest)
        ensures
            r.message_type == MessageType::TOPIC_REQUEST,
            r.action == action,
            r.size.size == (payload.spec_bytes().len() + 1) as u16,
            r.payload@ == payload.spec_bytes(),
    {
        let bytes = payload.as_bytes();
        let payload = copy_range(bytes, 0, bytes.len());
        let size = Size::new((payload.len() as u128 + 1) as u16);
        RQ_TopicRequest { message_type: MessageType::TOPIC_REQUEST, action, size, payload }
    }

    /// Encodes the datagram.
    pub fn as_bytes(&self) -> (r: Vec<u8>)
        ensures
            r@ == self.wire(),
    {
        let mut bytes: Vec<u8> = Vec::new();
        bytes.push(u8::from(self.message_type));
        push_u16_le(&mut bytes, self.size.size);
        bytes.push(u8::from(self.action));
        extend_bytes(&mut bytes, self.payload.as_slice());
        assert(bytes@ =~= self.wire());
        bytes
    }

    /// Reads a request: the size at offset 1, the action at offset 3, and
    /// `size - 1` bytes of path from offset 4.
    pub fn from(buffer: &[u8]) -> (r: RQ_TopicRequest)
        requires
            buffer@.len() >= 4,
            u16_at(buffer@, 1) >= 1,
            3 + u16_at(buffer@, 1) <= buffer@.len(),
        ensures
            r.message_type == MessageType::TOPIC_REQUEST,
            r.action == topics_action_from_byte(buffer@[3]),
            r.size.size == u16_at(buffer@, 1),
            r.payload@ == buffer@.subrange(4, 3 + u16_at(buffer@, 1)),
    {
        let size_bytes = get_bytes_from_slice(buffer, 1, 2);
        let size = Size::new(read_u16_le(size_bytes.as_slice(), 0));
        assert(size_bytes@.subrange(0, 2) =~= buffer@.subrange(1, 3));
        let payload_end = 4 + (size.size - 1) as usize;
        RQ_TopicRequest {
            message_type: MessageType::TOPIC_REQUEST,
            action: TopicsAction::from(buffer[3]),
            size,
            payload: copy_range(buffer, 4, payload_end),
        }
    }
}

/// Reading back what `as_bytes` writes gives the same action and path,
/// when the size was counted as `new` counts it.
pub proof fn lemma_topic_request_roundtrip(d: RQ_TopicRequest)
    requires
        d.size.size == d.payload@.len() + 1,
    ensures
        d.wire().len() == 3 + d.size.size,
        u16_at(d.wire(), 1) == d.size.size,
        topics_action_from_byte(d.wire()[3]) == d.action,
        d.wire().subrange(4, 3 + u16_at(d.wire(), 1)) == d.payload@,
{
    let h = seq![message_type_to_byte(d.message_type)];
    let t = seq![topics_action_to_byte(d.action)] + d.payload@;
    lemma_u16_in(h, d.size.size, t);
    assert(d.wire() =~= h + le16(d.size.size) + t);
    lemma_topics_action_code_roundtrip(d.action);
    assert(d.wire().subrange(4, 3 + d.size.size) =~= d.payload@);
}

//===== Sent to acknowledge a TOPIC_REQUEST
pub struct RQ_TopicRequest_ACK {
    pub message_type: MessageType,
    pub status: TopicsResponse,
    pub topic_id: u64,
}

impl RQ_TopicRequest_ACK {
    /// Bytes written by `as_bytes`.
    pub open spec fn wire(&self) -> Seq<u8> {
        seq![message_type_to_byte(self.message_type), topics_response_to_byte(self.status)] + le64(
            self.topic_id,
        )
    }

    /// Builds the acknowledgement of a request on `topic_id`.
    pub fn new(topic_id: u64, status: TopicsResponse) -> (r: RQ_TopicRequest_ACK)
        ensures
            r.message_type == MessageType::TOPIC_REQUEST_ACK,
            r.status == status,
            r.topic_id == topic_id,
    {
        RQ_TopicRequest_ACK { message_type: MessageType::TOPIC_REQUEST_ACK, status, topic_id }
    }

    /// Encodes the datagram on ten bytes.
    pub fn as_bytes(&self) -> (r: Vec<u8>)
        ensures
            r@ == self.wire(),
    {
        let mut bytes: Vec<u8> = Vec::new();
        bytes.push(u8::from(self.message_type));
        bytes.push(u8::from(self.status));
        push_u64_le(&mut bytes, self.topic_id);
        assert(bytes@ =~= self.wire());
        bytes
    }

    /// Reads an acknowledgement: the status at offset 1, the topic at
    /// offset 2.
    pub fn from(buffer: &[u8]) -> (r: RQ_TopicRequest_ACK)
        requires
            buffer@.len() >= 10,
        ensures
            r.message_type == MessageType::TOPIC_REQUEST_ACK,
            r.status == topics_response_from_byte(buffer@[1]),
            r.topic_id == u64_at(buffer@, 2),
    {
        let topic = get_bytes_from_slice(buffer, 2, 9);
        assert(topic@.subrange(0, 8) =~= buffer@.subrange(2, 10));
        RQ_TopicRequest_ACK {
            message_type: MessageType::TOPIC_REQUEST_ACK,
            status: TopicsResponse::from(buffer[1]),
            topic_id: read_u64_le(topic.as_slice(), 0),
        }
    }
}

/// Reading back what `as_bytes` writes gives the same status and topic.
pub proof fn lemma_topic_request_ack_roundtrip(d: RQ_TopicRequest_ACK)
    ensures
        d.wire().len() == 10,
        topics_response_from_byte(d.wire()[1]) == d.status,
        u64_at(d.wire(), 2) == d.topic_id,
{
    let h = seq![message_type_to_byte(d.message_type), topics_response_to_byte(d.status)];
    lemma_topics_response_code_roundtrip(d.status);
    lemma_u64_in(h, d.topic_id, Seq::empty());
    assert(d.wire() =~= h + le64(d.topic_id) + Seq::<u8>::empty());
}

//===== Sent to refuse a TOPIC_REQUEST
pub struct RQ_TopicRequest_NACK {
    pub message_type: MessageType,
    pub status: TopicsResponse,
    pub size: Size,
    pub error_message: String,
}

impl RQ_TopicRequest_NACK {
    /// Bytes written by `as_bytes`: the size is not written.
    pub open spec fn wire(&self) -> Seq<u8> {
        seq![message_type_to_byte(self.message_type), topics_response_to_byte(self.status)]
            + vstd::utf8::encode_utf8(self.error_message@)
    }

    /// Builds a refusal carrying `error_message`; its kind is
    /// TOPIC_REQUEST_ACK and its size counts one byte more than the text.
    pub fn new(status: TopicsResponse, error_message: String) -> (r: RQ_TopicRequest_NACK)
        ensures
            r.message_type == MessageType::TOPIC_REQUEST_ACK,
            r.status == status,
            r.size.size == (vstd::utf8::encode_utf8(error_message@).len() + 1) as u16,
            r.error_message@ == error_message@,
    {
        let len = error_message.as_str().as_bytes().len();
        let size = Size::new((len as u128 + 1) as u16);
        RQ_TopicRequest_NACK { message_type: MessageType::TOPIC_REQUEST_ACK, status, size, error_message }
    }

    /// Encodes the datagram.
    pub fn as_bytes(&self) -> (r: Vec<u8>)
        ensures
            r@ == self.wire(),
    {
        let mut bytes: Vec<u8> = Vec::new();
        bytes.push(u8::from(self.message_type));
        bytes.push(u8::from(self.status));
        extend_bytes(&mut bytes, self.error_message.as_str().as_bytes());
        assert(bytes@ =~= self.wire());
        bytes
    }
}

//===== Sent to publish data on a topic
pub struct RQ_Data {
    pub message_type: MessageType,
    pub size: Size,
    pub topic_id: u64,
    pub data: Vec<u8>,
}

impl RQ_Data {
    /// Bytes written by `as_bytes`.
    pub open spec fn wire(&self) -> Seq<u8> {
        seq![message_type_to_byte(self.message_type)] + le16(self.size.size) + le64(self.topic_id)
            + self.data@
    }

    /// Builds a DATA on `topic_id`; the size counts the payload and the
    /// topic, on 16 bits.
    pub fn new(topic_id: u64, payload: Vec<u8>) -> (r: RQ_Data)
        ensures
            r.message_type == MessageType::DATA,
            r.size.size == (payload@.len() + 8) as u16,
            r.topic_id == topic_id,
            r.data@ == payload@,
    {
        let size = Size::new((payload.len() as u128 + 8) as u16);
        RQ_Data { message_type: MessageType::DATA, topic_id, size, data: payload }
    }

    /// Encodes the datagram.
    pub fn as_bytes(&self) -> (r: Vec<u8>)
        ensures
            r@ == self.wire(),
    {
        let mut bytes: Vec<u8> = Vec::new();
        bytes.push(u8::from(self.message_type));
        push_u16_le(&mut bytes, self.size.size);
        push_u64_le(&mut bytes, self.topic_id);
        extend_bytes(&mut bytes, self.data.as_slice());
        assert(bytes@ =~= self.wire());
        bytes
    }

    /// Reads a DATA: the size at offset 1, the topic at offset 3 and
    /// `size - 8` bytes of payload from offset 11.
    pub fn from(buffer: &[u8]) -> (r: RQ_Data)
        requires
            buffer@.len() >= 11,
            u16_at(buffer@, 1) >= 8,
            3 + u16_at(buffer@, 1) <= buffer@.len(),
        ensures
            r.message_type == MessageType::DATA,
            r.size.size == u16_at(buffer@, 1),
            r.topic_id == u64_at(buffer@, 3),
            r.data@ == buffer@.subrange(11, 3 + u16_at(buffer@, 1)),
    {
        let size = Size::new(read_u16_le(buffer, 1));
        let data_end = 11 + (size.size - 8) as usize;
        RQ_Data {
            message_type: MessageType::DATA,
            size,
            topic_id: read_u64_le(buffer, 3),
            data: copy_range(buffer, 11, data_end),
        }
    }
}

/// Reading back what `as_bytes` writes gives the same topic and payload,
/// when the size was counted as `new` counts it.
pub proof fn lemma_data_roundtrip(d: RQ_Data)
    requires
        d.size.size == d.data@.len() + 8,
    ensures
        d.wire().len() == 3 + d.size.size,
        u16_at(d.wire(), 1) == d.size.size,
        u64_at(d.wire(), 3) == d.topic_id,
        d.wire().subrange(11, 3 + u16_at(d.wire(), 1)) == d.data@,
{
    let h = seq![message_type_to_byte(d.message_type)];
    lemma_u16_in(h, d.size.size, le64(d.topic_id) + d.data@);
    assert(d.wire() =~= h + le16(d.size.size) + (le64(d.topic_id) + d.data@));
    lemma_u64_in(h + le16(d.size.size), d.topic_id, d.data@);
    assert(d.wire() =~= h + le16(d.size.size) + le64(d.topic_id) + d.data@);
    assert(d.wire().subrange(11, 3 + d.size.size) =~= d.data@);
}

} // verus!
