//! Datagrams of the prototype: each one is built with `new` and written
//! with `as_bytes`; those that carry no more than one byte of content are
//! read back with `from`.
#![allow(non_camel_case_types)]

use vstd::prelude::*;
use vstd::string::StringSliceAdditionalSpecFns;
use crate::bytes::{be64, copy_range, extend_bytes, le16, le64, push_u16_le, push_u64_be, push_u64_le,
    read_u64_le};
use crate::proto::enums::{
    connect_status_to_byte, end_connexion_reason_from_byte, end_connexion_reason_to_byte,
    lemma_end_connexion_reason_code_roundtrip, lemma_stream_type_code_roundtrip,
    message_type_from_byte, message_type_to_byte, stream_type_from_byte, stream_type_to_byte,
    topics_action_to_byte, topics_response_to_byte, ConnectStatus, EndConnexionReason,
    MessageType, StreamType, TopicsAction, TopicsResponse,
};

verus! {

/// A length on 16 bits.
pub struct Size {
    pub size: u16,
}

impl Size {
    /// The length `size`.
    pub fn new(size: u16) -> (r: Size)
        ensures
            r.size == size,
    {
        Size { size }
    }
}

/// Reads the identifier held in bytes 2 to 9 of `buffer`, which it then
/// drops; `to` must not be above `from`.
pub fn get_bytes_as_slice(buffer: &[u8], from: u8, to: u8)
    requires
        to <= from,
        buffer@.len() >= 10,
{
    let _peer_id = read_u64_le(buffer, 2);
}

//===== Sent by a peer to connect to the broker
pub struct RQ_Connect {
    pub message_type: MessageType,
}

impl RQ_Connect {
    /// Bytes written by `as_bytes`.
    pub open spec fn wire(&self) -> Seq<u8> {
        seq![message_type_to_byte(self.message_type)]
    }

    /// Builds a CONNECT.
    pub fn new() -> (r: RQ_Connect)
        ensures
            r.message_type == MessageType::CONNECT,
    {
        RQ_Connect { message_type: MessageType::CONNECT }
    }

    /// Encodes the datagram on one byte.
    pub fn as_bytes(&self) -> (r: Vec<u8>)
        ensures
            r@ == self.wire(),
    {
        let mut bytes: Vec<u8> = Vec::new();
        bytes.push(u8::from(self.message_type));
        assert(bytes@ =~= self.wire());
        bytes
    }

    /// Reads the kind of a non-empty buffer.
    pub fn from(value: &[u8]) -> (r: RQ_Connect)
        requires
            value@.len() >= 1,
        ensures
            r.message_type == message_type_from_byte(value@[0]),
    {
        RQ_Connect { message_type: MessageType::from(value[0]) }
    }
}

//===== Sent to acknowledge a connection
pub struct RQ_Connect_ACK_OK {
    pub message_type: MessageType,
    pub status: ConnectStatus,
    pub peer_id: u64,
    pub heartbeat_period: u16,
}

impl RQ_Connect_ACK_OK {
    /// Bytes written by `as_bytes`.
    pub open spec fn wire(&self) -> Seq<u8> {
        seq![message_type_to_byte(self.message_type), connect_status_to_byte(self.status)] + le64(
            self.peer_id,
        ) + le16(self.heartbeat_period)
    }

    /// Builds a successful CONNECT_ACK giving the peer its identifier.
    pub fn new(peer_id: u64, heartbeat_period: u16) -> (r: RQ_Connect_ACK_OK)
        ensures
            r.message_type == MessageType::CONNECT_ACK,
            r.status == ConnectStatus::SUCCESS,
            r.peer_id == peer_id,
            r.heartbeat_period == heartbeat_period,
    {
        RQ_Connect_ACK_OK {
            message_type: MessageType::CONNECT_ACK,
            status: ConnectStatus::SUCCESS,
            peer_id,
            heartbeat_period,
        }
    }

    /// Encodes the datagram on twelve bytes.
    pub fn as_bytes(&self) -> (r: Vec<u8>)
        ensures
            r@ == self.wire(),
    {
        let mut bytes: Vec<u8> = Vec::new();
        bytes.push(u8::from(self.message_type));
        bytes.push(u8::from(self.status));
        push_u64_le(&mut bytes, self.peer_id);
        push_u16_le(&mut bytes, self.heartbeat_period);
        assert(bytes@ =~= self.wire());
        bytes
    }
}

//===== Sent to refuse a connection
pub struct RQ_Connect_ACK_ERROR {
    pub message_type: MessageType,
    pub status: ConnectStatus,
    pub message_size: Size,
    pub reason: Vec<u8>,
}

impl RQ_Connect_ACK_ERROR {
    /// Bytes written by `as_bytes`: the status comes before the size.
    pub open spec fn wire(&self) -> Seq<u8> {
        seq![message_type_to_byte(self.message_type), connect_status_to_byte(self.status)] + le16(
            self.message_size.size,
        ) + self.reason@
    }

    /// Builds a refusal giving `message`; the size is its length on 16
    /// bits.
    pub fn new(message: &str) -> (r: RQ_Connect_ACK_ERROR)
        ensures
            r.message_type == MessageType::CONNECT_ACK,
            r.status == ConnectStatus::FAILURE,
            r.message_size.size == message.spec_bytes().len() as u16,
            r.reason@ == message.spec_bytes(),
    {
        let bytes = message.as_bytes();
        let reason = copy_range(bytes, 0, bytes.len());
        let message_size = Size { size: reason.len() as u16 };
        RQ_Connect_ACK_ERROR {
            message_type: MessageType::CONNECT_ACK,
            status: ConnectStatus::FAILURE,
            message_size,
            reason,
        }
    }

    /// Encodes the datagram.
    pub fn as_bytes(&self) -> (r: Vec<u8>)
        ensures
            r@ == self.wire(),
    {
        let mut bytes: Vec<u8> = Vec::new();
        bytes.push(u8::from(self.message_type));
        bytes.push(u8::from(self.status));
        push_u16_le(&mut bytes, self.message_size.size);
        extend_bytes(&mut bytes, self.reason.as_slice());
        assert(bytes@ =~= self.wire());
        bytes
    }
}

//===== Sent to keep the connection alive
pub struct RQ_Heartbeat {
    pub message_type: MessageType,
}

impl RQ_Heartbeat {
    /// Bytes written by `as_bytes`.
    pub open spec fn wire(&self) -> Seq<u8> {
        seq![message_type_to_byte(self.message_type)]
    }

    /// Builds a HEARTBEAT.
    pub fn new() -> (r: RQ_Heartbeat)
        ensures
            r.message_type == MessageType::HEARTBEAT,
    {
        RQ_Heartbeat { message_type: MessageType::HEARTBEAT }
    }

    /// Encodes the datagram on one byte.
    pub fn as_bytes(&self) -> (r: Vec<u8>)
        ensures
            r@ == self.wire(),
    {
        let mut bytes: Vec<u8> = Vec::new();
        bytes.push(u8::from(self.message_type));
        assert(bytes@ =~= self.wire());
        bytes
    }

    /// Reads a HEARTBEAT; the buffer is not looked at.
    pub fn from(_buffer: &[u8]) -> (r: RQ_Heartbeat)
        ensures
            r.message_type == MessageType::HEARTBEAT,
    {
        RQ_Heartbeat { message_type: MessageType::HEARTBEAT }
    }
}

//===== Sent to ask for a heartbeat that did not come
pub struct RQ_Heartbeat_Request {
    pub message_type: MessageType,
}

impl RQ_Heartbeat_Request {
    /// Bytes written by `as_bytes`.
    pub open spec fn wire(&self) -> Seq<u8> {
        seq![message_type_to_byte(self.message_type)]
    }

    /// Builds a HEARTBEAT_REQUEST.
    pub fn new() -> (r: RQ_Heartbeat_Request)
        ensures
            r.message_type == MessageType::HEARTBEAT_REQUEST,
    {
        RQ_Heartbeat_Request { message_type: MessageType::HEARTBEAT_REQUEST }
    }

    /// Encodes the datagram on one byte.
    pub fn as_bytes(&self) -> (r: Vec<u8>)
        ensures
            r@ == self.wire(),
    {
        let mut bytes: Vec<u8> = Vec::new();
        bytes.push(u8::from(self.message_type));
        assert(bytes@ =~= self.wire());
        bytes
    }

    /// Reads a HEARTBEAT_REQUEST; the buffer is not looked at.
    pub fn from(_buffer: &[u8]) -> (r: RQ_Heartbeat_Request)
        ensures
            r.message_type == MessageType::HEARTBEAT_REQUEST,
    {
        RQ_Heartbeat_Request { message_type: MessageType::HEARTBEAT_REQUEST }
    }
}

//===== Sent to measure the latency between a peer and the broker
pub struct RQ_Ping {
    pub message_type: MessageType,
    pub ping_id: u8,
}

impl RQ_Ping {
    /// Bytes written by `as_bytes`.
    pub open spec fn wire(&self) -> Seq<u8> {
        seq![message_type_to_byte(self.message_type), self.ping_id]
    }

    /// Builds a PING carrying `ping_id`.
    pub fn new(ping_id: u8) -> (r: RQ_Ping)
        ensures
            r.message_type == MessageType::PING,
            r.ping_id == ping_id,
    {
        RQ_Ping { message_type: MessageType::PING, ping_id }
    }

    /// Encodes the datagram on two bytes.
    pub fn as_bytes(&self) -> (r: Vec<u8>)
        ensures
            r@ == self.wire(),
    {
        let mut bytes: Vec<u8> = Vec::new();
        bytes.push(u8::from(self.message_type));
        bytes.push(self.ping_id);
        assert(bytes@ =~= self.wire());
        bytes
    }

    /// Reads a PING: its identifier is the second byte.
    pub fn from(buffer: &[u8]) -> (r: RQ_Ping)
        requires
            buffer@.len() >= 2,
        ensures
            r.message_type == MessageType::PING,
            r.ping_id == buffer@[1],
    {
        RQ_Ping { message_type: MessageType::PING, ping_id: buffer[1] }
    }
}

//===== Sent to answer a PING
pub struct RQ_Pong {
    pub message_type: MessageType,
    pub ping_id: u8,
}

impl RQ_Pong {
    /// Bytes written by `as_bytes`.
    pub open spec fn wire(&self) -> Seq<u8> {
        seq![message_type_to_byte(self.message_type), self.ping_id]
    }

    /// Builds the answer to the PING `ping_id`, as a `RQ_Ping` of kind
    /// PONG.
    pub fn new(ping_id: u8) -> (r: RQ_Ping)
        ensures
            r.message_type == MessageType::PONG,
            r.ping_id == ping_id,
    {
        RQ_Ping { message_type: MessageType::PONG, ping_id }
    }

    /// Encodes the datagram on two bytes.
    pub fn as_bytes(&self) -> (r: Vec<u8>)
        ensures
            r@ == self.wire(),
    {
        let mut bytes: Vec<u8> = Vec::new();
        bytes.push(u8::from(self.message_type));
        bytes.push(self.ping_id);
        assert(bytes@ =~= self.wire());
        bytes
    }

    /// Reads a PONG: its identifier is the second byte.
    pub fn from(buffer: &[u8]) -> (r: RQ_Pong)
        requires
            buffer@.len() >= 2,
        ensures
            r.message_type == MessageType::PONG,
            r.ping_id == buffer@[1],
    {
        RQ_Pong { message_type: MessageType::PONG, ping_id: buffer[1] }
    }
}

//===== Sent to close the connection
pub struct RQ_Shutdown {
    pub message_type: MessageType,
    pub reason: EndConnexionReason,
}

impl RQ_Shutdown {
    /// Bytes written by `as_bytes`.
    pub open spec fn wire(&self) -> Seq<u8> {
        seq![message_type_to_byte(self.message_type), end_connexion_reason_to_byte(self.reason)]
    }

    /// Builds a SHUTDOWN giving `reason`.
    pub fn new(reason: EndConnexionReason) -> (r: RQ_Shutdown)
        ensures
            r.message_type == MessageType::SHUTDOWN,
            r.reason == reason,
    {
        RQ_Shutdown { message_type: MessageType::SHUTDOWN, reason }
    }

    /// Encodes the datagram on two bytes.
    pub fn as_bytes(&self) -> (r: Vec<u8>)
        ensures
            r@ == self.wire(),
    {
        let mut bytes: Vec<u8> = Vec::new();
        bytes.push(u8::from(self.message_type));
        bytes.push(u8::from(self.reason));
        assert(bytes@ =~= self.wire());
        bytes
    }

    /// Reads a SHUTDOWN: its reason is the second byte.
    pub fn from(buffer: &[u8]) -> (r: RQ_Shutdown)
        requires
            buffer@.len() >= 2,
        ensures
            r.message_type == MessageType::SHUTDOWN,
            r.reason == end_connexion_reason_from_byte(buffer@[1]),
    {
        RQ_Shutdown { message_type: MessageType::SHUTDOWN, reason: EndConnexionReason::from(buffer[1]) }
    }
}

/// Reading back what `as_bytes` writes gives the same reason.
pub proof fn lemma_shutdown_roundtrip(d: RQ_Shutdown)
    ensures
        d.wire().len() == 2,
        end_connexion_reason_from_byte(d.wire()[1]) == d.reason,
{
    lemma_end_connexion_reason_code_roundtrip(d.reason);
}

//===== Sent to open a stream
pub struct RQ_OpenStream {
    pub message_type: MessageType,
    pub stream_type: StreamType,
}

impl RQ_OpenStream {
    /// Bytes written by `as_bytes`.
    pub open spec fn wire(&self) -> Seq<u8> {
        seq![message_type_to_byte(self.message_type), stream_type_to_byte(self.stream_type)]
    }

    /// Builds an OPEN_STREAM for a stream of kind `stream_type`.
    pub fn new(stream_type: StreamType) -> (r: RQ_OpenStream)
        ensures
            r.message_type == MessageType::OPEN_STREAM,
            r.stream_type == stream_type,
    {
        RQ_OpenStream { message_type: MessageType::OPEN_STREAM, stream_type }
    }

    /// Encodes the datagram on two bytes.
    pub fn as_bytes(&self) -> (r: Vec<u8>)
        ensures
            r@ == self.wire(),
    {
        let mut bytes: Vec<u8> = Vec::new();
        bytes.push(u8::from(self.message_type));
        bytes.push(u8::from(self.stream_type));
        assert(bytes@ =~= self.wire());
        bytes
    }

    /// Reads an OPEN_STREAM: the kind of stream is the second byte.
    pub fn from(buffer: &[u8]) -> (r: RQ_OpenStream)
        requires
            buffer@.len() >= 2,
        ensures
            r.message_type == MessageType::OPEN_STREAM,
            r.stream_type == stream_type_from_byte(buffer@[1]),
    {
        RQ_OpenStream { message_type: MessageType::OPEN_STREAM, stream_type: StreamType::from(buffer[1]) }
    }
}

/// Reading back what `as_bytes` writes gives the same kind of stream.
pub proof fn lemma_open_stream_roundtrip(d: RQ_OpenStream)
    ensures
        d.wire().len() == 2,
        stream_type_from_byte(d.wire()[1]) == d.stream_type,
{
    lemma_stream_type_code_roundtrip(d.stream_type);
}

//===== Sent to subscribe to or unsubscribe from a topic
pub struct RQ_TopicRequest {
    pub message_type: MessageType,
    pub action: TopicsAction,
    pub topic_id: u64,
}

impl RQ_TopicRequest {
    /// Bytes written by `as_bytes`: the topic is written big-endian.
    pub open spec fn wire(&self) -> Seq<u8> {
        seq![message_type_to_byte(self.message_type), topics_action_to_byte(self.action)] + be64(
            self.topic_id,
        )
    }

    /// Builds a request on `topic_id`.
    pub fn new(action: TopicsAction, topic_id: u64) -> (r: RQ_TopicRequest)
        ensures
            r.message_type == MessageType::TOPIC_REQUEST,
            r.action == action,
            r.topic_id == topic_id,
    {
        RQ_TopicRequest { message_type: MessageType::TOPIC_REQUEST, action, topic_id }
    }

    /// Encodes the datagram on ten bytes.
    pub fn as_bytes(&self) -> (r: Vec<u8>)
        ensures
            r@ == self.wire(),
    {
        let mut bytes: Vec<u8> = Vec::new();
        bytes.push(u8::from(self.message_type));
        bytes.push(u8::from(self.action));
        push_u64_be(&mut bytes, self.topic_id);
        assert(bytes@ =~= self.wire());
        bytes
    }
}

//===== Sent to acknowledge a TOPIC_REQUEST
pub struct RQ_TopicRequest_ACK {
    pub message_type: MessageType,
    pub status: TopicsResponse,
    pub topic_id: u64,
}

impl RQ_TopicRequest_ACK {
    /// Bytes written by `as_bytes`: the topic is written big-endian.
    pub open spec fn wire(&self) -> Seq<u8> {
        seq![message_type_to_byte(self.message_type), topics_response_to_byte(self.status)] + be64(
            self.topic_id,
        )
    }

    /// Builds the acknowledgement of a request on `topic_id`.
    pub fn new(status: TopicsResponse, topic_id: u64) -> (r: RQ_TopicRequest_ACK)
        ensures
            r.message_type == MessageType::TOPIC_REQUEST_ACK,
            r.status == status,
            r.topic_id == topic_id,
    {
        RQ_TopicRequest_ACK { message_type: MessageType::TOPIC_REQUEST_ACK, status, topic_id }
    }

    /// Encodes the datagram on ten bytes.
    pub fn as_bytes(&self) -> (r: Vec<u8>)
        ensures
            r@ == self.wire(),
    {
        let mut bytes: Vec<u8> = Vec::new();
        bytes.push(u8::from(self.message_type));
        bytes.push(u8::from(self.status));
        push_u64_be(&mut bytes, self.topic_id);
        assert(bytes@ =~= self.wire());
        bytes
    }
}

/// The identifier that a successful CONNECT_ACK gives the peer, at offset
/// 2; reading any other answer is a failure of the connection.
pub fn connect_response_peer_id(buffer: &[u8]) -> (r: u64)
    requires
        buffer@.len() >= 10,
        message_type_from_byte(buffer@[0]) == MessageType::CONNECT_ACK,
        crate::proto::enums::connect_status_from_byte(buffer@[1]) == ConnectStatus::SUCCESS,
    ensures
        r == crate::messages::datagrams::u64_at(buffer@, 2),
{
    read_u64_le(buffer, 2)
}

pub use crate::messages::object_id::generate_object_id;

} // verus!
