//! Codes of the datagram fields: each enum converts to and from the
//! byte that stands for it on the wire.
#![allow(non_camel_case_types)]

use vstd::prelude::*;

verus! {

/// Kind of a datagram, carried in its first byte.
#[derive(Copy, Clone, Debug, PartialEq, Eq, Structural)]
#[allow(non_camel_case_types)]
pub enum MessageType {
    CONNECT,
    CONNECT_ACK,
    OPEN_STREAM,
    SHUTDOWN,
    HEARTBEAT,
    HEARTBEAT_REQUEST,
    PING,
    PONG,
    TOPIC_REQUEST,
    TOPIC_REQUEST_ACK,
    OBJECT_REQUEST,
    OBJECT_REQUEST_ACK,
    DATA,
    UNKNOWN,
}

/// The variant that the code `b` stands for.
pub open spec fn message_type_from_byte(b: u8) -> MessageType {
    if b == 0xF0 {
        MessageType::CONNECT
    } else if b == 0xF1 {
        MessageType::CONNECT_ACK
    } else if b == 0xF2 {
        MessageType::OPEN_STREAM
    } else if b == 0xFF {
        MessageType::SHUTDOWN
    } else if b == 0x01 {
        MessageType::HEARTBEAT
    } else if b == 0x41 {
        MessageType::HEARTBEAT_REQUEST
    } else if b == 0x02 {
        MessageType::PING
    } else if b == 0x42 {
        MessageType::PONG
    } else if b == 0x07 {
        MessageType::TOPIC_REQUEST
    } else if b == 0x47 {
        MessageType::TOPIC_REQUEST_ACK
    } else if b == 0x08 {
        MessageType::OBJECT_REQUEST
    } else if b == 0x48 {
        MessageType::OBJECT_REQUEST_ACK
    } else if b == 0x05 {
        MessageType::DATA
    } else {
        MessageType::UNKNOWN
    }
}

/// The code of the variant `v`.
pub open spec fn message_type_to_byte(v: MessageType) -> u8 {
    match v {
        MessageType::CONNECT => 0xF0,
        MessageType::CONNECT_ACK => 0xF1,
        MessageType::OPEN_STREAM => 0xF2,
        MessageType::SHUTDOWN => 0xFF,
        MessageType::HEARTBEAT => 0x01,
        MessageType::HEARTBEAT_REQUEST => 0x41,
        MessageType::PING => 0x02,
        MessageType::PONG => 0x42,
        MessageType::TOPIC_REQUEST => 0x07,
        MessageType::TOPIC_REQUEST_ACK => 0x47,
        MessageType::OBJECT_REQUEST => 0x08,
        MessageType::OBJECT_REQUEST_ACK => 0x48,
        MessageType::DATA => 0x05,
        MessageType::UNKNOWN => 0xAA,
    }
}

impl From<u8> for MessageType {
    fn from(value: u8) -> (r: MessageType) {
        match value {
            0xF0 => MessageType::CONNECT,
            0xF1 => MessageType::CONNECT_ACK,
            0xF2 => MessageType::OPEN_STREAM,
            0xFF => MessageType::SHUTDOWN,
            0x01 => MessageType::HEARTBEAT,
            0x41 => MessageType::HEARTBEAT_REQUEST,
            0x02 => MessageType::PING,
            0x42 => MessageType::PONG,
            0x07 => MessageType::TOPIC_REQUEST,
            0x47 => MessageType::TOPIC_REQUEST_ACK,
            0x08 => MessageType::OBJECT_REQUEST,
            0x48 => MessageType::OBJECT_REQUEST_ACK,
            0x05 => MessageType::DATA,
            _ => MessageType::UNKNOWN,
        }
    }
}

impl vstd::std_specs::convert::FromSpecImpl<u8> for MessageType {
    open spec fn obeys_from_spec() -> bool {
        true
    }

    open spec fn from_spec(v: u8) -> MessageType {
        message_type_from_byte(v)
    }
}

impl From<MessageType> for u8 {
    fn from(value: MessageType) -> (r: u8) {
        match value {
            MessageType::CONNECT => 0xF0,
            MessageType::CONNECT_ACK => 0xF1,
            MessageType::OPEN_STREAM => 0xF2,
            MessageType::SHUTDOWN => 0xFF,
            MessageType::HEARTBEAT => 0x01,
            MessageType::HEARTBEAT_REQUEST => 0x41,
            MessageType::PING => 0x02,
            MessageType::PONG => 0x42,
            MessageType::TOPIC_REQUEST => 0x07,
            MessageType::TOPIC_REQUEST_ACK => 0x47,
            MessageType::OBJECT_REQUEST => 0x08,
            MessageType::OBJECT_REQUEST_ACK => 0x48,
            MessageType::DATA => 0x05,
            MessageType::UNKNOWN => 0xAA,
        }
    }
}

impl vstd::std_specs::convert::FromSpecImpl<MessageType> for u8 {
    open spec fn obeys_from_spec() -> bool {
        true
    }

    open spec fn from_spec(v: MessageType) -> u8 {
        message_type_to_byte(v)
    }
}

/// Reading back the code of any variant gives that variant.
pub proof fn lemma_message_type_code_roundtrip(v: MessageType)
    ensures
        message_type_from_byte(message_type_to_byte(v)) == v,
{
}

/// Every code that names a variant is the code of the variant it names.
pub proof fn lemma_message_type_byte_roundtrip(b: u8)
    requires
        b == 0xF0 || b == 0xF1 || b == 0xF2 || b == 0xFF || b == 0x01 || b == 0x41 || b == 0x02 || b == 0x42 || b == 0x07 || b == 0x47 || b == 0x08 || b == 0x48 || b == 0x05,
    ensures
        message_type_to_byte(message_type_from_byte(b)) == b,
{
}

/// Status carried by a CONNECT_ACK datagram.
#[derive(Copy, Clone, Debug, PartialEq, Eq, Structural)]
#[allow(non_camel_case_types)]
pub enum ConnectStatus {
    SUCCESS,
    FAILURE,
    UNKNOWN,
}

/// The variant that the code `b` stands for.
pub open spec fn connect_status_from_byte(b: u8) -> ConnectStatus {
    if b == 0x00 {
        ConnectStatus::SUCCESS
    } else if b == 0xFF {
        ConnectStatus::FAILURE
    } else {
        ConnectStatus::UNKNOWN
    }
}

/// The code of the variant `v`.
pub open spec fn connect_status_to_byte(v: ConnectStatus) -> u8 {
    match v {
        ConnectStatus::SUCCESS => 0x00,
        ConnectStatus::FAILURE => 0xFF,
        ConnectStatus::UNKNOWN => 0xAA,
    }
}

impl From<u8> for ConnectStatus {
    fn from(value: u8) -> (r: ConnectStatus) {
        match value {
            0x00 => ConnectStatus::SUCCESS,
            0xFF => ConnectStatus::FAILURE,
            _ => ConnectStatus::UNKNOWN,
        }
    }
}

impl vstd::std_specs::convert::FromSpecImpl<u8> for ConnectStatus {
    open spec fn obeys_from_spec() -> bool {
        true
    }

    open spec fn from_spec(v: u8) -> ConnectStatus {
        connect_status_from_byte(v)
    }
}

impl From<ConnectStatus> for u8 {
    fn from(value: ConnectStatus) -> (r: u8) {
        match value {
            ConnectStatus::SUCCESS => 0x00,
            ConnectStatus::FAILURE => 0xFF,
            ConnectStatus::UNKNOWN => 0xAA,
        }
    }
}

impl vstd::std_specs::convert::FromSpecImpl<ConnectStatus> for u8 {
    open spec fn obeys_from_spec() -> bool {
        true
    }

    open spec fn from_spec(v: ConnectStatus) -> u8 {
        connect_status_to_byte(v)
    }
}

/// Reading back the code of any variant gives that variant.
pub proof fn lemma_connect_status_code_roundtrip(v: ConnectStatus)
    ensures
        connect_status_from_byte(connect_status_to_byte(v)) == v,
{
}

/// Every code that names a variant is the code of the variant it names.
pub proof fn lemma_connect_status_byte_roundtrip(b: u8)
    requires
        b == 0x00 || b == 0xFF,
    ensures
        connect_status_to_byte(connect_status_from_byte(b)) == b,
{
}

/// Reason given by a SHUTDOWN datagram.
#[derive(Copy, Clone, Debug, PartialEq, Eq, Structural)]
#[allow(non_camel_case_types)]
pub enum EndConnexionReason {
    SHUTDOWN,
    ERROR,
    UNKNOWN,
}

/// The variant that the code `b` stands for.
pub open spec fn end_connexion_reason_from_byte(b: u8) -> EndConnexionReason {
    if b == 0x00 {
        EndConnexionReason::SHUTDOWN
    } else if b == 0x01 {
        EndConnexionReason::ERROR
    } else {
        EndConnexionReason::UNKNOWN
    }
}

/// The code of the variant `v`.
pub open spec fn end_connexion_reason_to_byte(v: EndConnexionReason) -> u8 {
    match v {
        EndConnexionReason::SHUTDOWN => 0x00,
        EndConnexionReason::ERROR => 0x01,
        EndConnexionReason::UNKNOWN => 0xAA,
    }
}

impl From<u8> for EndConnexionReason {
    fn from(value: u8) -> (r: EndConnexionReason) {
        match value {
            0x00 => EndConnexionReason::SHUTDOWN,
            0x01 => EndConnexionReason::ERROR,
            _ => EndConnexionReason::UNKNOWN,
        }
    }
}

impl vstd::std_specs::convert::FromSpecImpl<u8> for EndConnexionReason {
    open spec fn obeys_from_spec() -> bool {
        true
    }

    open spec fn from_spec(v: u8) -> EndConnexionReason {
        end_connexion_reason_from_byte(v)
    }
}

impl From<EndConnexionReason> for u8 {
    fn from(value: EndConnexionReason) -> (r: u8) {
        match value {
            EndConnexionReason::SHUTDOWN => 0x00,
            EndConnexionReason::ERROR => 0x01,
            EndConnexionReason::UNKNOWN => 0xAA,
        }
    }
}

impl vstd::std_specs::convert::FromSpecImpl<EndConnexionReason> for u8 {
    open spec fn obeys_from_spec() -> bool {
        true
    }

    open spec fn from_spec(v: EndConnexionReason) -> u8 {
        end_connexion_reason_to_byte(v)
    }
}

/// Reading back the code of any variant gives that variant.
pub proof fn lemma_end_connexion_reason_code_roundtrip(v: EndConnexionReason)
    ensures
        end_connexion_reason_from_byte(end_connexion_reason_to_byte(v)) == v,
{
}

/// Every code that names a variant is the code of the variant it names.
pub proof fn lemma_end_connexion_reason_byte_roundtrip(b: u8)
    requires
        b == 0x00 || b == 0x01,
    ensures
        end_connexion_reason_to_byte(end_connexion_reason_from_byte(b)) == b,
{
}

/// Kind of stream opened by an OPEN_STREAM datagram.
#[derive(Copy, Clone, Debug, PartialEq, Eq, Structural)]
#[allow(non_camel_case_types)]
pub enum StreamType {
    MANAGEMENT,
    RELIABLE,
    UNRELIABLE,
    UNKNOWN,
}

/// The variant that the code `b` stands for.
pub open spec fn stream_type_from_byte(b: u8) -> StreamType {
    if b == 0x00 {
        StreamType::MANAGEMENT
    } else if b == 0x01 {
        StreamType::RELIABLE
    } else if b == 0x02 {
        StreamType::UNRELIABLE
    } else {
        StreamType::UNKNOWN
    }
}

/// The code of the variant `v`.
pub open spec fn stream_type_to_byte(v: StreamType) -> u8 {
    match v {
        StreamType::MANAGEMENT => 0x00,
        StreamType::RELIABLE => 0x01,
        StreamType::UNRELIABLE => 0x02,
        StreamType::UNKNOWN => 0xAA,
    }
}

impl From<u8> for StreamType {
    fn from(value: u8) -> (r: StreamType) {
        match value {
            0x00 => StreamType::MANAGEMENT,
            0x01 => StreamType::RELIABLE,
            0x02 => StreamType::UNRELIABLE,
            _ => StreamType::UNKNOWN,
        }
    }
}

impl vstd::std_specs::convert::FromSpecImpl<u8> for StreamType {
    open spec fn obeys_from_spec() -> bool {
        true
    }

    open spec fn from_spec(v: u8) -> StreamType {
        stream_type_from_byte(v)
    }
}

impl From<StreamType> for u8 {
    fn from(value: StreamType) -> (r: u8) {
        match value {
            StreamType::MANAGEMENT => 0x00,
            StreamType::RELIABLE => 0x01,
            StreamType::UNRELIABLE => 0x02,
            StreamType::UNKNOWN => 0xAA,
        }
    }
}

impl vstd::std_specs::convert::FromSpecImpl<StreamType> for u8 {
    open spec fn obeys_from_spec() -> bool {
        true
    }

    open spec fn from_spec(v: StreamType) -> u8 {
        stream_type_to_byte(v)
    }
}

/// Reading back the code of any variant gives that variant.
pub proof fn lemma_stream_type_code_roundtrip(v: StreamType)
    ensures
        stream_type_from_byte(stream_type_to_byte(v)) == v,
{
}

/// Every code that names a variant is the code of the variant it names.
pub proof fn lemma_stream_type_byte_roundtrip(b: u8)
    requires
        b == 0x00 || b == 0x01 || b == 0x02,
    ensures
        stream_type_to_byte(stream_type_from_byte(b)) == b,
{
}

/// Action requested by a TOPIC_REQUEST datagram.
#[derive(Copy, Clone, Debug, PartialEq, Eq, Structural)]
#[allow(non_camel_case_types)]
pub enum TopicsAction {
    SUBSCRIBE,
    UNSUBSCRIBE,
    UNKNOWN,
}

/// The variant that the code `b` stands for.
pub open spec fn topics_action_from_byte(b: u8) -> TopicsAction {
    if b == 0x00 {
        TopicsAction::SUBSCRIBE
    } else if b == 0xFF {
        TopicsAction::UNSUBSCRIBE
    } else {
        TopicsAction::UNKNOWN
    }
}

/// The code of the variant `v`.
pub open spec fn topics_action_to_byte(v: TopicsAction) -> u8 {
    match v {
        TopicsAction::SUBSCRIBE => 0x00,
        TopicsAction::UNSUBSCRIBE => 0xFF,
        TopicsAction::UNKNOWN => 0xAA,
    }
}

impl From<u8> for TopicsAction {
    fn from(value: u8) -> (r: TopicsAction) {
        match value {
            0x00 => TopicsAction::SUBSCRIBE,
            0xFF => TopicsAction::UNSUBSCRIBE,
            _ => TopicsAction::UNKNOWN,
        }
    }
}

impl vstd::std_specs::convert::FromSpecImpl<u8> for TopicsAction {
    open spec fn obeys_from_spec() -> bool {
        true
    }

    open spec fn from_spec(v: u8) -> TopicsAction {
        topics_action_from_byte(v)
    }
}

impl From<TopicsAction> for u8 {
    fn from(value: TopicsAction) -> (r: u8) {
        match value {
            TopicsAction::SUBSCRIBE => 0x00,
            TopicsAction::UNSUBSCRIBE => 0xFF,
            TopicsAction::UNKNOWN => 0xAA,
        }
    }
}

impl vstd::std_specs::convert::FromSpecImpl<TopicsAction> for u8 {
    open spec fn obeys_from_spec() -> bool {
        true
    }

    open spec fn from_spec(v: TopicsAction) -> u8 {
        topics_action_to_byte(v)
    }
}

/// Reading back the code of any variant gives that variant.
pub proof fn lemma_topics_action_code_roundtrip(v: TopicsAction)
    ensures
        topics_action_from_byte(topics_action_to_byte(v)) == v,
{
}

/// Every code that names a variant is the code of the variant it names.
pub proof fn lemma_topics_action_byte_roundtrip(b: u8)
    requires
        b == 0x00 || b == 0xFF,
    ensures
        topics_action_to_byte(topics_action_from_byte(b)) == b,
{
}

/// Answer given to a TOPIC_REQUEST datagram.
#[derive(Copy, Clone, Debug, PartialEq, Eq, Structural)]
#[allow(non_camel_case_types)]
pub enum TopicsResponse {
    SUCCESS,
    FAILURE,
    UNKNOWN,
}

/// The variant that the code `b` stands for.
pub open spec fn topics_response_from_byte(b: u8) -> TopicsResponse {
    if b == 0x00 {
        TopicsResponse::SUCCESS
    } else if b == 0xF0 {
        TopicsResponse::FAILURE
    } else {
        TopicsResponse::UNKNOWN
    }
}

/// The code of the variant `v`.
pub open spec fn topics_response_to_byte(v: TopicsResponse) -> u8 {
    match v {
        TopicsResponse::SUCCESS => 0x00,
        TopicsResponse::FAILURE => 0xF0,
        TopicsResponse::UNKNOWN => 0xAA,
    }
}

impl From<u8> for TopicsResponse {
    fn from(value: u8) -> (r: TopicsResponse) {
        match value {
            0x00 => TopicsResponse::SUCCESS,
            0xF0 => TopicsResponse::FAILURE,
            _ => TopicsResponse::UNKNOWN,
        }
    }
}

impl vstd::std_specs::convert::FromSpecImpl<u8> for TopicsResponse {
    open spec fn obeys_from_spec() -> bool {
        true
    }

    open spec fn from_spec(v: u8) -> TopicsResponse {
        topics_response_from_byte(v)
    }
}

impl From<TopicsResponse> for u8 {
    fn from(value: TopicsResponse) -> (r: u8) {
        match value {
            TopicsResponse::SUCCESS => 0x00,
            TopicsResponse::FAILURE => 0xF0,
            TopicsResponse::UNKNOWN => 0xAA,
        }
    }
}

impl vstd::std_specs::convert::FromSpecImpl<TopicsResponse> for u8 {
    open spec fn obeys_from_spec() -> bool {
        true
    }

    open spec fn from_spec(v: TopicsResponse) -> u8 {
        topics_response_to_byte(v)
    }
}

/// Reading back the code of any variant gives that variant.
pub proof fn lemma_topics_response_code_roundtrip(v: TopicsResponse)
    ensures
        topics_response_from_byte(topics_response_to_byte(v)) == v,
{
}

/// Every code that names a variant is the code of the variant it names.
pub proof fn lemma_topics_response_byte_roundtrip(b: u8)
    requires
        b == 0x00 || b == 0xF0,
    ensures
        topics_response_to_byte(topics_response_from_byte(b)) == b,
{
}

} // verus!
