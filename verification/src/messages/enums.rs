//! Codes of the datagram fields: each enum converts to and from the
//! byte that stands for it on the wire.

use vstd::prelude::*;

verus! {

/// Kind of a datagram, carried in its first byte.
#[derive(Copy, Clone, Debug, PartialEq, Eq, Structural)]
#[allow(non_camel_case_types)]
pub enum MessageType {
    CONNECT,
    CONNECT_ACK,
    OPEN_STREAM,
    SHUTDOWN,
    HEARTBEAT,
    HEARTBEAT_REQUEST,
    PING,
    PONG,
    TOPIC_REQUEST,
    TOPIC_REQUEST_ACK,
    TOPIC_REQUEST_NACK,
    OBJECT_REQUEST,
    OBJECT_REQUEST_ACK,
    OBJECT_REQUEST_NACK,
    DATA,
    SERVER_STATUS,
    SERVER_STATUS_ACK,
    UNKNOWN,
}

/// The variant that the code `b` stands for.
pub open spec fn message_type_from_byte(b: u8) -> MessageType {
    if b == 0xF0 {
        MessageType::CONNECT
    } else if b == 0xF1 {
        MessageType::CONNECT_ACK
    } else if b == 0xF2 {
        MessageType::OPEN_STREAM
    } else if b == 0xFF {
        MessageType::SHUTDOWN
    } else if b == 0x01 {
        MessageType::HEARTBEAT
    } else if b == 0x41 {
        MessageType::HEARTBEAT_REQUEST
    } else if b == 0x02 {
        MessageType::PING
    } else if b == 0x42 {
        MessageType::PONG
    } else if b == 0x07 {
        MessageType::TOPIC_REQUEST
    } else if b == 0x47 {
        MessageType::TOPIC_REQUEST_ACK
    } else if b == 0x46 {
        MessageType::TOPIC_REQUEST_NACK
    } else if b == 0x08 {
        MessageType::OBJECT_REQUEST
    } else if b == 0x48 {
        MessageType::OBJECT_REQUEST_ACK
    } else if b == 0x49 {
        MessageType::OBJECT_REQUEST_NACK
    } else if b == 0x05 {
        MessageType::DATA
    } else if b == 0x00 {
        MessageType::SERVER_STATUS
    } else if b == 0x40 {
        MessageType::SERVER_STATUS_ACK
    } else {
        MessageType::UNKNOWN
    }
}

/// The code of the variant `v`.
pub open spec fn message_type_to_byte(v: MessageType) -> u8 {
    match v {
        MessageType::CONNECT => 0xF0,
        MessageType::CONNECT_ACK => 0xF1,
        MessageType::OPEN_STREAM => 0xF2,
        MessageType::SHUTDOWN => 0xFF,
        MessageType::HEARTBEAT => 0x01,
        MessageType::HEARTBEAT_REQUEST => 0x41,
        MessageType::PING => 0x02,
        MessageType::PONG => 0x42,
        MessageType::TOPIC_REQUEST => 0x07,
        MessageType::TOPIC_REQUEST_ACK => 0x47,
        MessageType::TOPIC_REQUEST_NACK => 0x46,
        MessageType::OBJECT_REQUEST => 0x08,
        MessageType::OBJECT_REQUEST_ACK => 0x48,
        MessageType::OBJECT_REQUEST_NACK => 0x49,
        MessageType::DATA => 0x05,
        MessageType::SERVER_STATUS => 0x00,
        MessageType::SERVER_STATUS_ACK => 0x40,
        MessageType::UNKNOWN => 0xAA,
    }
}

impl From<u8> for MessageType {
    fn from(value: u8) -> (r: MessageType) {
        match value {
            0xF0 => MessageType::CONNECT,
            0xF1 => MessageType::CONNECT_ACK,
            0xF2 => MessageType::OPEN_STREAM,
            0xFF => MessageType::SHUTDOWN,
            0x01 => MessageType::HEARTBEAT,
            0x41 => MessageType::HEARTBEAT_REQUEST,
            0x02 => MessageType::PING,
            0x42 => MessageType::PONG,
            0x07 => MessageType::TOPIC_REQUEST,
            0x47 => MessageType::TOPIC_REQUEST_ACK,
            0x46 => MessageType::TOPIC_REQUEST_NACK,
            0x08 => MessageType::OBJECT_REQUEST,
            0x48 => MessageType::OBJECT_REQUEST_ACK,
            0x49 => MessageType::OBJECT_REQUEST_NACK,
            0x05 => MessageType::DATA,
            0x00 => MessageType::SERVER_STATUS,
            0x40 => MessageType::SERVER_STATUS_ACK,
            _ => MessageType::UNKNOWN,
        }
    }
}

impl vstd::std_specs::convert::FromSpecImpl<u8> for MessageType {
    open spec fn obeys_from_spec() -> bool {
        true
    }

    open spec fn from_spec(v: u8) -> MessageType {
        message_type_from_byte(v)
    }
}

impl From<MessageType> for u8 {
    fn from(value: MessageType) -> (r: u8) {
        match value {
            MessageType::CONNECT => 0xF0,
            MessageType::CONNECT_ACK => 0xF1,
            MessageType::OPEN_STREAM => 0xF2,
            MessageType::SHUTDOWN => 0xFF,
            MessageType::HEARTBEAT => 0x01,
            MessageType::HEARTBEAT_REQUEST => 0x41,
            MessageType::PING => 0x02,
            MessageType::PONG => 0x42,
            MessageType::TOPIC_REQUEST => 0x07,
            MessageType::TOPIC_REQUEST_ACK => 0x47,
            MessageType::TOPIC_REQUEST_NACK => 0x46,
            MessageType::OBJECT_REQUEST => 0x08,
            MessageType::OBJECT_REQUEST_ACK => 0x48,
            MessageType::OBJECT_REQUEST_NACK => 0x49,
            MessageType::DATA => 0x05,
            MessageType::SERVER_STATUS => 0x00,
            MessageType::SERVER_STATUS_ACK => 0x40,
            MessageType::UNKNOWN => 0xAA,
        }
    }
}

impl vstd::std_specs::convert::FromSpecImpl<MessageType> for u8 {
    open spec fn obeys_from_spec() -> bool {
        true
    }

    open spec fn from_spec(v: MessageType) -> u8 {
        message_type_to_byte(v)
    }
}

/// Reading back the code of any variant gives that variant.
pub proof fn lemma_message_type_code_roundtrip(v: MessageType)
    ensures
        message_type_from_byte(message_type_to_byte(v)) == v,
{
}

/// Every code that names a variant is the code of the variant it names.
pub proof fn lemma_message_type_byte_roundtrip(b: u8)
    requires
        b == 0xF0 || b == 0xF1 || b == 0xF2 || b == 0xFF || b == 0x01 || b == 0x41 || b == 0x02 || b == 0x42 || b == 0x07 || b == 0x47 || b == 0x46 || b == 0x08 || b == 0x48 || b == 0x49 || b == 0x05 || b == 0x00 || b == 0x40,
    ensures
        message_type_to_byte(message_type_from_byte(b)) == b,
{
}

/// Status carried by a CONNECT_ACK datagram.
#[derive(Copy, Clone, Debug, PartialEq, Eq, Structural)]
#[allow(non_camel_case_types)]
pub enum ConnectStatus {
    SUCCESS,
    FAILURE,
    UNKNOWN,
}

/// The variant that the code `b` stands for.
pub open spec fn connect_status_from_byte(b: u8) -> ConnectStatus {
    if b == 0x00 {
        ConnectStatus::SUCCESS
    } else if b == 0xFF {
        ConnectStatus::FAILURE
    } else {
        ConnectStatus::UNKNOWN
    }
}

/// The code of the variant `v`.
pub open spec fn connect_status_to_byte(v: ConnectStatus) -> u8 {
    match v {
        ConnectStatus::SUCCESS => 0x00,
        ConnectStatus::FAILURE => 0xFF,
        ConnectStatus::UNKNOWN => 0xAA,
    }
}

impl From<u8> for ConnectStatus {
    fn from(value: u8) -> (r: ConnectStatus) {
        match value {
            0x00 => ConnectStatus::SUCCESS,
            0xFF => ConnectStatus::FAILURE,
            _ => ConnectStatus::UNKNOWN,
        }
    }
}

impl vstd::std_specs::convert::FromSpecImpl<u8> for ConnectStatus {
    open spec fn obeys_from_spec() -> bool {
        true
    }

    open spec fn from_spec(v: u8) -> ConnectStatus {
        connect_status_from_byte(v)
    }
}

impl From<ConnectStatus> for u8 {
    fn from(value: ConnectStatus) -> (r: u8) {
        match value {
            ConnectStatus::SUCCESS => 0x00,
            ConnectStatus::FAILURE => 0xFF,
            ConnectStatus::UNKNOWN => 0xAA,
        }
    }
}

impl vstd::std_specs::convert::FromSpecImpl<ConnectStatus> for u8 {
    open spec fn obeys_from_spec() -> bool {
        true
    }

    open spec fn from_spec(v: ConnectStatus) -> u8 {
        connect_status_to_byte(v)
    }
}

/// Reading back the code of any variant gives that variant.
pub proof fn lemma_connect_status_code_roundtrip(v: ConnectStatus)
    ensures
        connect_status_from_byte(connect_status_to_byte(v)) == v,
{
}

/// Every code that names a variant is the code of the variant it names.
pub proof fn lemma_connect_status_byte_roundtrip(b: u8)
    requires
        b == 0x00 || b == 0xFF,
    ensures
        connect_status_to_byte(connect_status_from_byte(b)) == b,
{
}

/// Reason given by a SHUTDOWN datagram.
#[derive(Copy, Clone, Debug, PartialEq, Eq, Structural)]
#[allow(non_camel_case_types)]
pub enum EndConnexionReason {
    SHUTDOWN,
    ERROR,
    SYNC_ERROR,
    UNKNOWN,
}

/// The variant that the code `b` stands for.
pub open spec fn end_connexion_reason_from_byte(b: u8) -> EndConnexionReason {
    if b == 0x00 {
        EndConnexionReason::SHUTDOWN
    } else if b == 0x01 {
        EndConnexionReason::ERROR
    } else if b == 0x02 {
        EndConnexionReason::SYNC_ERROR
    } else {
        EndConnexionReason::UNKNOWN
    }
}

/// The code of the variant `v`.
pub open spec fn end_connexion_reason_to_byte(v: EndConnexionReason) -> u8 {
    match v {
        EndConnexionReason::SHUTDOWN => 0x00,
        EndConnexionReason::ERROR => 0x01,
        EndConnexionReason::SYNC_ERROR => 0x02,
        EndConnexionReason::UNKNOWN => 0xAA,
    }
}

impl From<u8> for EndConnexionReason {
    fn from(value: u8) -> (r: EndConnexionReason) {
        match value {
            0x00 => EndConnexionReason::SHUTDOWN,
            0x01 => EndConnexionReason::ERROR,
            0x02 => EndConnexionReason::SYNC_ERROR,
            _ => EndConnexionReason::UNKNOWN,
        }
    }
}

impl vstd::std_specs::convert::FromSpecImpl<u8> for EndConnexionReason {
    open spec fn obeys_from_spec() -> bool {
        true
    }

    open spec fn from_spec(v: u8) -> EndConnexionReason {
        end_connexion_reason_from_byte(v)
    }
}

impl From<EndConnexionReason> for u8 {
    fn from(value: EndConnexionReason) -> (r: u8) {
        match value {
            EndConnexionReason::SHUTDOWN => 0x00,
            EndConnexionReason::ERROR => 0x01,
            EndConnexionReason::SYNC_ERROR => 0x02,
            EndConnexionReason::UNKNOWN => 0xAA,
        }
    }
}

impl vstd::std_specs::convert::FromSpecImpl<EndConnexionReason> for u8 {
    open spec fn obeys_from_spec() -> bool {
        true
    }

    open spec fn from_spec(v: EndConnexionReason) -> u8 {
        end_connexion_reason_to_byte(v)
    }
}

/// Reading back the code of any variant gives that variant.
pub proof fn lemma_end_connexion_reason_code_roundtrip(v: EndConnexionReason)
    ensures
        end_connexion_reason_from_byte(end_connexion_reason_to_byte(v)) == v,
{
}

/// Every code that names a variant is the code of the variant it names.
pub proof fn lemma_end_connexion_reason_byte_roundtrip(b: u8)
    requires
        b == 0x00 || b == 0x01 || b == 0x02,
    ensures
        end_connexion_reason_to_byte(end_connexion_reason_from_byte(b)) == b,
{
}

/// Action requested by an OBJECT_REQUEST datagram.
#[derive(Copy, Clone, Debug, PartialEq, Eq, Structural)]
#[allow(non_camel_case_types)]
pub enum ObjectFlags {
    CREATE,
    UPDATE,
    DELETE,
    SUBSCRIBE,
    UNSUBSCRIBE,
    UNKNOWN,
}

/// The variant that the code `b` stands for.
pub open spec fn object_flags_from_byte(b: u8) -> ObjectFlags {
    if b == 0x01 {
        ObjectFlags::CREATE
    } else if b == 0x02 {
        ObjectFlags::UPDATE
    } else if b == 0x04 {
        ObjectFlags::DELETE
    } else if b == 0x08 {
        ObjectFlags::SUBSCRIBE
    } else if b == 0x10 {
        ObjectFlags::UNSUBSCRIBE
    } else {
        ObjectFlags::UNKNOWN
    }
}

/// The code of the variant `v`.
pub open spec fn object_flags_to_byte(v: ObjectFlags) -> u8 {
    match v {
        ObjectFlags::CREATE => 0x01,
        ObjectFlags::UPDATE => 0x02,
        ObjectFlags::DELETE => 0x04,
        ObjectFlags::SUBSCRIBE => 0x08,
        ObjectFlags::UNSUBSCRIBE => 0x10,
        ObjectFlags::UNKNOWN => 0xAA,
    }
}

impl From<u8> for ObjectFlags {
    fn from(value: u8) -> (r: ObjectFlags) {
        match value {
            0x01 => ObjectFlags::CREATE,
            0x02 => ObjectFlags::UPDATE,
            0x04 => ObjectFlags::DELETE,
            0x08 => ObjectFlags::SUBSCRIBE,
            0x10 => ObjectFlags::UNSUBSCRIBE,
            _ => ObjectFlags::UNKNOWN,
        }
    }
}

impl vstd::std_specs::convert::FromSpecImpl<u8> for ObjectFlags {
    open spec fn obeys_from_spec() -> bool {
        true
    }

    open spec fn from_spec(v: u8) -> ObjectFlags {
        object_flags_from_byte(v)
    }
}

impl From<ObjectFlags> for u8 {
    fn from(value: ObjectFlags) -> (r: u8) {
        match value {
            ObjectFlags::CREATE => 0x01,
            ObjectFlags::UPDATE => 0x02,
            ObjectFlags::DELETE => 0x04,
            ObjectFlags::SUBSCRIBE => 0x08,
            ObjectFlags::UNSUBSCRIBE => 0x10,
            ObjectFlags::UNKNOWN => 0xAA,
        }
    }
}

impl vstd::std_specs::convert::FromSpecImpl<ObjectFlags> for u8 {
    open spec fn obeys_from_spec() -> bool {
        true
    }

    open spec fn from_spec(v: ObjectFlags) -> u8 {
        object_flags_to_byte(v)
    }
}

/// Reading back the code of any variant gives that variant.
pub proof fn lemma_object_flags_code_roundtrip(v: ObjectFlags)
    ensures
        object_flags_from_byte(object_flags_to_byte(v)) == v,
{
}

/// Every code that names a variant is the code of the variant it names.
pub proof fn lemma_object_flags_byte_roundtrip(b: u8)
    requires
        b == 0x01 || b == 0x02 || b == 0x04 || b == 0x08 || b == 0x10,
    ensures
        object_flags_to_byte(object_flags_from_byte(b)) == b,
{
}

/// Origin of an object identifier, held in its two most significant bits.
#[derive(Copy, Clone, Debug, PartialEq, Eq, Structural)]
#[allow(non_camel_case_types)]
pub enum ObjectIdentifierType {
    USER_GENERATED,
    BROKER_GENERATED,
    TEMPORARY,
    UNKNOWN,
}

/// The variant that the code `b` stands for.
pub open spec fn object_identifier_type_from_byte(b: u8) -> ObjectIdentifierType {
    if b == 0x00 {
        ObjectIdentifierType::USER_GENERATED
    } else if b == 0x01 {
        ObjectIdentifierType::BROKER_GENERATED
    } else if b == 0x10 {
        ObjectIdentifierType::TEMPORARY
    } else {
        ObjectIdentifierType::UNKNOWN
    }
}

/// The code of the variant `v`.
pub open spec fn object_identifier_type_to_byte(v: ObjectIdentifierType) -> u8 {
    match v {
        ObjectIdentifierType::USER_GENERATED => 0x00,
        ObjectIdentifierType::BROKER_GENERATED => 0x01,
        ObjectIdentifierType::TEMPORARY => 0x10,
        ObjectIdentifierType::UNKNOWN => 0xAA,
    }
}

impl From<u8> for ObjectIdentifierType {
    fn from(value: u8) -> (r: ObjectIdentifierType) {
        match value {
            0x00 => ObjectIdentifierType::USER_GENERATED,
            0x01 => ObjectIdentifierType::BROKER_GENERATED,
            0x10 => ObjectIdentifierType::TEMPORARY,
            _ => ObjectIdentifierType::UNKNOWN,
        }
    }
}

impl vstd::std_specs::convert::FromSpecImpl<u8> for ObjectIdentifierType {
    open spec fn obeys_from_spec() -> bool {
        true
    }

    open spec fn from_spec(v: u8) -> ObjectIdentifierType {
        object_identifier_type_from_byte(v)
    }
}

impl From<ObjectIdentifierType> for u8 {
    fn from(value: ObjectIdentifierType) -> (r: u8) {
        match value {
            ObjectIdentifierType::USER_GENERATED => 0x00,
            ObjectIdentifierType::BROKER_GENERATED => 0x01,
            ObjectIdentifierType::TEMPORARY => 0x10,
            ObjectIdentifierType::UNKNOWN => 0xAA,
        }
    }
}

impl vstd::std_specs::convert::FromSpecImpl<ObjectIdentifierType> for u8 {
    open spec fn obeys_from_spec() -> bool {
        true
    }

    open spec fn from_spec(v: ObjectIdentifierType) -> u8 {
        object_identifier_type_to_byte(v)
    }
}

/// Reading back the code of any variant gives that variant.
pub proof fn lemma_object_identifier_type_code_roundtrip(v: ObjectIdentifierType)
    ensures
        object_identifier_type_from_byte(object_identifier_type_to_byte(v)) == v,
{
}

/// Every code that names a variant is the code of the variant it names.
pub proof fn lemma_object_identifier_type_byte_roundtrip(b: u8)
    requires
        b == 0x00 || b == 0x01 || b == 0x10,
    ensures
        object_identifier_type_to_byte(object_identifier_type_from_byte(b)) == b,
{
}

/// Kind of stream opened by an OPEN_STREAM datagram.
#[derive(Copy, Clone, Debug, PartialEq, Eq, Structural)]
#[allow(non_camel_case_types)]
pub enum StreamType {
    MANAGEMENT,
    RELIABLE,
    UNRELIABLE,
    UNKNOWN,
}

/// The variant that the code `b` stands for.
pub open spec fn stream_type_from_byte(b: u8) -> StreamType {
    if b == 0x00 {
        StreamType::MANAGEMENT
    } else if b == 0x01 {
        StreamType::RELIABLE
    } else if b == 0x02 {
        StreamType::UNRELIABLE
    } else {
        StreamType::UNKNOWN
    }
}

/// The code of the variant `v`.
pub open spec fn stream_type_to_byte(v: StreamType) -> u8 {
    match v {
        StreamType::MANAGEMENT => 0x00,
        StreamType::RELIABLE => 0x01,
        StreamType::UNRELIABLE => 0x02,
        StreamType::UNKNOWN => 0xAA,
    }
}

impl From<u8> for StreamType {
    fn from(value: u8) -> (r: StreamType) {
        match value {
            0x00 => StreamType::MANAGEMENT,
            0x01 => StreamType::RELIABLE,
            0x02 => StreamType::UNRELIABLE,
            _ => StreamType::UNKNOWN,
        }
    }
}

impl vstd::std_specs::convert::FromSpecImpl<u8> for StreamType {
    open spec fn obeys_from_spec() -> bool {
        true
    }

    open spec fn from_spec(v: u8) -> StreamType {
        stream_type_from_byte(v)
    }
}

impl From<StreamType> for u8 {
    fn from(value: StreamType) -> (r: u8) {
        match value {
            StreamType::MANAGEMENT => 0x00,
            StreamType::RELIABLE => 0x01,
            StreamType::UNRELIABLE => 0x02,
            StreamType::UNKNOWN => 0xAA,
        }
    }
}

impl vstd::std_specs::convert::FromSpecImpl<StreamType> for u8 {
    open spec fn obeys_from_spec() -> bool {
        true
    }

    open spec fn from_spec(v: StreamType) -> u8 {
        stream_type_to_byte(v)
    }
}

/// Reading back the code of any variant gives that variant.
pub proof fn lemma_stream_type_code_roundtrip(v: StreamType)
    ensures
        stream_type_from_byte(stream_type_to_byte(v)) == v,
{
}

/// Every code that names a variant is the code of the variant it names.
pub proof fn lemma_stream_type_byte_roundtrip(b: u8)
    requires
        b == 0x00 || b == 0x01 || b == 0x02,
    ensures
        stream_type_to_byte(stream_type_from_byte(b)) == b,
{
}

/// Action requested by a TOPIC_REQUEST datagram.
#[derive(Copy, Clone, Debug, PartialEq, Eq, Structural)]
#[allow(non_camel_case_types)]
pub enum TopicsAction {
    SUBSCRIBE,
    UNSUBSCRIBE,
    UNKNOWN,
}

/// The variant that the code `b` stands for.
pub open spec fn topics_action_from_byte(b: u8) -> TopicsAction {
    if b == 0x00 {
        TopicsAction::SUBSCRIBE
    } else if b == 0xFF {
        TopicsAction::UNSUBSCRIBE
    } else {
        TopicsAction::UNKNOWN
    }
}

/// The code of the variant `v`.
pub open spec fn topics_action_to_byte(v: TopicsAction) -> u8 {
    match v {
        TopicsAction::SUBSCRIBE => 0x00,
        TopicsAction::UNSUBSCRIBE => 0xFF,
        TopicsAction::UNKNOWN => 0xAA,
    }
}

impl From<u8> for TopicsAction {
    fn from(value: u8) -> (r: TopicsAction) {
        match value {
            0x00 => TopicsAction::SUBSCRIBE,
            0xFF => TopicsAction::UNSUBSCRIBE,
            _ => TopicsAction::UNKNOWN,
        }
    }
}

impl vstd::std_specs::convert::FromSpecImpl<u8> for TopicsAction {
    open spec fn obeys_from_spec() -> bool {
        true
    }

    open spec fn from_spec(v: u8) -> TopicsAction {
        topics_action_from_byte(v)
    }
}

impl From<TopicsAction> for u8 {
    fn from(value: TopicsAction) -> (r: u8) {
        match value {
            TopicsAction::SUBSCRIBE => 0x00,
            TopicsAction::UNSUBSCRIBE => 0xFF,
            TopicsAction::UNKNOWN => 0xAA,
        }
    }
}

impl vstd::std_specs::convert::FromSpecImpl<TopicsAction> for u8 {
    open spec fn obeys_from_spec() -> bool {
        true
    }

    open spec fn from_spec(v: TopicsAction) -> u8 {
        topics_action_to_byte(v)
    }
}

/// Reading back the code of any variant gives that variant.
pub proof fn lemma_topics_action_code_roundtrip(v: TopicsAction)
    ensures
        topics_action_from_byte(topics_action_to_byte(v)) == v,
{
}

/// Every code that names a variant is the code of the variant it names.
pub proof fn lemma_topics_action_byte_roundtrip(b: u8)
    requires
        b == 0x00 || b == 0xFF,
    ensures
        topics_action_to_byte(topics_action_from_byte(b)) == b,
{
}

/// Answer given to a TOPIC_REQUEST datagram.
#[derive(Copy, Clone, Debug, PartialEq, Eq, Structural)]
#[allow(non_camel_case_types)]
pub enum TopicsResponse {
    SUCCESS_SUB,
    FAILURE_SUB,
    SUCCESS_USUB,
    FAILURE_USUB,
    UNKNOWN,
}

/// The variant that the code `b` stands for.
pub open spec fn topics_response_from_byte(b: u8) -> TopicsResponse {
    if b == 0x00 {
        TopicsResponse::SUCCESS_SUB
    } else if b == 0x0F {
        TopicsResponse::SUCCESS_USUB
    } else if b == 0xF0 {
        TopicsResponse::FAILURE_SUB
    } else if b == 0xFF {
        TopicsResponse::FAILURE_USUB
    } else {
        TopicsResponse::UNKNOWN
    }
}

/// The code of the variant `v`.
pub open spec fn topics_response_to_byte(v: TopicsResponse) -> u8 {
    match v {
        TopicsResponse::SUCCESS_SUB => 0x00,
        TopicsResponse::FAILURE_SUB => 0xF0,
        TopicsResponse::SUCCESS_USUB => 0x0F,
        TopicsResponse::FAILURE_USUB => 0xFF,
        TopicsResponse::UNKNOWN => 0xAA,
    }
}

impl From<u8> for TopicsResponse {
    fn from(value: u8) -> (r: TopicsResponse) {
        match value {
            0x00 => TopicsResponse::SUCCESS_SUB,
            0x0F => TopicsResponse::SUCCESS_USUB,
            0xF0 => TopicsResponse::FAILURE_SUB,
            0xFF => TopicsResponse::FAILURE_USUB,
            _ => TopicsResponse::UNKNOWN,
        }
    }
}

impl vstd::std_specs::convert::FromSpecImpl<u8> for TopicsResponse {
    open spec fn obeys_from_spec() -> bool {
        true
    }

    open spec fn from_spec(v: u8) -> TopicsResponse {
        topics_response_from_byte(v)
    }
}

impl From<TopicsResponse> for u8 {
    fn from(value: TopicsResponse) -> (r: u8) {
        match value {
            TopicsResponse::SUCCESS_SUB => 0x00,
            TopicsResponse::FAILURE_SUB => 0xF0,
            TopicsResponse::SUCCESS_USUB => 0x0F,
            TopicsResponse::FAILURE_USUB => 0xFF,
            TopicsResponse::UNKNOWN => 0xAA,
        }
    }
}

impl vstd::std_specs::convert::FromSpecImpl<TopicsResponse> for u8 {
    open spec fn obeys_from_spec() -> bool {
        true
    }

    open spec fn from_spec(v: TopicsResponse) -> u8 {
        topics_response_to_byte(v)
    }
}

/// Reading back the code of any variant gives that variant.
pub proof fn lemma_topics_response_code_roundtrip(v: TopicsResponse)
    ensures
        topics_response_from_byte(topics_response_to_byte(v)) == v,
{
}

/// Every code that names a variant is the code of the variant it names.
pub proof fn lemma_topics_response_byte_roundtrip(b: u8)
    requires
        b == 0x00 || b == 0x0F || b == 0xF0 || b == 0xFF,
    ensures
        topics_response_to_byte(topics_response_from_byte(b)) == b,
{
}

/// Printable name of a datagram kind.
pub open spec fn message_type_name(message: MessageType) -> Seq<char> {
    match message {
        MessageType::CONNECT => "Connect"@,
        MessageType::CONNECT_ACK => "Connect_ACK"@,
        MessageType::OPEN_STREAM => "Open_Stream"@,
        MessageType::SHUTDOWN => "Shutdown"@,
        MessageType::HEARTBEAT => "HeartBeat"@,
        MessageType::HEARTBEAT_REQUEST => "HeartBeat_Request"@,
        MessageType::PING => "Ping"@,
        MessageType::PONG => "Pong"@,
        MessageType::TOPIC_REQUEST => "Topic_Request"@,
        MessageType::TOPIC_REQUEST_ACK => "Topic_Request_Ack"@,
        MessageType::TOPIC_REQUEST_NACK => "Topic_Request_Nack"@,
        MessageType::OBJECT_REQUEST => "Object_Request"@,
        MessageType::OBJECT_REQUEST_ACK => "Object_Request_Ack"@,
        MessageType::OBJECT_REQUEST_NACK => "Object_Request_Nack"@,
        MessageType::DATA => "Data"@,
        MessageType::SERVER_STATUS => "Server_Status"@,
        MessageType::SERVER_STATUS_ACK => "Server_Status_Ack"@,
        MessageType::UNKNOWN => "Unknown"@,
    }
}

/// Returns the printable name of the datagram kind `message`.
pub fn display_message_type<'a>(message: MessageType) -> (r: &'a str)
    ensures
        r@ == message_type_name(message),
{
    match message {
        MessageType::CONNECT => "Connect",
        MessageType::CONNECT_ACK => "Connect_ACK",
        MessageType::OPEN_STREAM => "Open_Stream",
        MessageType::SHUTDOWN => "Shutdown",
        MessageType::HEARTBEAT => "HeartBeat",
        MessageType::HEARTBEAT_REQUEST => "HeartBeat_Request",
        MessageType::PING => "Ping",
        MessageType::PONG => "Pong",
        MessageType::TOPIC_REQUEST => "Topic_Request",
        MessageType::TOPIC_REQUEST_ACK => "Topic_Request_Ack",
        MessageType::TOPIC_REQUEST_NACK => "Topic_Request_Nack",
        MessageType::OBJECT_REQUEST => "Object_Request",
        MessageType::OBJECT_REQUEST_ACK => "Object_Request_Ack",
        MessageType::OBJECT_REQUEST_NACK => "Object_Request_Nack",
        MessageType::DATA => "Data",
        MessageType::SERVER_STATUS => "Server_Status",
        MessageType::SERVER_STATUS_ACK => "Server_Status_Ack",
        MessageType::UNKNOWN => "Unknown",
    }
}

} // verus!
