use std::collections::HashSet;

use rekt_broker::bytes::{push_decimal, push_u16_le, push_u64_be, push_u64_le, read_u16_le, read_u32_le, read_u64_le};
use rekt_broker::hash::custom_string_hash;
use rekt_broker::messages::common::{get_bytes_from_slice, get_u16_at_pos, get_u32_at_pos, get_u64_at_pos};
use rekt_broker::messages::datagrams::{
    RQ_Connect, RQ_Connect_ACK_ERROR, RQ_Connect_ACK_OK, RQ_Data, RQ_Heartbeat, RQ_Heartbeat_Request,
    RQ_ObjectRequest, RQ_ObjectRequestCreate_ACK, RQ_ObjectRequestDefault_ACK, RQ_ObjectRequest_NACK,
    RQ_OpenStream, RQ_Ping, RQ_Pong, RQ_ServerStatus, RQ_ServerStatus_ACK, RQ_Shutdown, RQ_TopicRequest,
    RQ_TopicRequest_ACK, RQ_TopicRequest_NACK,
};
use rekt_broker::messages::enums::{
    display_message_type, ConnectStatus, EndConnexionReason, MessageType, ObjectFlags,
    ObjectIdentifierType, StreamType, TopicsAction, TopicsResponse,
};
use rekt_broker::messages::log::{display_loglevel, log, LogFilter, LogLevel, LogSource};
use rekt_broker::messages::object_id::{
    flag_byte, generate_object_id, get_object_id_type, mark_as_broker_id, vec_to_u8,
};

#[test]
fn message_type_codes_both_ways() {
    let codes: [(u8, MessageType); 17] = [
        (0xF0, MessageType::CONNECT),
        (0xF1, MessageType::CONNECT_ACK),
        (0xF2, MessageType::OPEN_STREAM),
        (0xFF, MessageType::SHUTDOWN),
        (0x01, MessageType::HEARTBEAT),
        (0x41, MessageType::HEARTBEAT_REQUEST),
        (0x02, MessageType::PING),
        (0x42, MessageType::PONG),
        (0x07, MessageType::TOPIC_REQUEST),
        (0x47, MessageType::TOPIC_REQUEST_ACK),
        (0x46, MessageType::TOPIC_REQUEST_NACK),
        (0x08, MessageType::OBJECT_REQUEST),
        (0x48, MessageType::OBJECT_REQUEST_ACK),
        (0x49, MessageType::OBJECT_REQUEST_NACK),
        (0x05, MessageType::DATA),
        (0x00, MessageType::SERVER_STATUS),
        (0x40, MessageType::SERVER_STATUS_ACK),
    ];
    for (code, kind) in codes {
        assert_eq!(MessageType::from(code), kind);
        assert_eq!(u8::from(kind), code);
    }
    assert_eq!(MessageType::from(0x33), MessageType::UNKNOWN);
    assert_eq!(u8::from(MessageType::UNKNOWN), 0xAA);
}

#[test]
fn other_enum_codes() {
    assert_eq!(ConnectStatus::from(0x00), ConnectStatus::SUCCESS);
    assert_eq!(ConnectStatus::from(0xFF), ConnectStatus::FAILURE);
    assert_eq!(ConnectStatus::from(0x12), ConnectStatus::UNKNOWN);
    assert_eq!(u8::from(EndConnexionReason::SYNC_ERROR), 0x02);
    assert_eq!(EndConnexionReason::from(0x01), EndConnexionReason::ERROR);
    assert_eq!(EndConnexionReason::from(0x09), EndConnexionReason::UNKNOWN);
    assert_eq!(ObjectFlags::from(0x04), ObjectFlags::DELETE);
    assert_eq!(u8::from(ObjectFlags::UNSUBSCRIBE), 0x10);
    assert_eq!(ObjectFlags::from(0x03), ObjectFlags::UNKNOWN);
    assert_eq!(ObjectIdentifierType::from(0x10), ObjectIdentifierType::TEMPORARY);
    assert_eq!(u8::from(ObjectIdentifierType::BROKER_GENERATED), 0x01);
    assert_eq!(StreamType::from(0x02), StreamType::UNRELIABLE);
    assert_eq!(u8::from(StreamType::UNKNOWN), 0xAA);
    assert_eq!(TopicsAction::from(0xFF), TopicsAction::UNSUBSCRIBE);
    assert_eq!(u8::from(TopicsAction::SUBSCRIBE), 0x00);
    assert_eq!(TopicsResponse::from(0x0F), TopicsResponse::SUCCESS_USUB);
    assert_eq!(u8::from(TopicsResponse::FAILURE_SUB), 0xF0);
    assert_eq!(TopicsResponse::from(0x01), TopicsResponse::UNKNOWN);
}

#[test]
fn message_type_names() {
    assert_eq!(display_message_type(MessageType::CONNECT), "Connect");
    assert_eq!(display_message_type(MessageType::TOPIC_REQUEST_NACK), "Topic_Request_Nack");
    assert_eq!(display_message_type(MessageType::UNKNOWN), "Unknown");
    assert_eq!(display_loglevel(LogLevel::Warning), "Warning");
}

#[test]
fn byte_helpers() {
    let mut v: Vec<u8> = Vec::new();
    push_u16_le(&mut v, 0x1234);
    push_u64_le(&mut v, 0x0102030405060708);
    push_u64_be(&mut v, 0x0102030405060708);
    assert_eq!(v, vec![0x34, 0x12, 8, 7, 6, 5, 4, 3, 2, 1, 1, 2, 3, 4, 5, 6, 7, 8]);
    assert_eq!(read_u16_le(&v, 0), 0x1234);
    assert_eq!(read_u64_le(&v, 2), 0x0102030405060708);
    assert_eq!(read_u32_le(&[1, 0, 0, 1], 0), 0x0100_0001);
    let mut d: Vec<u8> = Vec::new();
    push_decimal(&mut d, 0);
    push_decimal(&mut d, 4096);
    assert_eq!(d, b"04096".to_vec());
}

#[test]
fn slices_include_both_bounds() {
    let buf = [10u8, 11, 12, 13, 14, 15, 16, 17, 18, 19];
    assert_eq!(get_bytes_from_slice(&buf, 2, 4), vec![12, 13, 14]);
    assert_eq!(get_bytes_from_slice(&buf, 0, 0), vec![10]);
    assert_eq!(get_u16_at_pos(&buf, 0), Ok(0x0B0A));
    assert_eq!(get_u32_at_pos(&buf, 1), Ok(0x0E0D0C0B));
    assert_eq!(get_u64_at_pos(&buf, 2), Ok(0x131211100F0E0D0C));
}

#[test]
fn fnv_hash_of_known_strings() {
    assert_eq!(custom_string_hash(""), 0xcbf29ce484222325);
    assert_eq!(custom_string_hash("a"), 0xaf63dc4c8601ec8c);
    assert_eq!(custom_string_hash("foobar"), 0x85944171f73967e8);
}

#[test]
fn connect_and_ack_encodings() {
    assert_eq!(RQ_Connect::new().as_bytes(), vec![0xF0]);
    let c = RQ_Connect::try_from(&[0xF0]).unwrap();
    assert_eq!(c.message_type, MessageType::CONNECT);
    assert_eq!(RQ_Connect::try_from(&[]).err(), Some("Payload len is to short for a RQ_Connect."));

    let ack = RQ_Connect_ACK_OK::new(0x0102030405060708, 5);
    let bytes = ack.as_bytes();
    assert_eq!(bytes, vec![0xF1, 0x00, 8, 7, 6, 5, 4, 3, 2, 1, 5, 0]);
    let back = RQ_Connect_ACK_OK::try_from(&bytes).unwrap();
    assert_eq!(back.message_type, MessageType::CONNECT_ACK);
    assert_eq!(back.status, ConnectStatus::SUCCESS);
    assert_eq!(back.peer_id, 0x0102030405060708);
    assert_eq!(back.heartbeat_period, 5);
    assert!(RQ_Connect_ACK_OK::try_from(&bytes[..11]).is_err());
}

#[test]
fn connect_refusal_reads_one_more_byte() {
    let e = RQ_Connect_ACK_ERROR::new("no");
    assert_eq!(e.message_size, 2);
    let bytes = e.as_bytes();
    assert_eq!(bytes, vec![0xF1, 2, 0, 0xFF, b'n', b'o']);
    let mut padded = bytes.clone();
    padded.push(b'!');
    let back = RQ_Connect_ACK_ERROR::try_from(&padded).unwrap();
    assert_eq!(back.message_size, 2);
    assert_eq!(back.status, ConnectStatus::UNKNOWN);
    assert_eq!(back.reason, vec![b'n', b'o', b'!']);
    assert_eq!(
        RQ_Connect_ACK_ERROR::try_from(&[0xF1, 0, 0]).err(),
        Some("Payload len is to short for a RQ_Connect_Ack_Error.")
    );
}

#[test]
fn data_roundtrip() {
    let d = RQ_Data::new(7, 42, vec![1, 2, 3]);
    assert_eq!(d.size, 3);
    let bytes = d.as_bytes();
    assert_eq!(bytes, vec![0x05, 3, 0, 7, 0, 0, 0, 42, 0, 0, 0, 0, 0, 0, 0, 1, 2, 3]);
    let back = RQ_Data::try_from(&bytes).unwrap();
    assert_eq!(back.sequence_number, 7);
    assert_eq!(back.topic_id, 42);
    assert_eq!(back.data, vec![1, 2, 3]);
    assert_eq!(RQ_Data::try_from(&bytes[..14]).err(), Some("Payload len is to short for a RQ_Data."));
}

#[test]
fn one_and_two_byte_datagrams() {
    assert_eq!(RQ_Heartbeat::new().as_bytes(), vec![0x01]);
    assert_eq!(RQ_Heartbeat_Request::new().as_bytes(), vec![0x41]);
    assert_eq!(RQ_Ping::new(9).as_bytes(), vec![0x02, 9]);
    let pong = RQ_Pong::new(9);
    assert_eq!(pong.message_type, MessageType::PONG);
    assert_eq!(pong.as_bytes(), vec![0x42, 9]);
    let p = RQ_Pong::try_from(&[0x42, 200]).unwrap();
    assert_eq!(p.ping_id, 200);
    assert_eq!(RQ_Shutdown::new(EndConnexionReason::SYNC_ERROR).as_bytes(), vec![0xFF, 0x02]);
    let s = RQ_Shutdown::try_from(&[0xFF, 0x00]).unwrap();
    assert_eq!(s.reason, EndConnexionReason::SHUTDOWN);
    assert_eq!(RQ_OpenStream::new(StreamType::RELIABLE).as_bytes(), vec![0xF2, 0x01]);
    assert_eq!(RQ_ServerStatus::new().as_bytes(), vec![0x00]);
    assert!(RQ_Ping::try_from(&[0x02]).is_err());
}

#[test]
fn server_status_ack_roundtrip() {
    let a = RQ_ServerStatus_ACK::new(true, 3);
    let bytes = a.as_bytes();
    assert_eq!(bytes, vec![0x40, 1, 3, 0, 0, 0, 0, 0, 0, 0]);
    let back = RQ_ServerStatus_ACK::try_from(&bytes).unwrap();
    assert!(back.status);
    assert_eq!(back.connected_client, 3);
}

#[test]
fn topic_request_and_answers() {
    let t = RQ_TopicRequest::new(TopicsAction::UNSUBSCRIBE, 0x10);
    let bytes = t.as_bytes();
    assert_eq!(bytes, vec![0x07, 0xFF, 0x10, 0, 0, 0, 0, 0, 0, 0]);
    let back = RQ_TopicRequest::try_from(&bytes).unwrap();
    assert_eq!(back.action, TopicsAction::UNSUBSCRIBE);
    assert_eq!(back.topic_id, 0x10);

    let ack = RQ_TopicRequest_ACK::new(5, TopicsResponse::SUCCESS_SUB);
    let ab = ack.as_bytes();
    assert_eq!(ab, vec![0x47, 0x00, 5, 0, 0, 0, 0, 0, 0, 0]);
    assert_eq!(RQ_TopicRequest_ACK::try_from(&ab).unwrap().topic_id, 5);

    let nack = RQ_TopicRequest_NACK::new(TopicsResponse::FAILURE_SUB, "bad");
    assert_eq!(nack.message_type, MessageType::TOPIC_REQUEST_ACK);
    assert_eq!(nack.size, 3);
    assert_eq!(nack.as_bytes(), vec![0x47, 0xF0, b'b', b'a', b'd']);
    assert_eq!(
        RQ_TopicRequest_NACK::try_from(&[0x47, 0xF0, 1]).err(),
        Some("Payload len is to short for a RQ_TopicRequest.")
    );
}

#[test]
fn object_answers() {
    let c = RQ_ObjectRequestCreate_ACK::new(0x01, 7, 9);
    assert_eq!(c.as_bytes(), vec![0x48, 0x01, 7, 0, 0, 0, 0, 0, 0, 0, 9, 0, 0, 0, 0, 0, 0, 0]);
    let d = RQ_ObjectRequestDefault_ACK::new(0x04, 7);
    assert_eq!(d.as_bytes(), vec![0x48, 0x04, 7, 0, 0, 0, 0, 0, 0, 0]);
    let n = RQ_ObjectRequest_NACK::new(0x02, 7, "no");
    assert_eq!(n.reason_size, 2);
    assert_eq!(n.as_bytes(), vec![0x49, 0x02, 7, 0, 0, 0, 0, 0, 0, 0, 2, 0, b'n', b'o']);
}

#[test]
fn object_request_roundtrip() {
    let mut topics = HashSet::new();
    topics.insert(3u64);
    topics.insert(4u64);
    let r = RQ_ObjectRequest::new(ObjectFlags::CREATE, 11, topics.clone());
    assert_eq!(r.size, 16);
    let mut bytes = r.as_bytes();
    assert_eq!(bytes.len(), 28);
    assert_eq!(&bytes[..12], &[0x08, 16, 0, 0x01, 11, 0, 0, 0, 0, 0, 0, 0]);
    bytes.push(0);
    let back = RQ_ObjectRequest::try_from(&bytes).unwrap();
    assert_eq!(back.flags, ObjectFlags::CREATE);
    assert_eq!(back.object_id, 11);
    assert_eq!(back.topics, topics);
    let none = RQ_ObjectRequest::new(ObjectFlags::DELETE, 9, HashSet::new()).as_bytes();
    assert_eq!(none, vec![0x08, 0, 0, 0x04, 9, 0, 0, 0, 0, 0, 0, 0]);
    let back_none = RQ_ObjectRequest::try_from(&none).unwrap();
    assert_eq!(back_none.object_id, 9);
    assert_eq!(back_none.flags, ObjectFlags::DELETE);
    assert!(back_none.topics.is_empty());
    let empty = RQ_ObjectRequest::try_from(&[0x08, 0, 0, 0x02, 1, 0, 0, 0, 0, 0, 0, 0, 0]).unwrap();
    assert!(empty.topics.is_empty());
    assert_eq!(empty.flags, ObjectFlags::UPDATE);
    assert_eq!(
        RQ_ObjectRequest::try_from(&[0x08, 0, 0]).err(),
        Some("Payload len is to short for a RQ_ObjectRequest.")
    );
}

#[test]
fn object_identifiers() {
    assert_eq!(generate_object_id(ObjectIdentifierType::USER_GENERATED, u64::MAX), 0x3FFF_FFFF_FFFF_FFFF);
    assert_eq!(generate_object_id(ObjectIdentifierType::BROKER_GENERATED, 5), 0x4000_0000_0000_0005);
    assert_eq!(generate_object_id(ObjectIdentifierType::TEMPORARY, 5), 0x8000_0000_0000_0005);
    assert_eq!(generate_object_id(ObjectIdentifierType::UNKNOWN, 5), 0);
    assert_eq!(get_object_id_type(0x4000_0000_0000_0005), ObjectIdentifierType::BROKER_GENERATED);
    assert_eq!(get_object_id_type(0xC000_0000_0000_0000), ObjectIdentifierType::UNKNOWN);
    assert_eq!(get_object_id_type(12), ObjectIdentifierType::USER_GENERATED);
    let t = generate_object_id(ObjectIdentifierType::TEMPORARY, 77);
    assert_eq!(get_object_id_type(t), ObjectIdentifierType::TEMPORARY);
    assert_eq!(mark_as_broker_id(0x8000_0000_0000_0021), 0x4000_0000_0000_0021);
}

#[test]
fn bit_fields() {
    assert_eq!(flag_byte(vec![1, 0, 0, 0, 0, 0, 0, 1]), 129);
    assert_eq!(flag_byte(vec![0, 0, 0, 0, 1, 0, 0, 0]), 8);
    assert_eq!(vec_to_u8(vec![0, 0, 0, 0, 0, 0, 0, 3]), 3);
    assert_eq!(vec_to_u8(vec![3, 0, 0, 0, 0, 0, 0, 0]), 0x80);
}

fn filter(level: LogLevel, topics: bool) -> LogFilter {
    LogFilter {
        debug_level: level,
        debug_datagram_handler: true,
        debug_ping_sender: false,
        debug_data_handler: true,
        debug_heartbeat_checker: true,
        debug_topic_handler: topics,
    }
}

#[test]
fn log_lines() {
    let f = filter(LogLevel::Info, false);
    assert_eq!(
        log(LogLevel::Warning, LogSource::DatagramsHandler, "hi", &f),
        Some(b"[Server - DatagramHandler] Warning: hi".to_vec())
    );
    assert_eq!(log(LogLevel::Info, LogSource::Other, "up", &f), Some(b"[Server] up".to_vec()));
    assert_eq!(log(LogLevel::All, LogSource::Other, "up", &f), None);
    assert_eq!(log(LogLevel::Error, LogSource::PingSender, "x", &f), None);
    assert_eq!(log(LogLevel::Error, LogSource::ClientManager, "x", &f), None);
    let g = filter(LogLevel::All, true);
    assert_eq!(
        log(LogLevel::Info, LogSource::ClientManager, "x", &g),
        Some(b"[Server - ClientManger] Info: x".to_vec())
    );
    assert!(LogLevel::Info < LogLevel::Quiet);
}
