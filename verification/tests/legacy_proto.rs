use std::collections::hash_map::DefaultHasher;
use std::hash::{Hash, Hasher};

use rekt_broker::legacy::datagrams as legacy;
use rekt_broker::legacy::enums as legacy_enums;
use rekt_broker::legacy::enums::{MessageType, TopicsAction, TopicsResponse};
use rekt_broker::proto::datagrams as proto;
use rekt_broker::proto::enums as proto_enums;
use rekt_broker::messages::broker::{Action, PeerAddr};
use rekt_broker::proto::cli::cli_input_accepted;
use rekt_broker::proto::client::{answer_to_server, read_connect_answer, topic_test_request, ConnectAnswer};
use rekt_broker::proto::server::Server;
use rekt_broker::proto::topic::{Topic, TopicV2};

fn std_hash(name: &str) -> u64 {
    let mut h = DefaultHasher::new();
    name.hash(&mut h);
    h.finish()
}

#[test]
fn legacy_codes() {
    assert_eq!(MessageType::from(0x05), MessageType::DATA);
    assert_eq!(MessageType::from(0x46), MessageType::UNKNOWN);
    assert_eq!(u8::from(MessageType::OBJECT_REQUEST_ACK), 0x48);
    assert_eq!(TopicsAction::from(0xFF), TopicsAction::UNSUBSCRIBE);
    assert_eq!(u8::from(TopicsResponse::SUCCESS_USUB), 0x0F);
    assert_eq!(legacy_enums::display_message_type(MessageType::PONG), "Pong");
    assert_eq!(legacy_enums::display_loglevel(legacy_enums::LogLevel::Quiet), "Quiet");
}

#[test]
fn legacy_topic_request_carries_a_path() {
    let r = legacy::RQ_TopicRequest::new(legacy_enums::TopicsAction::SUBSCRIBE, "/a/b");
    assert_eq!(r.size.size, 5);
    let bytes = r.as_bytes();
    assert_eq!(bytes, vec![0x07, 5, 0, 0x00, b'/', b'a', b'/', b'b']);
    let back = legacy::RQ_TopicRequest::from(&bytes);
    assert_eq!(back.action, legacy_enums::TopicsAction::SUBSCRIBE);
    assert_eq!(back.payload, b"/a/b".to_vec());
}

#[test]
fn legacy_data_size_counts_the_topic() {
    let d = legacy::RQ_Data::new(0x0102, vec![9, 8]);
    assert_eq!(d.size.size, 10);
    let bytes = d.as_bytes();
    assert_eq!(bytes, vec![0x05, 10, 0, 2, 1, 0, 0, 0, 0, 0, 0, 9, 8]);
    let back = legacy::RQ_Data::from(&bytes);
    assert_eq!(back.topic_id, 0x0102);
    assert_eq!(back.data, vec![9, 8]);
}

#[test]
fn legacy_answers() {
    let ack = legacy::RQ_Connect_ACK_OK::new(7, 5);
    let bytes = ack.as_bytes();
    assert_eq!(bytes, vec![0xF1, 0x00, 7, 0, 0, 0, 0, 0, 0, 0, 5, 0]);
    let back = legacy::RQ_Connect_ACK_OK::from(&bytes);
    assert_eq!(back.peer_id, 7);
    assert_eq!(back.heartbeat_period, 5);
    let nack = legacy::RQ_TopicRequest_NACK::new(legacy_enums::TopicsResponse::FAILURE_SUB, "no".to_string());
    assert_eq!(nack.size.size, 3);
    assert_eq!(nack.as_bytes(), vec![0x47, 0xF0, b'n', b'o']);
    let tack = legacy::RQ_TopicRequest_ACK::new(3, legacy_enums::TopicsResponse::SUCCESS_SUB);
    assert_eq!(tack.as_bytes(), vec![0x47, 0x00, 3, 0, 0, 0, 0, 0, 0, 0]);
    assert_eq!(legacy::RQ_Ping::new(4).as_bytes(), vec![0x02, 4]);
    let pong = legacy::RQ_Pong::new(4);
    assert_eq!(pong.message_type, legacy_enums::MessageType::PONG);
    assert_eq!(legacy::RQ_Pong::from(&[0x42, 4]).ping_id, 4);
    assert_eq!(
        legacy::RQ_Shutdown::new(legacy_enums::EndConnexionReason::ERROR).as_bytes(),
        vec![0xFF, 0x01]
    );
    assert_eq!(legacy::get_bytes_from_slice(&[1, 2, 3, 4], 1, 2), vec![2, 3]);
}

#[test]
fn legacy_refusal_reads_the_status_at_offset_one() {
    let e = legacy::RQ_Connect_ACK_ERROR::new("bad");
    let bytes = e.as_bytes();
    assert_eq!(e.message_size.size, 4);
    assert_eq!(bytes, vec![0xF1, 4, 0, 0xFF, b'b', b'a', b'd']);
    let back = legacy::RQ_Connect_ACK_ERROR::from(&[0xF1, 2, 0, 0xFF, b'o', b'k', b'!']);
    assert_eq!(back.message_size.size, 2);
    assert_eq!(back.status, legacy_enums::ConnectStatus::FAILURE);
    assert_eq!(back.reason, vec![b'o', b'k']);
}

#[test]
fn proto_topic_ids_are_big_endian() {
    let r = proto::RQ_TopicRequest::new(proto_enums::TopicsAction::SUBSCRIBE, 0x0102);
    assert_eq!(r.as_bytes(), vec![0x07, 0x00, 0, 0, 0, 0, 0, 0, 1, 2]);
    let a = proto::RQ_TopicRequest_ACK::new(proto_enums::TopicsResponse::SUCCESS, 1);
    assert_eq!(a.as_bytes(), vec![0x47, 0x00, 0, 0, 0, 0, 0, 0, 0, 1]);
    let ok = proto::RQ_Connect_ACK_OK::new(0x55, 3).as_bytes();
    assert_eq!(proto::connect_response_peer_id(&ok), 0x55);
    proto::get_bytes_as_slice(&ok, 3, 2);
    proto::get_bytes_as_slice(&ok, 4, 4);
}

#[test]
fn proto_topic_tree_search() {
    let mut root = Topic::new(1);
    let mut child = Topic::new(2);
    child.add_sub_topic(Topic::new(3));
    root.add_sub_topic(child);
    root.add_sub_topic(Topic::new(4));
    assert_eq!(root.get_sub_topic_by_id(3).unwrap().get_id(), 3);
    assert_eq!(root.get_sub_topic_by_id(4).unwrap().get_id(), 4);
    assert_eq!(root.get_sub_topic_by_id(1).unwrap().topics.len(), 2);
    assert!(root.get_sub_topic_by_id(5).is_none());
}

#[test]
fn proto_paths_create_hashed_topics() {
    let mut root = TopicV2::new(0);
    let id = TopicV2::create_topicsGPT("/a/b", &mut root);
    assert_eq!(id, std_hash("b"));
    assert_eq!(root.sub_topics.len(), 1);
    assert_eq!(root.sub_topics[0].id, std_hash("a"));
    assert_eq!(root.sub_topics[0].sub_topics[0].id, std_hash("b"));
    let again = TopicV2::create_topicsGPT("a//b/", &mut root);
    assert_eq!(again, id);
    assert_eq!(root.sub_topics.len(), 1);
    assert_eq!(root.sub_topics[0].sub_topics.len(), 1);
    assert_eq!(TopicV2::create_topicsGPT("///", &mut root), 0);
    TopicV2::create_topicsGPT("/c", &mut root);
    assert_eq!(root.sub_topics.len(), 2);
}

#[test]
fn proto_server_answers_new_peers_only() {
    let mut server = Server::new("127.0.0.1".to_string(), 3838);
    assert_eq!(server.root.get_id(), 1);
    let a = PeerAddr { ip: 1, ipv6: false, port: 10 };
    let out = server.handle_datagram(a, &[0xF0], 77);
    assert_eq!(out.len(), 1);
    match &out[0] {
        Action::Send { to, bytes } => {
            assert_eq!(*to, a);
            assert_eq!(bytes, &vec![0xF1, 0x00, 77, 0, 0, 0, 0, 0, 0, 0, 1, 0]);
        }
        _ => panic!("expected the CONNECT_ACK"),
    }
    assert_eq!(server.clients.get(&77), Some(&a));
    assert!(server.handle_datagram(a, &[0xF0], 78).is_empty());
    assert_eq!(server.clients.len(), 1);
    let other_port = PeerAddr { ip: 1, ipv6: false, port: 11 };
    assert_eq!(server.handle_datagram(other_port, &[0xF0], 79).len(), 1);
    assert!(server.handle_datagram(a, &[0x05, 1, 2], 80).is_empty());
    assert_eq!(server.clients.len(), 2);
}

#[test]
fn proto_server_picks_first_free_id() {
    let mut server = Server::new("127.0.0.1".to_string(), 3838);
    assert_eq!(server.get_new_id(&vec![]), None);
    assert_eq!(server.get_new_id(&vec![5, 6]), Some(5));
    let a = PeerAddr { ip: 1, ipv6: false, port: 10 };
    let b = PeerAddr { ip: 2, ipv6: false, port: 10 };
    server.handle_datagram(a, &[0xF0], 5);
    server.handle_datagram(b, &[0xF0], 6);
    assert_eq!(server.get_new_id(&vec![5, 6, 9, 5]), Some(9));
    assert_eq!(server.get_new_id(&vec![6, 5, 6]), None);
}

#[test]
fn proto_client_answers_pings() {
    assert_eq!(answer_to_server(&[0x02, 9]), Some(vec![0x42, 9]));
    assert_eq!(answer_to_server(&[0x02]), Some(vec![0x42, 0]));
    assert_eq!(answer_to_server(&[0x01, 9]), None);
    assert_eq!(answer_to_server(&[]), None);
}

#[test]
fn proto_client_reads_connect_answers() {
    let ok = proto::RQ_Connect_ACK_OK::new(0x1234, 1).as_bytes();
    assert!(matches!(read_connect_answer(&ok), ConnectAnswer::Accepted(0x1234)));
    let mut refused = vec![0xF1, 0xFF, 2, 0, 0, b'n', b'o'];
    match read_connect_answer(&refused) {
        ConnectAnswer::Refused(reason) => assert_eq!(reason, b"no".to_vec()),
        _ => panic!("expected a refusal"),
    }
    refused.pop();
    assert!(matches!(read_connect_answer(&refused), ConnectAnswer::ReasonCut));
    assert!(matches!(read_connect_answer(&[0xF1, 0x12]), ConnectAnswer::UnknownStatus));
    assert!(matches!(read_connect_answer(&[0x02]), ConnectAnswer::NotAnAck));
}

#[test]
fn proto_client_test_topic() {
    let mut expected = vec![0x07, 0x00];
    expected.extend(std_hash("/home/topix/xd").to_be_bytes());
    assert_eq!(topic_test_request(), expected);
}

#[test]
fn proto_topics_are_equal_by_identifier() {
    let mut a = TopicV2::new(5);
    a.add_sub_topic(TopicV2::new(6));
    assert!(a == TopicV2::new(5));
    assert!(a != TopicV2::new(6));
}

#[test]
fn terminal_answers() {
    let address = r"^(?:(?:25[0-5]|2[0-4][0-9]|[01]?[0-9][0-9]?)\.){3}(?:25[0-5]|2[0-4][0-9]|[01]?[0-9][0-9]?)$";
    assert_eq!(cli_input_accepted("12", true, None, None), Ok(true));
    assert_eq!(cli_input_accepted("-32768", true, None, None), Ok(true));
    assert_eq!(cli_input_accepted("70000", true, None, None), Ok(false));
    assert_eq!(cli_input_accepted("12", false, None, None), Ok(false));
    let choices = vec!["yes".to_string(), "no".to_string()];
    assert_eq!(cli_input_accepted("no", false, Some(&choices), None), Ok(true));
    assert_eq!(cli_input_accepted("maybe", false, Some(&choices), None), Ok(false));
    assert_eq!(cli_input_accepted("192.168.0.1", false, None, Some(address)), Ok(true));
    assert_eq!(cli_input_accepted("999.1.1.1", false, None, Some(address)), Ok(false));
    assert_eq!(cli_input_accepted("x", false, None, Some("(")), Err(()));
    assert_eq!(cli_input_accepted("5", true, None, Some("(")), Ok(true));
}
