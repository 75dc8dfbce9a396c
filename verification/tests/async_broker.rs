use rekt_broker::asyncbroker::broker::BrokerState;
use rekt_broker::asyncbroker::config::{
    parse_i16, parse_u16, Config, ConfigToml, ConfigTomlDebug, ConfigTomlPeriod, ConfigTomlServer, LogLevel,
};
use rekt_broker::asyncbroker::server_lib::{create_topics, log, LogSource};
use rekt_broker::asyncbroker::topic_v2::TopicV2;
use rekt_broker::hash::custom_string_hash;
use rekt_broker::messages::broker::{Action, PeerAddr};

const PERIOD: u16 = 5;

fn addr(host: u8, port: u16) -> PeerAddr {
    PeerAddr { ip: 0x0A00_0000 | host as u128, ipv6: false, port }
}

fn sends(out: &[Action]) -> Vec<(PeerAddr, Vec<u8>)> {
    out.iter()
        .filter_map(|a| match a {
            Action::Send { to, bytes } => Some((*to, bytes.clone())),
            _ => None,
        })
        .collect()
}

fn connect(s: &mut BrokerState, a: PeerAddr) -> u64 {
    let out = s.handle_datagram(a, &[0xF0], 1000, 77, PERIOD);
    assert_eq!(out.len(), 2);
    let id = match &out[0] {
        Action::Send { to, bytes } => {
            assert_eq!(*to, a);
            assert_eq!(&bytes[..2], &[0xF1, 0x00]);
            assert_eq!(&bytes[10..], &[PERIOD as u8, 0]);
            u64::from_le_bytes(bytes[2..10].try_into().unwrap())
        }
        _ => panic!("expected the CONNECT_ACK"),
    };
    match &out[1] {
        Action::StartManagers { client_id, addr } => {
            assert_eq!(*client_id, id);
            assert_eq!(*addr, a);
        }
        _ => panic!("expected the managers to start"),
    }
    id
}

fn topic_request(action: u8, path: &str) -> Vec<u8> {
    let mut v = vec![0x07];
    v.extend(((path.len() + 1) as u16).to_le_bytes());
    v.push(action);
    v.extend_from_slice(path.as_bytes());
    v
}

fn data(topic: u64, payload: &[u8]) -> Vec<u8> {
    let mut v = vec![0x05];
    v.extend(((payload.len() + 8) as u16).to_le_bytes());
    v.extend(topic.to_le_bytes());
    v.extend_from_slice(payload);
    v
}

fn topic_ack(status: u8, topic: u64) -> Vec<u8> {
    let mut v = vec![0x47, status];
    v.extend(topic.to_le_bytes());
    v
}

#[test]
fn connect_twice_from_one_address() {
    let mut s = BrokerState::new();
    let a = addr(1, 9000);
    let id = connect(&mut s, a);
    assert!(s.is_online(id));
    assert_eq!(s.get_client_id(a), Some(id));
    let out = s.handle_datagram(a, &[0xF0], 2000, 78, PERIOD);
    let got = sends(&out);
    assert_eq!(out.len(), 1);
    assert_eq!(u64::from_le_bytes(got[0].1[2..10].try_into().unwrap()), id);
    assert_eq!(s.clients.len(), 1);
    assert_eq!(s.already_connected(addr(1, 1)), (true, id));
    assert_eq!(s.already_connected(addr(2, 9000)), (false, 0));
}

#[test]
fn unknown_source_is_dropped() {
    let mut s = BrokerState::new();
    assert!(s.handle_datagram(addr(5, 1), &[0x01], 1000, 1, PERIOD).is_empty());
    assert!(s.client_has_heartbeat.is_empty());
}

#[test]
fn subscriptions_and_forwarding() {
    let mut s = BrokerState::new();
    let (a, b, c) = (addr(1, 1), addr(2, 2), addr(3, 3));
    let ida = connect(&mut s, a);
    let idb = connect(&mut s, b);
    connect(&mut s, c);
    let news = custom_string_hash("/news");

    let out = s.handle_datagram(a, &topic_request(0x00, "/news"), 1100, 1, PERIOD);
    assert_eq!(sends(&out), vec![(a, topic_ack(0x00, news))]);
    s.handle_datagram(b, &topic_request(0x00, "/news"), 1100, 1, PERIOD);
    assert!(s.clients_topics.get(&news).unwrap().contains(&ida));
    assert!(s.clients_topics.get(&news).unwrap().contains(&idb));
    assert_eq!(s.root.sub_topics.len(), 1);
    assert_eq!(s.root.sub_topics[0].name, "news");

    let out = s.handle_datagram(a, &topic_request(0x00, "news"), 1100, 1, PERIOD);
    let mut refused = vec![0x47, 0xF0];
    refused.extend_from_slice(b"Subscribing to {} failed :(");
    assert_eq!(sends(&out), vec![(a, refused)]);

    let msg = data(news, b"hi");
    let out = s.handle_datagram(a, &msg, 1200, 1, PERIOD);
    assert_eq!(sends(&out), vec![(b, msg.clone())]);
    assert!(s.handle_datagram(c, &data(12345, b"x"), 1200, 1, PERIOD).is_empty());

    let out = s.handle_datagram(b, &topic_request(0xFF, "/news"), 1300, 1, PERIOD);
    assert_eq!(sends(&out), vec![(b, topic_ack(0x0F, news))]);
    assert!(s.handle_datagram(a, &msg, 1400, 1, PERIOD).is_empty());
}

#[test]
fn heartbeat_and_pong() {
    let mut s = BrokerState::new();
    let a = addr(1, 1);
    let id = connect(&mut s, a);
    s.handle_datagram(a, &[0x01], 1000, 1, PERIOD);
    assert_eq!(s.client_has_heartbeat.get(&id), Some(&true));

    let (ping, out) = s.send_ping(a, 1000, 3);
    assert_eq!(sends(&out), vec![(a, vec![0x02, ping])]);
    assert_eq!(s.pings.get(&ping), Some(&1000));
    s.handle_datagram(a, &[0x42, ping], 1300, 1, PERIOD);
    assert_eq!(s.clients_ping.get(&id), Some(&150));
    assert!(!s.pings.contains_key(&ping));
    s.forget_ping(id);
    assert!(!s.clients_ping.contains_key(&id));
}

#[test]
fn four_silent_checks_disconnect() {
    let mut s = BrokerState::new();
    let a = addr(1, 1);
    let id = connect(&mut s, a);
    s.handle_datagram(a, &topic_request(0x00, "/t"), 1000, 1, PERIOD);
    s.handle_heartbeat(id);
    let (m0, out) = s.heartbeat_check(id, a, 3);
    assert_eq!(m0, 0);
    assert_eq!(sends(&out), vec![(a, vec![0x01])]);
    let (m1, out) = s.heartbeat_check(id, a, m0);
    assert_eq!(m1, 1);
    assert!(out.is_empty());
    let (m2, out) = s.heartbeat_check(id, a, m1);
    assert_eq!(m2, 2);
    assert_eq!(sends(&out), vec![(a, vec![0x41])]);
    let (m3, _) = s.heartbeat_check(id, a, m2);
    assert_eq!(m3, 3);
    assert!(s.is_online(id));
    let (m4, out) = s.heartbeat_check(id, a, m3);
    assert_eq!(m4, 4);
    assert_eq!(sends(&out), vec![(a, vec![0xFF, 0x00])]);
    assert!(!s.is_online(id));
    assert!(!s.clients_topics.get(&custom_string_hash("/t")).unwrap().contains(&id));
    s.forget_heartbeat(id);
    assert!(!s.client_has_heartbeat.contains_key(&id));
}

#[test]
fn shutdown_disconnects() {
    let mut s = BrokerState::new();
    let a = addr(1, 1);
    let id = connect(&mut s, a);
    s.handle_datagram(a, &topic_request(0x00, "/t"), 1000, 1, PERIOD);
    assert!(s.handle_datagram(a, &[0xFF, 0x00], 1000, 1, PERIOD).is_empty());
    assert!(!s.is_online(id));
    assert!(s.clients_topics.get(&custom_string_hash("/t")).unwrap().is_empty());
}

#[test]
fn topic_paths() {
    let mut root = TopicV2::new(1, "/".to_string());
    assert_eq!(create_topics("/x/y", &mut root), Ok(custom_string_hash("/x/y")));
    assert_eq!(root.sub_topics.len(), 1);
    let x = &root.sub_topics[0];
    assert_eq!(x.id, custom_string_hash("/x"));
    assert_eq!(x.name, "x");
    assert_eq!(x.sub_topics.len(), 1);
    assert_eq!(x.sub_topics[0].id, custom_string_hash("/x/y"));
    assert_eq!(x.sub_topics[0].name, "y");
    assert!(x.sub_topics[0].sub_topics.is_empty());
    assert_eq!(TopicV2::create_topicsGPT("/x/z", &mut root), Ok(custom_string_hash("/x/z")));
    assert_eq!(root.sub_topics.len(), 1);
    assert_eq!(root.sub_topics[0].sub_topics.len(), 2);
    assert_eq!(root.sub_topics[0].sub_topics[1].name, "z");
    assert_eq!(create_topics("/x/y", &mut root), Ok(custom_string_hash("/x/y")));
    assert_eq!(root.sub_topics[0].sub_topics.len(), 2);
    assert_eq!(create_topics("x", &mut root), Err("Invalid Path".to_string()));
    assert_eq!(create_topics("", &mut root), Err("Invalid Path".to_string()));
    let empty_name = Err("il s'est passé une dingeureie (topic_name is empty)".to_string());
    assert_eq!(create_topics("/x//y", &mut root), empty_name);
    assert_eq!(create_topics("/", &mut root), empty_name);
    assert_eq!(root.sub_topics.len(), 1);
    assert_eq!(create_topics("/w//v", &mut root), empty_name);
    assert_eq!(root.sub_topics.len(), 2);
    assert_eq!(root.sub_topics[1].name, "w");
    assert!(root.sub_topics[1].sub_topics.is_empty());
    assert_eq!(create_topics("/é/b", &mut root), Ok(custom_string_hash("/é/b")));
    assert_eq!(root.sub_topics[2].name, "é");
}

#[test]
fn port_numbers() {
    assert_eq!(parse_u16("8080"), Some(8080));
    assert_eq!(parse_u16("+17"), Some(17));
    assert_eq!(parse_u16("65535"), Some(65535));
    assert_eq!(parse_u16("65536"), None);
    assert_eq!(parse_u16(""), None);
    assert_eq!(parse_u16("+"), None);
    assert_eq!(parse_u16("-1"), None);
    assert_eq!(parse_u16("12a"), None);
}

#[test]
fn settings_with_defaults() {
    let empty = ConfigToml { server: None, debug: None, period: None };
    let c = Config::from_toml(empty);
    assert_eq!(c.port, "3838");
    assert_eq!(c.heart_beat_period, 5);
    assert_eq!(c.ping_period, 5);
    assert_eq!(c.debug_level, LogLevel::All);
    assert!(c.debug_datagram_handler && c.debug_topic_handler);

    let full = ConfigToml {
        server: Some(ConfigTomlServer { port: Some("4000".to_string()) }),
        debug: Some(ConfigTomlDebug {
            debug_level: Some(LogLevel::Warning),
            debug_datagram_handler: Some(false),
            debug_ping_sender: None,
            debug_data_handler: None,
            debug_heartbeat_checker: Some(false),
            debug_topic_handler: None,
        }),
        period: Some(ConfigTomlPeriod { heartbeat_period: Some(9), ping_period: None }),
    };
    let c = Config::from_toml(full);
    assert_eq!(c.port, "4000");
    assert_eq!(c.heart_beat_period, 9);
    assert_eq!(c.ping_period, 5);
    assert_eq!(c.debug_level, LogLevel::Warning);
    assert!(!c.debug_datagram_handler);
    assert!(c.debug_ping_sender);
    assert!(!c.debug_heartbeat_checker);

    assert_eq!(log(LogLevel::Info, LogSource::TopicHandler, "m", &c), None);
    assert_eq!(
        log(LogLevel::Error, LogSource::TopicHandler, "m", &c),
        Some(b"[Server - TopicHandler] Error: m".to_vec())
    );
    assert_eq!(log(LogLevel::Warning, LogSource::Other, "up", &c), Some(b"[Server] up".to_vec()));
}

#[test]
fn legacy_datagrams_that_can_be_handled() {
    let mut s = BrokerState::new();
    let a = addr(1, 1);
    assert!(s.can_handle(a, &[0xF0], 1000));
    assert!(s.can_handle(a, &[0x05, 0xFF], 1000));
    connect(&mut s, a);
    assert!(s.can_handle(a, &[0xF0], 1000));
    assert!(!s.can_handle(addr(1, 2), &[0xF0], 1000));
    assert!(s.can_handle(addr(2, 2), &[0xF0], 1000));
    assert!(s.can_handle(a, &data(1, b"ok"), 1000));
    assert!(!s.can_handle(a, &[0x05, 9, 0, 1, 2, 3, 4, 5, 6, 7, 8], 1000));
    assert!(s.can_handle(a, &topic_request(0x00, "/é"), 1000));
    let mut bad = topic_request(0x00, "/ab");
    bad[5] = 0xFF;
    assert!(!s.can_handle(a, &bad, 1000));
    assert!(!s.can_handle(a, &[0x42, 7], 1000));
    let (ping, _) = s.send_ping(a, 1000, 5);
    assert!(s.can_handle(a, &[0x42, ping], 1000));
    assert!(!s.can_handle(a, &[0x42, ping], 999));
    assert!(s.can_handle(a, &[0x01], 1000));
}

#[test]
fn signed_numbers() {
    assert_eq!(parse_i16("-32768"), Some(-32768));
    assert_eq!(parse_i16("32767"), Some(32767));
    assert_eq!(parse_i16("+12"), Some(12));
    assert_eq!(parse_i16("-0"), Some(0));
    assert_eq!(parse_i16("32768"), None);
    assert_eq!(parse_i16("-32769"), None);
    assert_eq!(parse_i16("-"), None);
    assert_eq!(parse_i16(""), None);
    assert_eq!(parse_i16("1-2"), None);
}

#[test]
fn topics_are_equal_by_identifier() {
    let mut a = TopicV2::new(5, "a".to_string());
    a.add_sub_topic(TopicV2::new(6, "b".to_string()));
    assert!(a == TopicV2::new(5, "other".to_string()));
    assert!(a != TopicV2::new(7, "a".to_string()));
}

#[test]
fn port_written_back_in_decimal() {
    let t = ConfigToml {
        server: Some(ConfigTomlServer { port: Some("+0080".to_string()) }),
        debug: None,
        period: None,
    };
    assert_eq!(Config::from_toml(t).port, "80");
    let zero = ConfigToml { server: Some(ConfigTomlServer { port: Some("0".to_string()) }), debug: None, period: None };
    assert_eq!(Config::from_toml(zero).port, "0");
}
