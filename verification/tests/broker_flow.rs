use std::collections::HashSet;

use rekt_broker::messages::broker::{Action, Broker, Client, PeerAddr};
use rekt_broker::messages::objects::diff_hashsets;
use rekt_broker::messages::session::{client_id_from, ping_id_from};

const PERIOD: u16 = 5;

fn addr(host: u8, port: u16) -> PeerAddr {
    PeerAddr { ip: 0x7F00_0000 | host as u128, ipv6: false, port }
}

fn sends(out: &[Action]) -> Vec<(PeerAddr, Vec<u8>)> {
    out.iter()
        .filter_map(|a| match a {
            Action::Send { to, bytes } => Some((*to, bytes.clone())),
            _ => None,
        })
        .collect()
}

fn le64(v: u64) -> Vec<u8> {
    v.to_le_bytes().to_vec()
}

/// Connects a new peer; returns its identifier and the ping it was sent.
fn connect(b: &mut Broker, a: PeerAddr, now: u128) -> (u64, u8) {
    let out = b.handle_datagram(a, &[0xF0], now, 123_456_789, PERIOD);
    assert_eq!(out.len(), 3);
    let id = match &out[0] {
        Action::Send { to, bytes } => {
            assert_eq!(*to, a);
            assert_eq!(bytes.len(), 12);
            assert_eq!(&bytes[..2], &[0xF1, 0x00]);
            assert_eq!(&bytes[10..], &[PERIOD as u8, 0]);
            u64::from_le_bytes(bytes[2..10].try_into().unwrap())
        }
        _ => panic!("expected the CONNECT_ACK"),
    };
    match &out[1] {
        Action::StartManagers { client_id, addr } => {
            assert_eq!(*client_id, id);
            assert_eq!(*addr, a);
        }
        _ => panic!("expected the managers to start"),
    }
    let ping = match &out[2] {
        Action::Send { to, bytes } => {
            assert_eq!(*to, a);
            assert_eq!(bytes.len(), 2);
            assert_eq!(bytes[0], 0x02);
            bytes[1]
        }
        _ => panic!("expected a PING"),
    };
    (id, ping)
}

fn topic_request(action: u8, topic: u64) -> Vec<u8> {
    let mut v = vec![0x07, action];
    v.extend(le64(topic));
    v
}

fn data(seq: u32, topic: u64, payload: &[u8]) -> Vec<u8> {
    let mut v = vec![0x05];
    v.extend((payload.len() as u16).to_le_bytes());
    v.extend(seq.to_le_bytes());
    v.extend(le64(topic));
    v.extend_from_slice(payload);
    v
}

fn object_request(flag: u8, object_id: u64, topics: &[u64]) -> Vec<u8> {
    let mut v = vec![0x08];
    v.extend(((topics.len() * 8) as u16).to_le_bytes());
    v.push(flag);
    v.extend(le64(object_id));
    for t in topics {
        v.extend(le64(*t));
    }
    v.push(0);
    v
}

fn object_nack(flags: u8, object_id: u64, reason: &str) -> Vec<u8> {
    let mut v = vec![0x49, flags];
    v.extend(le64(object_id));
    v.extend((reason.len() as u16).to_le_bytes());
    v.extend_from_slice(reason.as_bytes());
    v
}

fn object_ack(flags: u8, object_id: u64) -> Vec<u8> {
    let mut v = vec![0x48, flags];
    v.extend(le64(object_id));
    v
}

#[test]
fn identifiers_from_time_and_noise() {
    assert_eq!(client_id_from(0x1_0000_0000_0000_0005, 3), 6);
    assert_eq!(client_id_from(0, 0xABCD), 0xABCD);
    assert_eq!(ping_id_from(0x1234, 0xFF0F), 0x34 ^ 0x0F);
}

#[test]
fn unknown_source_is_dropped_unless_connecting() {
    let mut b = Broker::new();
    let out = b.handle_datagram(addr(9, 1000), &data(1, 1, b"x"), 10, 1, PERIOD);
    assert!(out.is_empty());
    assert!(b.clients.is_empty());
}

#[test]
fn connecting_again_keeps_the_identifier() {
    let mut b = Broker::new();
    let a = addr(1, 4000);
    let (id, _) = connect(&mut b, a, 1000);
    assert!(b.is_online(id));
    assert_eq!(b.clients.get(&id).unwrap().last_request_from_server, 1000);
    let again = addr(1, 4001);
    let out = b.handle_datagram(again, &[0xF0], 2000, 99, PERIOD);
    let s = sends(&out);
    assert_eq!(out.len(), 1);
    assert_eq!(s[0].0, again);
    assert_eq!(u64::from_le_bytes(s[0].1[2..10].try_into().unwrap()), id);
    assert_eq!(b.clients.len(), 1);
}

#[test]
fn data_goes_to_the_other_subscribers_only() {
    let mut b = Broker::new();
    let (a, b_, c) = (addr(1, 10), addr(2, 20), addr(3, 30));
    let (ida, _) = connect(&mut b, a, 1000);
    let (idb, _) = connect(&mut b, b_, 1000);
    let (_idc, _) = connect(&mut b, c, 1000);

    let out = b.handle_datagram(a, &topic_request(0x00, 42), 1100, 1, PERIOD);
    let mut ack = vec![0x47, 0x00];
    ack.extend(le64(42));
    assert_eq!(sends(&out), vec![(a, ack)]);
    let out = b.handle_datagram(a, &topic_request(0x00, 42), 1100, 1, PERIOD);
    let mut refused = vec![0x47, 0xF0];
    refused.extend_from_slice(b"Already subscribed to {}.");
    assert_eq!(sends(&out), vec![(a, refused)]);
    b.handle_datagram(b_, &topic_request(0x00, 42), 1100, 1, PERIOD);
    assert_eq!(b.topics_subscribers.get(&42).unwrap().len(), 2);

    let msg = data(1, 42, b"hello");
    let out = b.handle_datagram(a, &msg, 1200, 1, PERIOD);
    assert_eq!(sends(&out), vec![(b_, msg.clone())]);
    assert_eq!(b.clients.get(&idb).unwrap().last_request_from_server, 1200);
    assert_eq!(b.clients.get(&ida).unwrap().last_request_from_client, 1200);

    // nobody subscribes to topic 7
    assert!(b.handle_datagram(c, &data(1, 7, b"z"), 1200, 1, PERIOD).is_empty());

    // unsubscribing always succeeds
    let out = b.handle_datagram(b_, &topic_request(0xFF, 42), 1300, 1, PERIOD);
    let mut uack = vec![0x47, 0x0F];
    uack.extend(le64(42));
    assert_eq!(sends(&out), vec![(b_, uack)]);
    assert!(b.handle_datagram(a, &data(2, 42, b"again"), 1400, 1, PERIOD).is_empty());
}

#[test]
fn out_of_date_sequence_numbers_are_dropped() {
    let mut b = Broker::new();
    let (a, b_) = (addr(1, 10), addr(2, 20));
    connect(&mut b, a, 1000);
    connect(&mut b, b_, 1000);
    b.handle_datagram(b_, &topic_request(0x00, 5), 1000, 1, PERIOD);
    assert_eq!(b.handle_datagram(a, &data(60, 5, b"a"), 1000, 1, PERIOD).len(), 1);
    assert!(b.handle_datagram(a, &data(55, 5, b"b"), 1000, 1, PERIOD).is_empty());
    assert_eq!(b.handle_datagram(a, &data(50, 5, b"c"), 1000, 1, PERIOD).len(), 1);
    assert_eq!(b.handle_datagram(a, &data(61, 5, b"d"), 1000, 1, PERIOD).len(), 1);
}

#[test]
fn pong_sets_the_ping_once() {
    let mut b = Broker::new();
    let a = addr(1, 10);
    let (id, ping) = connect(&mut b, a, 1000);
    assert!(b.pings.contains_key(&ping));
    b.handle_datagram(a, &[0x42, ping], 1400, 1, PERIOD);
    assert_eq!(b.clients.get(&id).unwrap().ping, 200);
    assert!(!b.pings.contains_key(&ping));
    b.handle_datagram(a, &[0x42, ping], 3000, 1, PERIOD);
    assert_eq!(b.clients.get(&id).unwrap().ping, 200);
}

#[test]
fn server_status_counts_clients() {
    let mut b = Broker::new();
    let a = addr(1, 10);
    connect(&mut b, a, 1000);
    connect(&mut b, addr(2, 10), 1000);
    b.update_server_status(true);
    let out = b.handle_datagram(a, &[0x00], 1500, 1, PERIOD);
    let mut expect = vec![0x40, 1];
    expect.extend(le64(2));
    assert_eq!(sends(&out), vec![(a, expect)]);
    let stranger = addr(8, 10);
    let out = b.handle_datagram(stranger, &[0x00], 1500, 1, PERIOD);
    assert!(out.is_empty());
}

#[test]
fn shutdown_forgets_the_client() {
    let mut b = Broker::new();
    let (a, b_) = (addr(1, 10), addr(2, 20));
    connect(&mut b, a, 1000);
    let (idb, _) = connect(&mut b, b_, 1000);
    b.handle_datagram(b_, &topic_request(0x00, 3), 1000, 1, PERIOD);
    b.handle_datagram(b_, &[0xFF, 0x00], 1100, 1, PERIOD);
    assert!(!b.is_online(idb));
    assert!(!b.addresses.contains_key(&idb));
    assert!(!b.topics_subscribers.get(&3).unwrap().contains(&idb));
    assert!(b.handle_datagram(b_, &[0x01], 1200, 1, PERIOD).is_empty());
}

#[test]
fn objects_lifecycle() {
    let mut b = Broker::new();
    let (a, c) = (addr(1, 10), addr(3, 30));
    let (ida, _) = connect(&mut b, a, 1000);
    let (idc, _) = connect(&mut b, c, 1000);
    let marked = 0x4000_0000_0000_0005u64;

    let out = b.handle_datagram(a, &object_request(0x01, 5, &[100, 101]), 1100, 7, PERIOD);
    let mut created = vec![0x48, 0x81];
    created.extend(le64(5));
    created.extend(le64(marked));
    assert_eq!(sends(&out), vec![(a, created)]);
    assert!(b.is_object_id_valid(marked));
    assert!(b.topics_subscribers.get(&100).unwrap().contains(&ida));
    assert!(b.object_subscribers.get(&marked).unwrap().contains(&ida));

    let out = b.handle_datagram(a, &object_request(0x01, 5, &[100]), 1100, 7, PERIOD);
    assert_eq!(
        sends(&out),
        vec![(a, object_nack(0x01, 5, "Invalid Object identifier sent. Already exist"))]
    );
    let out = b.handle_datagram(a, &object_request(0x01, marked, &[100]), 1100, 7, PERIOD);
    assert_eq!(
        sends(&out),
        vec![(a, object_nack(0x01, marked, "Invalid Object identifier sent. Bad format."))]
    );

    let out = b.handle_datagram(c, &object_request(0x08, marked, &[]), 1200, 7, PERIOD);
    assert_eq!(sends(&out), vec![(c, object_ack(0x90, marked))]);
    let msg = data(1, 101, b"obj");
    let out = b.handle_datagram(c, &msg, 1200, 7, PERIOD);
    assert_eq!(sends(&out), vec![(a, msg.clone())]);

    let out = b.handle_datagram(c, &object_request(0x08, 0x4000_0000_0000_0099, &[]), 1200, 7, PERIOD);
    assert_eq!(
        sends(&out),
        vec![(
            c,
            object_nack(
                0x10,
                0x4000_0000_0000_0099,
                "Invalid Object identifier sent in a RQ_ObjectRequestSubscribe. Bad format or unknown id."
            )
        )]
    );
    let out = b.handle_datagram(c, &object_request(0x03, marked, &[]), 1200, 7, PERIOD);
    assert_eq!(sends(&out), vec![(c, object_nack(0x00, marked, "Invalid flag sent"))]);

    let out = b.handle_datagram(a, &object_request(0x04, marked, &[]), 1300, 7, PERIOD);
    let mut answers = sends(&out);
    answers.sort_by(|x, y| x.1.cmp(&y.1));
    let expected = vec![(a, object_ack(0x84, marked)), (a, object_ack(0x88, marked))];
    assert_eq!(answers, expected);
    assert!(!b.objects_topics.contains_key(&marked));
    assert!(!b.topics_subscribers.contains_key(&100));
    assert!(!b.clients.get(&ida).unwrap().objects.contains(&marked));
    assert!(!b.object_subscribers.get(&marked).unwrap().contains(&idc));

    let out = b.handle_datagram(c, &object_request(0x08, marked, &[]), 1400, 7, PERIOD);
    assert_eq!(
        sends(&out),
        vec![(c, object_nack(0x10, marked, "Failed to subscribe to the object due to broker error."))]
    );
}

#[test]
fn temporary_object_gets_a_broker_identifier() {
    let mut b = Broker::new();
    let a = addr(1, 10);
    connect(&mut b, a, 1000);
    let temp = 0x8000_0000_0000_0001u64;
    let out = b.handle_datagram(a, &object_request(0x01, temp, &[9]), 1100, 0x77, PERIOD);
    let fresh = 0x4000_0000_0000_0077u64;
    let mut created = vec![0x48, 0x81];
    created.extend(le64(temp));
    created.extend(le64(fresh));
    assert_eq!(sends(&out), vec![(a, created)]);
    assert!(b.is_object_id_valid(fresh));
    assert!(!b.is_object_id_valid(temp));
}

#[test]
fn update_takes_and_drops_topics() {
    let mut b = Broker::new();
    let a = addr(1, 10);
    let (ida, _) = connect(&mut b, a, 1000);
    b.handle_datagram(a, &object_request(0x01, 5, &[1, 2]), 1000, 1, PERIOD);
    let marked = 0x4000_0000_0000_0005u64;
    let out = b.handle_datagram(a, &object_request(0x02, marked, &[2, 3]), 1100, 1, PERIOD);
    assert_eq!(sends(&out), vec![(a, object_ack(0x82, marked))]);
    let topics = &b.clients.get(&ida).unwrap().topics;
    assert!(topics.contains(&2) && topics.contains(&3) && !topics.contains(&1));
    let out = b.handle_datagram(a, &object_request(0x02, 77, &[2]), 1100, 1, PERIOD);
    assert_eq!(
        sends(&out),
        vec![(
            a,
            object_nack(
                0x08,
                77,
                "Invalid Object identifier sent in a RQ_ObjectRequestUpdate. Bad format or unknown id."
            )
        )]
    );
}

#[test]
fn diff_of_sets() {
    let new: HashSet<u64> = [1, 2, 3].into_iter().collect();
    let current: HashSet<u64> = [3, 4].into_iter().collect();
    let (mut added, mut removed) = diff_hashsets(&new, &current);
    added.sort();
    removed.sort();
    assert_eq!(added, vec![1, 2]);
    assert_eq!(removed, vec![4]);
}

#[test]
fn heartbeat_checks() {
    let mut b = Broker::new();
    let a = addr(1, 10);
    let (id, _) = connect(&mut b, a, 10_000);
    let (missed, out) = b.heartbeat_check(id, a, 0, 12_000, PERIOD);
    assert_eq!(missed, 0);
    assert_eq!(sends(&out), vec![(a, vec![0x01])]);
    let (m1, out) = b.heartbeat_check(id, a, 0, 20_000, PERIOD);
    assert_eq!(m1, 1);
    assert!(out.is_empty());
    let (m2, out) = b.heartbeat_check(id, a, m1, 20_000, PERIOD);
    assert_eq!(m2, 2);
    assert_eq!(sends(&out), vec![(a, vec![0x41])]);
    let (m3, out) = b.heartbeat_check(id, a, m2, 20_000, PERIOD);
    assert_eq!(m3, 3);
    assert!(out.is_empty());
    assert!(b.is_online(id));
    let (m4, out) = b.heartbeat_check(id, a, m3, 20_000, PERIOD);
    assert_eq!(m4, 4);
    assert_eq!(sends(&out), vec![(a, vec![0xFF, 0x00])]);
    assert!(!b.is_online(id));
}

#[test]
fn heartbeat_watch_needs_a_connected_client() {
    let mut b = Broker::new();
    let a = addr(1, 10);
    let (id, _) = connect(&mut b, a, 10_000);
    let (started, out) = b.heartbeat_start(id, a);
    assert!(started);
    assert!(out.is_empty());
    let (started, out) = b.heartbeat_start(id + 1, a);
    assert!(!started);
    assert_eq!(sends(&out), vec![(a, vec![0xFF, 0x02])]);
}

#[test]
fn pings_go_to_every_address() {
    let mut b = Broker::new();
    let (a, c) = (addr(1, 10), addr(2, 20));
    connect(&mut b, a, 1000);
    connect(&mut b, c, 1000);
    b.pings.clear();
    let out = b.send_pings(5000, 42);
    let mut to: Vec<PeerAddr> = sends(&out).iter().map(|(t, _)| *t).collect();
    to.sort_by_key(|p| p.ip);
    let expected = vec![a, c];
    assert_eq!(to, expected);
    for (_, bytes) in sends(&out) {
        assert_eq!(bytes[0], 0x02);
        assert_eq!(b.pings.get(&bytes[1]), Some(&5000));
    }
}

#[test]
fn which_datagrams_can_be_handled() {
    let mut b = Broker::new();
    let a = addr(1, 10);
    assert!(b.can_handle(&[], 0));
    assert!(b.can_handle(&object_request(0x01, 5, &[1]), 0));
    let mut too_long = object_request(0x01, 5, &[1]);
    too_long.pop();
    assert!(!b.can_handle(&too_long, 0));
    let (_, ping) = connect(&mut b, a, 1000);
    assert!(b.can_handle(&[0x42, ping], 1000));
    assert!(!b.can_handle(&[0x42, ping], 999));
}

#[test]
fn client_get_reply_by_key() {
    let c = Client::new(0x1234, addr(1, 4000), 987);
    assert_eq!(c.get("id"), Ok(0x1234));
    assert_eq!(c.get("last_request_from_client"), Ok(987));
    assert_eq!(c.get("ping"), Err("Bad key requested : \"ping\"".to_string()));
    assert_eq!(c.get(""), Err("Bad key requested : \"\"".to_string()));
}
