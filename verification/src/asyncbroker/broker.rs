//! State of the asynchronous broker and its decisions on each datagram:
//! who is connected, which clients follow which topic, pings and
//! heartbeats.

use vstd::prelude::*;
use std::collections::{HashMap, HashSet};
use vstd::string::StringSliceAdditionalSpecFns;
use crate::asyncbroker::topic_v2::{path_result, TopicV2};
use crate::collections::{lists, map_keys, members_of, set_map_add, set_map_remove_member, set_or_empty, sets_view};
use crate::hash::{custom_string_hash, fnv1a};
use crate::legacy::datagrams::{
    RQ_Connect_ACK_OK, RQ_Data, RQ_Heartbeat, RQ_Heartbeat_Request, RQ_Ping, RQ_Shutdown,
    RQ_TopicRequest, RQ_TopicRequest_ACK, RQ_TopicRequest_NACK,
};
use crate::legacy::enums::{EndConnexionReason, MessageType, TopicsAction, TopicsResponse};
use crate::messages::broker::{actions_view, Action, ActionView, PeerAddr};

verus! {

broadcast use {vstd::std_specs::hash::group_hash_axioms, vstd::string::group_string_axioms};

/// Makes a `String` of the bytes `bytes` with `String::from_utf8`, which
/// fails when they are not UTF-8; the text holds exactly those bytes.
#[verifier::external_body]
pub(crate) fn utf8_string(bytes: Vec<u8>) -> (r: Result<String, ()>)
    ensures
        r is Ok <==> vstd::utf8::valid_utf8(bytes@),
        r matches Ok(s) ==> vstd::utf8::encode_utf8(s@) == bytes@,
{
    match String::from_utf8(bytes) {
        Ok(s) => Ok(s),
        Err(_) => Err(()),
    }
}

/// The state of the asynchronous broker.
pub struct BrokerState {
    pub clients: HashMap<u64, PeerAddr>,
    pub root: TopicV2,
    pub pings: HashMap<u8, u128>,
    pub clients_ping: HashMap<u64, u128>,
    pub client_has_heartbeat: HashMap<u64, bool>,
    pub clients_topics: HashMap<u64, HashSet<u64>>,
}

/// Mathematical view of the state.
pub struct StateView {
    pub clients: Map<u64, PeerAddr>,
    pub root: TopicV2,
    pub pings: Map<u8, u128>,
    pub clients_ping: Map<u64, u128>,
    pub client_has_heartbeat: Map<u64, bool>,
    pub clients_topics: Map<u64, Set<u64>>,
}

impl View for BrokerState {
    type V = StateView;

    open spec fn view(&self) -> StateView {
        StateView {
            clients: self.clients@,
            root: self.root,
            pings: self.pings@,
            clients_ping: self.clients_ping@,
            client_has_heartbeat: self.client_has_heartbeat@,
            clients_topics: sets_view(self.clients_topics@),
        }
    }
}

/// Every client that follows a topic is connected.
pub open spec fn followers_connected(s: StateView) -> bool {
    forall|t: u64, k: u64|
        #![trigger s.clients_topics[t].contains(k)]
        s.clients_topics.contains_key(t) && s.clients_topics[t].contains(k) ==> s.clients.contains_key(k)
}

/// `s` once the client `id` has left every topic and is forgotten.
pub open spec fn without_client(s: StateView, id: u64) -> StateView {
    StateView {
        clients: s.clients.remove(id),
        clients_topics: s.clients_topics.map_values(|f: Set<u64>| f.remove(id)),
        ..s
    }
}

/// Encoding of the CONNECT_ACK giving `id` and the heartbeat period.
pub open spec fn connect_ack_wire(id: u64, heart_beat_period: u16) -> Seq<u8> {
    RQ_Connect_ACK_OK {
        message_type: MessageType::CONNECT_ACK,
        status: crate::legacy::enums::ConnectStatus::SUCCESS,
        peer_id: id,
        heartbeat_period: heart_beat_period,
    }.wire()
}

/// `found` is what `already_connected` may answer for `ip`: whether some
/// client has that IP address, and if so one of them (0 otherwise).
pub open spec fn known_ip(s: StateView, ip: PeerAddr, found: (bool, u64)) -> bool {
    &&& found.0 == (exists|k: u64| #[trigger] s.clients.contains_key(k) && s.clients[k].same_ip(ip))
    &&& found.0 ==> s.clients.contains_key(found.1) && s.clients[found.1].same_ip(ip)
    &&& !found.0 ==> found.1 == 0
}

/// What a CONNECT from `src` gives, `found` being the answer of
/// `already_connected`: a known IP address gets the identifier it had;
/// otherwise the peer is recorded under `new_id`. Either way the peer is
/// sent a CONNECT_ACK; the result tells whether it was known.
pub open spec fn legacy_connect_outcome(
    s: StateView,
    src: PeerAddr,
    found: (bool, u64),
    new_id: u64,
    heart_beat_period: u16,
) -> (bool, StateView, Seq<ActionView>) {
    if found.0 {
        (true, s, seq![ActionView::Send { to: src, bytes: connect_ack_wire(found.1, heart_beat_period) }])
    } else {
        (
            false,
            StateView { clients: s.clients.insert(new_id, src), ..s },
            seq![ActionView::Send { to: src, bytes: connect_ack_wire(new_id, heart_beat_period) }],
        )
    }
}

impl BrokerState {
    /// An empty state whose root topic is `/`, with identifier 1.
    pub fn new() -> (r: BrokerState)
        ensures
            r@.clients == Map::<u64, PeerAddr>::empty(),
            r@.root.id == 1,
            r@.root.sub_topics@.len() == 0,
            r@.pings == Map::<u8, u128>::empty(),
            r@.clients_ping == Map::<u64, u128>::empty(),
            r@.client_has_heartbeat == Map::<u64, bool>::empty(),
            r@.clients_topics == Map::<u64, Set<u64>>::empty(),
    {
        let r = BrokerState {
            clients: HashMap::new(),
            root: TopicV2::new(1, "/".to_string()),
            pings: HashMap::new(),
            clients_ping: HashMap::new(),
            client_has_heartbeat: HashMap::new(),
            clients_topics: HashMap::new(),
        };
        assert(r@.clients_topics =~= Map::<u64, Set<u64>>::empty());
        r
    }

    /// Whether a client has the IP address of `ip`, and if so one of them
    /// (0 otherwise).
    pub fn already_connected(&self, ip: PeerAddr) -> (r: (bool, u64))
        ensures
            known_ip(self@, ip, r),
    {
        let keys = map_keys(&self.clients);
        let mut i: usize = 0;
        while i < keys.len()
            invariant
                i <= keys@.len(),
                lists(keys@, self@.clients.dom()),
                forall|j: int| 0 <= j < i ==> !self@.clients[#[trigger] keys@[j]].same_ip(ip),
            decreases keys.len() - i,
        {
            let k = keys[i];
            assert(keys@.to_set().contains(k));
            let addr = *self.clients.get(&k).unwrap();
            if addr.ip == ip.ip && addr.ipv6 == ip.ipv6 {
                return (true, k);
            }
            i = i + 1;
        }
        assert forall|k: u64| #[trigger] self@.clients.contains_key(k) implies !self@.clients[k].same_ip(ip) by {
            assert(keys@.to_set().contains(k));
        }
        (false, 0)
    }

    /// The identifier of the client whose address is `src`, if any.
    pub fn get_client_id(&self, src: PeerAddr) -> (r: Option<u64>)
        ensures
            match r {
                Some(id) => self@.clients.contains_key(id) && self@.clients[id] == src,
                None => forall|k: u64| #[trigger] self@.clients.contains_key(k) ==> self@.clients[k] != src,
            },
    {
        let keys = map_keys(&self.clients);
        let mut i: usize = 0;
        while i < keys.len()
            invariant
                i <= keys@.len(),
                lists(keys@, self@.clients.dom()),
                forall|j: int| 0 <= j < i ==> self@.clients[#[trigger] keys@[j]] != src,
            decreases keys.len() - i,
        {
            let k = keys[i];
            assert(keys@.to_set().contains(k));
            let addr = *self.clients.get(&k).unwrap();
            if addr == src {
                return Some(k);
            }
            i = i + 1;
        }
        assert forall|k: u64| #[trigger] self@.clients.contains_key(k) implies self@.clients[k] != src by {
            assert(keys@.to_set().contains(k));
        }
        None
    }

    /// The client `client_id` is connected.
    pub fn is_online(&self, client_id: u64) -> (r: bool)
        ensures
            r == self@.clients.contains_key(client_id),
    {
        self.clients.contains_key(&client_id)
    }

    /// Answers a CONNECT from `src`, as `legacy_connect_outcome` says, a
    /// new peer being recorded under `new_id`; tells whether the peer was
    /// known.
    pub fn connect_peer(&mut self, src: PeerAddr, new_id: u64, heart_beat_period: u16) -> (r: (
        bool,
        Vec<Action>,
    ))
        ensures
            exists|found: (bool, u64)|
                known_ip(old(self)@, src, found) && (r.0, final(self)@, actions_view(r.1@))
                    == legacy_connect_outcome(old(self)@, src, found, new_id, heart_beat_period),
    {
        let found = self.already_connected(src);
        let (is_connected, current_id) = found;
        let uuid = if is_connected {
            current_id
        } else {
            self.clients.insert(new_id, src);
            new_id
        };
        let ack = RQ_Connect_ACK_OK::new(uuid, heart_beat_period);
        let mut out: Vec<Action> = Vec::new();
        out.push(Action::Send { to: src, bytes: ack.as_bytes() });
        proof {
            let e = legacy_connect_outcome(old(self)@, src, found, new_id, heart_beat_period);
            assert(actions_view(out@) =~= e.2);
            assert(self@ == e.1);
        }
        (is_connected, out)
    }

    /// Answers a CONNECT from `src`; a new peer gets a fresh identifier
    /// made from the time `clock_ns` and a random number.
    pub fn handle_connect(&mut self, src: PeerAddr, clock_ns: u128, heart_beat_period: u16) -> (r: (
        bool,
        Vec<Action>,
    ))
        ensures
            exists|found: (bool, u64), new_id: u64|
                known_ip(old(self)@, src, found) && (r.0, final(self)@, actions_view(r.1@))
                    == legacy_connect_outcome(old(self)@, src, found, new_id, heart_beat_period),
    {
        let new_id = crate::messages::session::get_new_id(clock_ns);
        self.connect_peer(src, new_id, heart_beat_period)
    }

    /// Disconnects the client `client_id`: it leaves every topic and is
    /// forgotten.
    pub fn handle_disconnect(&mut self, client_id: u64)
        ensures
            final(self)@ == without_client(old(self)@, client_id),
    {
        let topic_ids = map_keys(&self.clients_topics);
        let ghost start = self@;
        assert(sets_view(self.clients_topics@).dom() =~= self.clients_topics@.dom());
        let mut i: usize = 0;
        while i < topic_ids.len()
            invariant
                i <= topic_ids@.len(),
                lists(topic_ids@, start.clients_topics.dom()),
                self@.clients == start.clients,
                self@.root == start.root,
                self@.pings == start.pings,
                self@.clients_ping == start.clients_ping,
                self@.client_has_heartbeat == start.client_has_heartbeat,
                self@.clients_topics.dom() == start.clients_topics.dom(),
                forall|t: u64| #[trigger] self@.clients_topics.contains_key(t) ==> self@.clients_topics[t]
                    == if topic_ids@.take(i as int).contains(t) {
                        start.clients_topics[t].remove(client_id)
                    } else {
                        start.clients_topics[t]
                    },
            decreases topic_ids.len() - i,
        {
            let t = topic_ids[i];
            assert(topic_ids@.to_set().contains(t));
            let ghost before = self@.clients_topics;
            assert(!topic_ids@.take(i as int).contains(t)) by {
                if topic_ids@.take(i as int).contains(t) {
                    let j = choose|j: int| 0 <= j < i && topic_ids@.take(i as int)[j] == t;
                    assert(topic_ids@[j] == topic_ids@[i as int]);
                }
            }
            set_map_remove_member(&mut self.clients_topics, t, client_id);
            assert(topic_ids@.take(i + 1) =~= topic_ids@.take(i as int).push(t));
            assert forall|u: u64| #[trigger] self@.clients_topics.contains_key(u) implies self@.clients_topics[u]
                == if topic_ids@.take(i + 1).contains(u) {
                    start.clients_topics[u].remove(client_id)
                } else {
                    start.clients_topics[u]
                } by {
                if u != t {
                    assert(topic_ids@.take(i + 1).contains(u) == topic_ids@.take(i as int).contains(u));
                    assert(before.contains_key(u));
                } else {
                    assert(topic_ids@.take(i + 1)[i as int] == t);
                }
            }
            i = i + 1;
        }
        self.clients.remove(&client_id);
        proof {
            let e = without_client(start, client_id);
            assert forall|t: u64| #[trigger] self@.clients_topics.contains_key(t) implies self@.clients_topics[t]
                == e.clients_topics[t] by {
                assert(topic_ids@.to_set().contains(t));
                assert(topic_ids@.take(topic_ids@.len() as int) =~= topic_ids@);
            }
            assert(self@.clients_topics =~= e.clients_topics);
        }
    }

    /// Records that the connected client `client_id` sent a HEARTBEAT.
    pub fn handle_heartbeat(&mut self, client_id: u64)
        ensures
            old(self)@.clients.contains_key(client_id) ==> final(self)@ == (StateView {
                client_has_heartbeat: old(self)@.client_has_heartbeat.insert(client_id, true),
                ..old(self)@
            }),
            !old(self)@.clients.contains_key(client_id) ==> final(self)@ == old(self)@,
    {
        if self.clients.contains_key(&client_id) {
            self.client_has_heartbeat.insert(client_id, true);
        }
    }

    /// Records the answer of the connected client `client_id` to the PING
    /// `ping_id` received at `current_time`: its ping becomes half the
    /// round trip and the reference is freed. A client that is not
    /// connected changes nothing.
    pub fn handle_pong(&mut self, client_id: u64, ping_id: u8, current_time: u128)
        requires
            old(self)@.clients.contains_key(client_id) ==> old(self)@.pings.contains_key(ping_id)
                && current_time >= old(self)@.pings[ping_id],
        ensures
            old(self)@.clients.contains_key(client_id) ==> final(self)@ == (StateView {
                pings: old(self)@.pings.remove(ping_id),
                clients_ping: old(self)@.clients_ping.insert(
                    client_id,
                    ((current_time - old(self)@.pings[ping_id]) / 2) as u128,
                ),
                ..old(self)@
            }),
            !old(self)@.clients.contains_key(client_id) ==> final(self)@ == old(self)@,
    {
        if !self.clients.contains_key(&client_id) {
            return ;
        }
        let round_trip = (current_time - *self.pings.get(&ping_id).unwrap()) / 2;
        self.pings.remove(&ping_id);
        self.clients_ping.insert(client_id, round_trip);
    }
}

/// A TOPIC_REQUEST that `topics_request_handler` reads without failing:
/// its size counts at least the action byte, its path fits in the buffer
/// and is UTF-8.
pub open spec fn topic_request_readable(b: Seq<u8>) -> bool {
    &&& b.len() >= 4
    &&& crate::messages::datagrams::u16_at(b, 1) >= 1
    &&& 3 + crate::messages::datagrams::u16_at(b, 1) <= b.len()
    &&& vstd::utf8::valid_utf8(topic_path(b))
}

/// The path that a TOPIC_REQUEST carries.
pub open spec fn topic_path(b: Seq<u8>) -> Seq<u8> {
    b.subrange(4, 3 + crate::messages::datagrams::u16_at(b, 1))
}

/// Encoding of the acknowledgement `status` of a request on `topic_id`.
pub open spec fn topic_ack_wire(topic_id: u64, status: TopicsResponse) -> Seq<u8> {
    RQ_TopicRequest_ACK { message_type: MessageType::TOPIC_REQUEST_ACK, status, topic_id }.wire()
}

/// Encoding of the refusal of a subscription.
pub open spec fn subscription_failed_wire() -> Seq<u8> {
    seq![
        crate::legacy::enums::message_type_to_byte(MessageType::TOPIC_REQUEST_ACK),
        crate::legacy::enums::topics_response_to_byte(TopicsResponse::FAILURE_SUB),
    ] + "Subscribing to {} failed :(".spec_bytes()
}

/// `m` where `v` follows the topic `t`, the topic's set being created when
/// needed.
pub open spec fn follow(m: Map<u64, Set<u64>>, t: u64, v: u64) -> Map<u64, Set<u64>> {
    m.insert(t, set_or_empty(m, t).insert(v))
}

/// `m` where `v` no longer follows the topic `t`, when the topic has a set.
pub open spec fn unfollow(m: Map<u64, Set<u64>>, t: u64, v: u64) -> Map<u64, Set<u64>> {
    if m.contains_key(t) {
        m.insert(t, m[t].remove(v))
    } else {
        m
    }
}

/// The TOPIC_REQUEST `b` of the connected client `id` takes the state `s`
/// to `t` with the actions `acts`: a subscription follows the path from
/// the root, each name below the previous one and added when missing, and makes
/// the client follow the topic the path names, or is refused when the
/// path is not valid; an unsubscription stops the client following the
/// topic whose identifier is the hash of the path; an unknown action
/// changes nothing. Each answer goes to the client's address.
pub open spec fn topic_request_done(
    s: StateView,
    id: u64,
    b: Seq<u8>,
    t: StateView,
    acts: Seq<ActionView>,
) -> bool {
    let to = s.clients[id];
    let path = topic_path(b);
    match crate::legacy::enums::topics_action_from_byte(b[3]) {
        TopicsAction::SUBSCRIBE => {
            &&& crate::asyncbroker::topic_v2::path_followed(s.root, t.root, path)
            &&& t.clients == s.clients && t.pings == s.pings && t.clients_ping == s.clients_ping
            &&& t.client_has_heartbeat == s.client_has_heartbeat
            &&& match path_result(path) {
                Ok(topic_id) => t.clients_topics == follow(s.clients_topics, topic_id, id) && acts
                    == seq![
                    ActionView::Send { to, bytes: topic_ack_wire(topic_id, TopicsResponse::SUCCESS_SUB) },
                ],
                Err(_) => t.clients_topics == s.clients_topics && acts == seq![
                    ActionView::Send { to, bytes: subscription_failed_wire() },
                ],
            }
        },
        TopicsAction::UNSUBSCRIBE => {
            &&& t == StateView {
                clients_topics: unfollow(s.clients_topics, fnv1a(path), id),
                ..s
            }
            &&& acts == seq![
                ActionView::Send {
                    to,
                    bytes: topic_ack_wire(fnv1a(path), TopicsResponse::SUCCESS_USUB),
                },
            ]
        },
        TopicsAction::UNKNOWN => t == s && acts.len() == 0,
    }
}

/// Encoding of the DATA that forwards `data` on `topic_id`.
pub open spec fn data_wire(topic_id: u64, data: Seq<u8>) -> Seq<u8> {
    seq![crate::legacy::enums::message_type_to_byte(MessageType::DATA)] + crate::bytes::le16(
        (data.len() + 8) as u16,
    ) + crate::bytes::le64(topic_id) + data
}

/// A DATA that `handle_data` reads without failing.
pub open spec fn data_readable(b: Seq<u8>) -> bool {
    &&& b.len() >= 11
    &&& crate::messages::datagrams::u16_at(b, 1) >= 8
    &&& 3 + crate::messages::datagrams::u16_at(b, 1) <= b.len()
}

/// Sending `bytes` to the address of each client of `order`, in order.
pub open spec fn sends_to(clients: Map<u64, PeerAddr>, order: Seq<u64>, bytes: Seq<u8>) -> Seq<
    ActionView,
> {
    order.map_values(|k: u64| ActionView::Send { to: clients[k], bytes })
}

/// The DATA `b` of the client `id` goes to every other follower of its
/// topic, visited in the order `order`; nothing is sent for a topic that
/// nobody follows.
pub open spec fn data_sends(s: StateView, id: u64, b: Seq<u8>, order: Seq<u64>) -> Seq<ActionView> {
    let topic = crate::messages::datagrams::u64_at(b, 3);
    let data = b.subrange(11, 3 + crate::messages::datagrams::u16_at(b, 1));
    if !s.clients_topics.contains_key(topic) {
        Seq::empty()
    } else {
        sends_to(s.clients, order, data_wire(topic, data))
    }
}

impl BrokerState {
    /// Handles a TOPIC_REQUEST of the connected client `client_id`, as
    /// `topic_request_done` says.
    pub fn topics_request_handler(&mut self, client_id: u64, buffer: &[u8]) -> (r: Vec<Action>)
        requires
            old(self)@.clients.contains_key(client_id),
            topic_request_readable(buffer@),
        ensures
            topic_request_done(old(self)@, client_id, buffer@, final(self)@, actions_view(r@)),
    {
        let client_addr = *self.clients.get(&client_id).unwrap();
        let topic_rq = RQ_TopicRequest::from(buffer);
        let path_text = utf8_string(topic_rq.payload).unwrap();
        assert(vstd::utf8::encode_utf8(path_text@) == topic_path(buffer@));
        let mut out: Vec<Action> = Vec::new();
        match topic_rq.action {
            TopicsAction::SUBSCRIBE => {
                let topic_result = TopicV2::create_topicsGPT(path_text.as_str(), &mut self.root);
                match topic_result {
                    Ok(topic_id) => {
                        set_map_add(&mut self.clients_topics, topic_id, client_id);
                        let ack = RQ_TopicRequest_ACK::new(topic_id, TopicsResponse::SUCCESS_SUB);
                        out.push(Action::Send { to: client_addr, bytes: ack.as_bytes() });
                        assert(actions_view(out@) =~= seq![
                            ActionView::Send { to: client_addr, bytes: topic_ack_wire(topic_id, TopicsResponse::SUCCESS_SUB) },
                        ]);
                        assert(self@.clients_topics == follow(old(self)@.clients_topics, topic_id, client_id));
                        assert(path_result(topic_path(buffer@)) == Ok::<u64, Seq<char>>(topic_id));
                    },
                    Err(_) => {
                        let nack = RQ_TopicRequest_NACK::new(
                            TopicsResponse::FAILURE_SUB,
                            "Subscribing to {} failed :(".to_string(),
                        );
                        out.push(Action::Send { to: client_addr, bytes: nack.as_bytes() });
                        assert(nack.error_message@ == "Subscribing to {} failed :("@);
                        assert(actions_view(out@) =~= seq![
                            ActionView::Send { to: client_addr, bytes: subscription_failed_wire() },
                        ]);
                    },
                }
            },
            TopicsAction::UNSUBSCRIBE => {
                let topic_id = custom_string_hash(path_text.as_str());
                set_map_remove_member(&mut self.clients_topics, topic_id, client_id);
                let ack = RQ_TopicRequest_ACK::new(topic_id, TopicsResponse::SUCCESS_USUB);
                out.push(Action::Send { to: client_addr, bytes: ack.as_bytes() });
                assert(actions_view(out@) =~= seq![
                    ActionView::Send { to: client_addr, bytes: topic_ack_wire(topic_id, TopicsResponse::SUCCESS_USUB) },
                ]);
            },
            TopicsAction::UNKNOWN => {
                assert(actions_view(out@) =~= Seq::<ActionView>::empty());
            },
        }
        proof {
            if topic_rq.action == TopicsAction::UNSUBSCRIBE {
                assert(self@.clients_topics =~= unfollow(
                    old(self)@.clients_topics,
                    fnv1a(topic_path(buffer@)),
                    client_id,
                ));
            }
        }
        out
    }

    /// Forwards the DATA `buffer` of the client `client_id` to the other
    /// followers of its topic, in the order of their set, which no
    /// contract fixes.
    pub fn handle_data(&self, client_id: u64, buffer: &[u8]) -> (r: Vec<Action>)
        requires
            data_readable(buffer@),
            followers_connected(self@),
        ensures
            exists|order: Seq<u64>|
                lists(
                    order,
                    set_or_empty(self@.clients_topics, crate::messages::datagrams::u64_at(buffer@, 3)).remove(
                        client_id,
                    ),
                ) && actions_view(r@) == data_sends(self@, client_id, buffer@, order),
    {
        let data_rq = RQ_Data::from(buffer);
        let members = members_of(&self.clients_topics, data_rq.topic_id);
        let mut out: Vec<Action> = Vec::new();
        let mut interested: Vec<u64> = Vec::new();
        let mut k: usize = 0;
        while k < members.len()
            invariant
                k <= members@.len(),
                members@.no_duplicates(),
                interested@.no_duplicates(),
                interested@.to_set() == members@.take(k as int).to_set().remove(client_id),
            decreases members.len() - k,
        {
            let x = members[k];
            let ghost prev = interested@;
            proof {
                members@.take(k as int).lemma_push_to_set_commute(x);
                assert(members@.take(k + 1) =~= members@.take(k as int).push(x));
                assert(!members@.take(k as int).contains(x)) by {
                    if members@.take(k as int).contains(x) {
                        let j = choose|j: int| 0 <= j < k && members@.take(k as int)[j] == x;
                        assert(members@[j] == members@[k as int]);
                    }
                }
            }
            if x != client_id {
                interested.push(x);
                proof {
                    prev.lemma_push_to_set_commute(x);
                    assert(!prev.contains(x)) by {
                        if prev.contains(x) {
                            assert(prev.to_set().contains(x));
                        }
                    }
                    assert forall|i: int, j: int| 0 <= i < j < interested@.len() implies interested@[i]
                        != interested@[j] by {
                        if j == interested@.len() - 1 {
                            assert(prev.contains(prev[i]));
                        }
                    }
                }
            }
            k = k + 1;
            assert(interested@.to_set() =~= members@.take(k as int).to_set().remove(client_id));
        }
        assert(members@.take(members@.len() as int) =~= members@);
        if !self.clients_topics.contains_key(&data_rq.topic_id) {
            assert(actions_view(out@) =~= data_sends(self@, client_id, buffer@, interested@));
            return out;
        }
        let forwarded = RQ_Data::new(data_rq.topic_id, data_rq.data);
        let bytes = forwarded.as_bytes();
        let ghost wire = data_wire(data_rq.topic_id, data_rq.data@);
        assert(bytes@ =~= wire);
        let mut i: usize = 0;
        while i < interested.len()
            invariant
                i <= interested@.len(),
                bytes@ == wire,
                followers_connected(self@),
                self@.clients_topics.contains_key(data_rq.topic_id),
                interested@.to_set() == self@.clients_topics[data_rq.topic_id].remove(client_id),
                actions_view(out@) == sends_to(self@.clients, interested@.take(i as int), wire),
            decreases interested.len() - i,
        {
            let client = interested[i];
            assert(interested@.to_set().contains(client));
            assert(self@.clients_topics[data_rq.topic_id].contains(client));
            let client_addr = *self.clients.get(&client).unwrap();
            let ghost prev = actions_view(out@);
            let copy = bytes.clone();
            assert(copy@ =~= bytes@);
            out.push(Action::Send { to: client_addr, bytes: copy });
            assert(actions_view(out@) =~= prev.push(ActionView::Send { to: client_addr, bytes: wire }));
            assert(interested@.take(i + 1) =~= interested@.take(i as int).push(client));
            assert(interested@.take(i + 1).map_values(|k: u64| ActionView::Send { to: self@.clients[k], bytes: wire })
                =~= interested@.take(i as int).map_values(|k: u64| ActionView::Send { to: self@.clients[k], bytes: wire }).push(
                ActionView::Send { to: client_addr, bytes: wire },
            ));
            assert(actions_view(out@) =~= sends_to(self@.clients, interested@.take(i + 1), wire));
            i = i + 1;
        }
        assert(interested@.take(interested@.len() as int) =~= interested@);
        assert(lists(
            interested@,
            set_or_empty(self@.clients_topics, crate::messages::datagrams::u64_at(buffer@, 3)).remove(
                client_id,
            ),
        ));
        assert(actions_view(out@) == data_sends(self@, client_id, buffer@, interested@));
        out
    }
}

/// Encoding of a PING carrying `ping_id`.
pub open spec fn ping_wire(ping_id: u8) -> Seq<u8> {
    RQ_Ping { message_type: MessageType::PING, ping_id }.wire()
}

/// What one heartbeat check of the client `id` at `addr` gives, after
/// `missed` periods without a HEARTBEAT: the flag of the client is
/// lowered; a HEARTBEAT received resets the count and is answered; otherwise
/// the count grows, a HEARTBEAT_REQUEST goes out at the second missed
/// period, and at the fourth the client is sent a SHUTDOWN and
/// disconnected.
pub open spec fn legacy_heartbeat_outcome(s: StateView, id: u64, addr: PeerAddr, missed: u8) -> (
    u8,
    StateView,
    Seq<ActionView>,
) {
    let has_sent = s.client_has_heartbeat.contains_key(id) && s.client_has_heartbeat[id];
    let lowered = StateView { client_has_heartbeat: s.client_has_heartbeat.insert(id, false), ..s };
    if has_sent {
        (
            0,
            lowered,
            seq![
                ActionView::Send {
                    to: addr,
                    bytes: RQ_Heartbeat { message_type: MessageType::HEARTBEAT }.wire(),
                },
            ],
        )
    } else if missed + 1 == 2 {
        (
            2,
            lowered,
            seq![
                ActionView::Send {
                    to: addr,
                    bytes: RQ_Heartbeat_Request { message_type: MessageType::HEARTBEAT_REQUEST }.wire(),
                },
            ],
        )
    } else if missed + 1 == 4 {
        (
            4,
            without_client(lowered, id),
            seq![
                ActionView::Send {
                    to: addr,
                    bytes: RQ_Shutdown {
                        message_type: MessageType::SHUTDOWN,
                        reason: EndConnexionReason::SHUTDOWN,
                    }.wire(),
                },
            ],
        )
    } else {
        ((missed + 1) as u8, lowered, Seq::empty())
    }
}

impl BrokerState {
    /// Keeps `now` as the reference time of a fresh ping identifier made
    /// from the time `clock_ns`, and returns it.
    pub fn get_new_ping_reference(&mut self, now: u128, clock_ns: u128) -> (r: u8)
        ensures
            final(self)@ == (StateView { pings: old(self)@.pings.insert(r, now), ..old(self)@ }),
    {
        let key = crate::messages::session::get_new_ping_id(clock_ns);
        self.pings.insert(key, now);
        key
    }

    /// Sends a PING to `client_addr` with a fresh ping reference kept with
    /// the time `now`; returns the ping identifier.
    pub fn send_ping(&mut self, client_addr: PeerAddr, now: u128, clock_ns: u128) -> (r: (u8, Vec<
        Action,
    >))
        ensures
            final(self)@ == (StateView { pings: old(self)@.pings.insert(r.0, now), ..old(self)@ }),
            actions_view(r.1@) == seq![ActionView::Send { to: client_addr, bytes: ping_wire(r.0) }],
    {
        let ping_id = self.get_new_ping_reference(now, clock_ns);
        let ping = RQ_Ping::new(ping_id);
        let mut out: Vec<Action> = Vec::new();
        out.push(Action::Send { to: client_addr, bytes: ping.as_bytes() });
        assert(actions_view(out@) =~= seq![ActionView::Send { to: client_addr, bytes: ping_wire(ping_id) }]);
        (ping_id, out)
    }

    /// Forgets the ping of the client `client_id`, once its pings stop.
    pub fn forget_ping(&mut self, client_id: u64)
        ensures
            final(self)@ == (StateView { clients_ping: old(self)@.clients_ping.remove(client_id), ..old(self)@ }),
    {
        self.clients_ping.remove(&client_id);
    }

    /// One heartbeat check of the client `client_id` at `client_addr`,
    /// after `missed` periods without a HEARTBEAT, as
    /// `legacy_heartbeat_outcome` says; returns the new count.
    pub fn heartbeat_check(&mut self, client_id: u64, client_addr: PeerAddr, missed: u8) -> (r: (u8, Vec<
        Action,
    >))
        requires
            missed < 255,
        ensures
            (r.0, final(self)@, actions_view(r.1@)) == legacy_heartbeat_outcome(
                old(self)@,
                client_id,
                client_addr,
                missed,
            ),
    {
        let has_sent_heartbeat = match self.client_has_heartbeat.get(&client_id) {
            Some(value) => *value,
            None => false,
        };
        self.client_has_heartbeat.insert(client_id, false);
        let mut out: Vec<Action> = Vec::new();
        let mut missed_heartbeats = missed;
        if !has_sent_heartbeat {
            missed_heartbeats = missed_heartbeats + 1;
            if missed_heartbeats == 2 {
                out.push(Action::Send { to: client_addr, bytes: RQ_Heartbeat_Request::new().as_bytes() });
            } else if missed_heartbeats == 4 {
                out.push(Action::Send {
                    to: client_addr,
                    bytes: RQ_Shutdown::new(EndConnexionReason::SHUTDOWN).as_bytes(),
                });
                self.handle_disconnect(client_id);
            }
        } else {
            missed_heartbeats = 0;
            out.push(Action::Send { to: client_addr, bytes: RQ_Heartbeat::new().as_bytes() });
        }
        assert(actions_view(out@) =~= legacy_heartbeat_outcome(old(self)@, client_id, client_addr, missed).2);
        (missed_heartbeats, out)
    }

    /// Forgets the heartbeat flag of the client `client_id`, once its
    /// checks stop.
    pub fn forget_heartbeat(&mut self, client_id: u64)
        ensures
            final(self)@ == (StateView {
                client_has_heartbeat: old(self)@.client_has_heartbeat.remove(client_id),
                ..old(self)@
            }),
    {
        self.client_has_heartbeat.remove(&client_id);
    }
}

} // verus!
