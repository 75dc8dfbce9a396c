//! Decisions that a client's manager takes on the commands it receives:
//! forwarding data, answering topic requests and object requests.

use vstd::prelude::*;
use std::collections::{HashMap, HashSet};
use crate::bytes::{le16, le32, le64};
use crate::collections::{lists, members_of, set_or_empty};
use vstd::string::StringSliceAdditionalSpecFns;
use crate::messages::broker::{
    actions_view, removed_client, stamped, with_topics, without_topics, Action, ActionView,
    Broker, BrokerView, ClientView,
};
use crate::messages::datagrams::{
    u16_at, u32_at, u64_at, RQ_Data, RQ_Shutdown, RQ_TopicRequest, RQ_TopicRequest_ACK,
    RQ_TopicRequest_NACK,
};
use crate::messages::enums::{
    end_connexion_reason_to_byte, message_type_to_byte, EndConnexionReason, MessageType,
    TopicsAction, TopicsResponse,
};

verus! {

broadcast use vstd::std_specs::hash::group_hash_axioms;

/// Encoding of a SHUTDOWN datagram giving `reason`.
pub open spec fn shutdown_wire(reason: EndConnexionReason) -> Seq<u8> {
    seq![message_type_to_byte(MessageType::SHUTDOWN), end_connexion_reason_to_byte(reason)]
}

/// Encoding of the DATA datagram that forwards `data`.
pub open spec fn data_wire(sequence_number: u32, topic_id: u64, data: Seq<u8>) -> Seq<u8> {
    seq![message_type_to_byte(MessageType::DATA)] + le16(data.len() as u16) + le32(sequence_number)
        + le64(topic_id) + data
}

/// Forwarding `bytes` to the subscribers `subs`, in that order, from the
/// state `s` at time `now`: each subscriber with an address and a
/// connection gets the bytes; the first one that lacks its address is
/// forgotten and ends the forwarding; the first one that lacks its
/// connection is forgotten, is sent a SHUTDOWN for a synchronisation
/// error, and ends the forwarding.
pub open spec fn fanout(s: BrokerView, subs: Seq<u64>, bytes: Seq<u8>, now: u128) -> (
    BrokerView,
    Seq<ActionView>,
)
    decreases subs.len(),
{
    if subs.len() == 0 {
        (s, Seq::empty())
    } else {
        let sub = subs[0];
        if !s.addresses.contains_key(sub) {
            (removed_client(s, sub), Seq::empty())
        } else if !s.clients.contains_key(sub) {
            (
                removed_client(s, sub),
                seq![
                    ActionView::Send {
                        to: s.addresses[sub],
                        bytes: shutdown_wire(EndConnexionReason::SYNC_ERROR),
                    },
                ],
            )
        } else {
            let next = BrokerView { clients: stamped(s.clients, sub, now), ..s };
            let (f, acts) = fanout(next, subs.drop_first(), bytes, now);
            (f, seq![ActionView::Send { to: s.addresses[sub], bytes }] + acts)
        }
    }
}

/// A DATA datagram that `RQ_Data::try_from` decodes without failing.
pub open spec fn data_decodable(b: Seq<u8>) -> bool {
    b.len() >= 15 && 15 + u16_at(b, 1) <= b.len()
}

/// The sequence check: a datagram is refused when its sequence number is
/// above 50 and below the last one seen on its topic.
pub open spec fn data_accepted(c: ClientView, topic_id: u64, sequence_number: u32) -> bool {
    !(c.requests_counter.contains_key(topic_id) && sequence_number < c.requests_counter[topic_id]
        && sequence_number > 50)
}

/// The state once the client `id` has recorded `seq` as the last sequence
/// number seen on `topic`.
pub open spec fn counted(s: BrokerView, id: u64, topic: u64, seq: u32) -> BrokerView {
    BrokerView {
        clients: s.clients.insert(
            id,
            ClientView {
                requests_counter: s.clients[id].requests_counter.insert(topic, seq),
                ..s.clients[id]
            },
        ),
        ..s
    }
}

/// What handling the DATA datagram `b` sent by `id` gives, when the
/// subscribers are visited in the order `order`.
pub open spec fn data_outcome(s: BrokerView, id: u64, b: Seq<u8>, now: u128, order: Seq<u64>) -> (
    BrokerView,
    Seq<ActionView>,
) {
    let topic = u64_at(b, 7);
    let seq = u32_at(b, 3);
    let data = b.subrange(15, 15 + u16_at(b, 1));
    if !s.clients.contains_key(id) || !data_decodable(b) || !data_accepted(s.clients[id], topic, seq) {
        (s, Seq::empty())
    } else {
        let c = counted(s, id, topic, seq);
        if !c.topics_subscribers.contains_key(topic) {
            (c, Seq::empty())
        } else {
            fanout(c, order, data_wire(seq, topic, data), now)
        }
    }
}

/// Handling the DATA datagram `b` sent by `id` from the state `s` gives
/// the state `t` and the actions `acts`, when the other subscribers of its
/// topic are visited in the order `order`.
pub open spec fn data_handled(
    s: BrokerView,
    id: u64,
    b: Seq<u8>,
    now: u128,
    order: Seq<u64>,
    t: BrokerView,
    acts: Seq<ActionView>,
) -> bool {
    &&& lists(order, set_or_empty(s.topics_subscribers, data_topic(b)).remove(id))
    &&& (t, acts) == data_outcome(s, id, b, now, order)
}

/// Topic of a DATA datagram, or 0 when the buffer is too short to hold one.
pub open spec fn data_topic(b: Seq<u8>) -> u64 {
    if b.len() >= 15 {
        u64_at(b, 7)
    } else {
        0
    }
}

/// Reads the topic of a DATA datagram, or 0 when the buffer is too short
/// to hold one.
fn topic_of_buffer(buffer: &[u8]) -> (r: u64)
    ensures
        r == data_topic(buffer@),
{
    if buffer.len() < 15 {
        0
    } else {
        crate::bytes::read_u64_le(buffer, 7)
    }
}

impl Broker {
    /// Handles a DATA datagram sent by the connected client `client_id`:
    /// after the sequence check, the data goes to every other subscriber
    /// of its topic. The subscribers are visited in the order of their
    /// set, which no contract fixes.
    pub fn handle_data(&mut self, client_id: u64, buffer: &[u8], now: u128) -> (r: Vec<Action>)
        ensures
            exists|order: Seq<u64>|
                data_handled(old(self)@, client_id, buffer@, now, order, final(self)@, actions_view(r@)),
    {
        let mut out: Vec<Action> = Vec::new();
        assert(actions_view(out@) =~= Seq::<ActionView>::empty());
        let ghost order0 = set_or_empty(old(self)@.topics_subscribers, data_topic(buffer@)).remove(
            client_id,
        );
        let subscribers = members_of(&self.topics_subscribers, topic_of_buffer(buffer));
        let mut interested: Vec<u64> = Vec::new();
        let mut k: usize = 0;
        while k < subscribers.len()
            invariant
                k <= subscribers@.len(),
                subscribers@.no_duplicates(),
                interested@.no_duplicates(),
                interested@.to_set() == subscribers@.take(k as int).to_set().remove(client_id),
            decreases subscribers.len() - k,
        {
            let x = subscribers[k];
            let ghost prev = interested@;
            proof {
                subscribers@.take(k as int).lemma_push_to_set_commute(x);
                assert(subscribers@.take(k + 1) =~= subscribers@.take(k as int).push(x));
                assert(!subscribers@.take(k as int).contains(x)) by {
                    if subscribers@.take(k as int).contains(x) {
                        let j = choose|j: int| 0 <= j < k && subscribers@.take(k as int)[j] == x;
                        assert(subscribers@[j] == subscribers@[k as int]);
                    }
                }
            }
            if x != client_id {
                interested.push(x);
                proof {
                    prev.lemma_push_to_set_commute(x);
                    assert(!prev.contains(x)) by {
                        if prev.contains(x) {
                            assert(prev.to_set().contains(x));
                        }
                    }
                    assert forall|i: int, j: int| 0 <= i < j < interested@.len() implies interested@[i]
                        != interested@[j] by {
                        if j == interested@.len() - 1 {
                            assert(prev.contains(prev[i]));
                        }
                    }
                }
            }
            k = k + 1;
            assert(interested@.to_set() =~= subscribers@.take(k as int).to_set().remove(client_id));
        }
        assert(subscribers@.take(subscribers@.len() as int) =~= subscribers@);
        assert(lists(interested@, order0));
        if !self.clients.contains_key(&client_id) || buffer.len() < 15 {
            assert(data_handled(old(self)@, client_id, buffer@, now, interested@, self@, actions_view(out@)));
            return out;
        }
        let size = crate::bytes::read_u16_le(buffer, 1);
        if 15 + (size as usize) > buffer.len() {
            assert(data_handled(old(self)@, client_id, buffer@, now, interested@, self@, actions_view(out@)));
            return out;
        }
        let data_rq = match RQ_Data::try_from(buffer) {
            Ok(request) => request,
            Err(_) => {
                assert(data_handled(old(self)@, client_id, buffer@, now, interested@, self@, actions_view(out@)));
                return out;
            },
        };
        let mut c = self.clients.remove(&client_id).unwrap();
        match c.requests_counter.get(&data_rq.topic_id) {
            None => {},
            Some(current_sequence) => {
                if data_rq.sequence_number < *current_sequence && data_rq.sequence_number > 50 {
                    self.clients.insert(client_id, c);
                    assert(self@.clients =~= old(self)@.clients);
                    assert(data_handled(old(self)@, client_id, buffer@, now, interested@, self@, actions_view(out@)));
                    return out;
                }
            },
        }
        c.requests_counter.insert(data_rq.topic_id, data_rq.sequence_number);
        self.clients.insert(client_id, c);
        let ghost s1 = self@;
        assert(s1 == counted(old(self)@, client_id, data_rq.topic_id, data_rq.sequence_number))
            by {
            assert(s1.clients =~= counted(old(self)@, client_id, data_rq.topic_id, data_rq.sequence_number).clients);
        }
        if !self.topics_subscribers.contains_key(&data_rq.topic_id) {
            assert(data_handled(old(self)@, client_id, buffer@, now, interested@, self@, actions_view(out@)));
            return out;
        }
        let forwarded = RQ_Data::new(data_rq.sequence_number, data_rq.topic_id, data_rq.data);
        let bytes = forwarded.as_bytes();
        assert(bytes@ == data_wire(data_rq.sequence_number, data_rq.topic_id, forwarded.data@));
        let ghost start = self@;
        let mut i: usize = 0;
        assert(forwarded.data@ == buffer@.subrange(15, 15 + u16_at(buffer@, 1)));
        assert(data_outcome(old(self)@, client_id, buffer@, now, interested@) == fanout(
            start,
            interested@,
            bytes@,
            now,
        ));
        assert(interested@.skip(0) =~= interested@);
        proof {
            let (f, a) = fanout(self@, interested@, bytes@, now);
            assert(actions_view(out@) + a =~= a);
        }
        while i < interested.len()
            invariant
                i <= interested@.len(),
                order0 == set_or_empty(old(self)@.topics_subscribers, data_topic(buffer@)).remove(
                    client_id,
                ),
                lists(interested@, order0),
                data_outcome(old(self)@, client_id, buffer@, now, interested@) == fanout(
                    start,
                    interested@,
                    bytes@,
                    now,
                ),
                fanout(start, interested@, bytes@, now) == {
                    let (f, a) = fanout(self@, interested@.skip(i as int), bytes@, now);
                    (f, actions_view(out@) + a)
                },
            decreases interested.len() - i,
        {
            let sub = interested[i];
            assert(interested@.skip(i as int)[0] == sub);
            assert(interested@.skip(i as int).drop_first() =~= interested@.skip(i + 1));
            let addr = match self.addresses.get(&sub) {
                None => {
                    let ghost pre = self@;
                    assert(fanout(pre, interested@.skip(i as int), bytes@, now) == (removed_client(pre, sub), Seq::<ActionView>::empty()));
                    self.try_remove_client_from_set(sub);
                    assert(self@ == removed_client(pre, sub));
                    assert(actions_view(out@) + Seq::<ActionView>::empty() =~= actions_view(out@));
                    assert(data_handled(old(self)@, client_id, buffer@, now, interested@, self@, actions_view(out@)));
                    return out;
                },
                Some(a) => *a,
            };
            if !self.clients.contains_key(&sub) {
                let ghost pre = self@;
                assert(fanout(pre, interested@.skip(i as int), bytes@, now) == (removed_client(pre, sub), seq![
                    ActionView::Send { to: addr, bytes: shutdown_wire(EndConnexionReason::SYNC_ERROR) },
                ]));
                self.try_remove_client_from_set(sub);
                assert(self@ == removed_client(pre, sub));
                let shutdown = RQ_Shutdown::new(EndConnexionReason::SYNC_ERROR);
                let ghost prev = out@;
                out.push(Action::Send { to: addr, bytes: shutdown.as_bytes() });
                assert(actions_view(out@) =~= actions_view(prev) + seq![
                    ActionView::Send { to: addr, bytes: shutdown_wire(EndConnexionReason::SYNC_ERROR) },
                ]);
                assert(data_handled(old(self)@, client_id, buffer@, now, interested@, self@, actions_view(out@)));
                return out;
            }
            self.send_datagram(&mut out, addr, bytes.clone(), sub, now);
            i = i + 1;
        }
        assert(interested@.skip(interested@.len() as int) =~= Seq::<u64>::empty());
        assert(data_handled(old(self)@, client_id, buffer@, now, interested@, self@, actions_view(out@)));
        out
    }
}

/// Text of the refusal of a subscription to a topic already subscribed.
pub open spec fn already_subscribed_text() -> Seq<u8> {
    "Already subscribed to {}.".spec_bytes()
}

/// Encoding of the acknowledgement `status` of a request on `topic_id`.
pub open spec fn topic_ack_wire(topic_id: u64, status: TopicsResponse) -> Seq<u8> {
    RQ_TopicRequest_ACK { message_type: MessageType::TOPIC_REQUEST_ACK, status, topic_id }.wire()
}

/// Encoding of the refusal of a subscription to a topic already subscribed.
pub open spec fn already_subscribed_wire() -> Seq<u8> {
    seq![
        message_type_to_byte(MessageType::TOPIC_REQUEST_ACK),
        crate::messages::enums::topics_response_to_byte(TopicsResponse::FAILURE_SUB),
    ] + already_subscribed_text()
}

/// `s` once the broker has sent a datagram to the client `id` at `now`.
pub open spec fn sent_to(s: BrokerView, id: u64, now: u128) -> BrokerView {
    BrokerView { clients: stamped(s.clients, id, now), ..s }
}

/// What handling the TOPIC_REQUEST datagram `b` sent by `id` at `now`
/// gives: a subscription is refused when the client already subscribes
/// to the topic; an unsubscription always succeeds; an unknown action,
/// a short buffer or an unconnected client change nothing.
pub open spec fn topic_request_outcome(s: BrokerView, id: u64, b: Seq<u8>, now: u128) -> (
    BrokerView,
    Seq<ActionView>,
) {
    if !s.clients.contains_key(id) || b.len() < 10 {
        (s, Seq::empty())
    } else {
        let rq = RQ_TopicRequest::decode(b);
        let to = s.clients[id].socket;
        match rq.action {
            TopicsAction::SUBSCRIBE => {
                if set_or_empty(s.topics_subscribers, rq.topic_id).contains(id) {
                    (
                        sent_to(s, id, now),
                        seq![ActionView::Send { to, bytes: already_subscribed_wire() }],
                    )
                } else {
                    (
                        sent_to(with_topics(s, id, set![rq.topic_id]), id, now),
                        seq![
                            ActionView::Send {
                                to,
                                bytes: topic_ack_wire(rq.topic_id, TopicsResponse::SUCCESS_SUB),
                            },
                        ],
                    )
                }
            },
            TopicsAction::UNSUBSCRIBE => (
                sent_to(without_topics(s, id, set![rq.topic_id]), id, now),
                seq![
                    ActionView::Send {
                        to,
                        bytes: topic_ack_wire(rq.topic_id, TopicsResponse::SUCCESS_USUB),
                    },
                ],
            ),
            TopicsAction::UNKNOWN => (s, Seq::empty()),
        }
    }
}

impl Broker {
    /// Handles a TOPIC_REQUEST datagram sent by the connected client
    /// `client_id` at `now`, answering it at its address.
    pub fn handle_topic_request(&mut self, client_id: u64, buffer: &[u8], now: u128) -> (r: Vec<
        Action,
    >)
        ensures
            (final(self)@, actions_view(r@)) == topic_request_outcome(
                old(self)@,
                client_id,
                buffer@,
                now,
            ),
    {
        let mut out: Vec<Action> = Vec::new();
        assert(actions_view(out@) =~= Seq::<ActionView>::empty());
        let client_addr = match self.clients.get(&client_id) {
            None => {
                return out;
            },
            Some(c) => c.socket,
        };
        let topic_rq = match RQ_TopicRequest::try_from(buffer) {
            Ok(request) => request,
            Err(_) => {
                return out;
            },
        };
        let topic = topic_rq.topic_id;
        match topic_rq.action {
            TopicsAction::SUBSCRIBE => {
                let already_subscribed = match self.topics_subscribers.get(&topic) {
                    None => false,
                    Some(subscribers) => subscribers.contains(&client_id),
                };
                if !already_subscribed {
                    let topics = vec![topic];
                    assert(topics@.to_set() =~= set![topic]) by {
                        assert(topics@ =~= seq![topic]);
                    }
                    self.add_subscribed_topics(client_id, &topics);
                    let ack = RQ_TopicRequest_ACK::new(topic, TopicsResponse::SUCCESS_SUB);
                    self.send_datagram(&mut out, client_addr, ack.as_bytes(), client_id, now);
                } else {
                    let nack = RQ_TopicRequest_NACK::new(
                        TopicsResponse::FAILURE_SUB,
                        "Already subscribed to {}.",
                    );
                    self.send_datagram(&mut out, client_addr, nack.as_bytes(), client_id, now);
                }
            },
            TopicsAction::UNSUBSCRIBE => {
                let topics = vec![topic];
                assert(topics@.to_set() =~= set![topic]) by {
                    assert(topics@ =~= seq![topic]);
                }
                self.remove_subscribed_topics(client_id, &topics);
                let ack = RQ_TopicRequest_ACK::new(topic, TopicsResponse::SUCCESS_USUB);
                self.send_datagram(&mut out, client_addr, ack.as_bytes(), client_id, now);
            },
            TopicsAction::UNKNOWN => {},
        }
        proof {
            let e = topic_request_outcome(old(self)@, client_id, buffer@, now);
            assert(actions_view(out@) =~= e.1);
        }
        out
    }
}

/// Every finite set of identifiers can be listed.
pub proof fn lemma_lists_exist(s: Set<u64>)
    requires
        s.finite(),
    ensures
        exists|v: Seq<u64>| lists(v, s),
    decreases s.len(),
{
    if s.len() == 0 {
        assert(s =~= Set::empty());
        let v = Seq::<u64>::empty();
        assert(v.to_set() =~= s);
        assert(lists(v, s));
    } else {
        let x = s.choose();
        lemma_lists_exist(s.remove(x));
        let v = choose|v: Seq<u64>| lists(v, s.remove(x));
        let w = v.push(x);
        assert(w.to_set() =~= s) by {
            v.lemma_push_to_set_commute(x);
        }
        assert(w.no_duplicates()) by {
            assert forall|i: int, j: int| 0 <= i < j < w.len() implies w[i] != w[j] by {
                if j == w.len() - 1 {
                    assert(v.to_set().contains(w[i]));
                }
            }
        }
        assert(lists(w, s));
    }
}

} // verus!
