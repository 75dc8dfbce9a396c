//! What every decision of the broker keeps, and what one decision gives
//! the next.

use vstd::prelude::*;
use crate::messages::broker::{
    disconnected, ponged, removed_client, subscribed_to_object, unsubscribed_from_object,
    with_topics, without_topics, ActionView, BrokerView,
};
use crate::messages::dispatch::{datagram_outcome, dispatched, refreshed};
use crate::messages::manager::{counted, data_outcome, fanout, sent_to, topic_request_outcome};
use crate::messages::objects::{
    create_outcome, deleted_object, delete_outcome, delete_step, object_request_outcome,
    subscribe_outcome, unsubscribe_outcome, update_outcome, update_step, visit_all,
};
use crate::messages::session::{connect_outcome, heartbeat_outcome, ping_round, well_formed, with_ping};

verus! {

/// Forgetting a client keeps every known address attached to a
/// connected client.
pub proof fn lemma_removed_client_well_formed(s: BrokerView, id: u64)
    requires
        well_formed(s),
    ensures
        well_formed(removed_client(s, id)),
{
}

/// Sending to a client, or changing its topics, keeps every known address
/// attached to a connected client.
pub proof fn lemma_client_updates_well_formed(s: BrokerView, id: u64, keys: Set<u64>, now: u128)
    requires
        well_formed(s),
    ensures
        well_formed(sent_to(s, id, now)),
        well_formed(with_topics(s, id, keys)),
        well_formed(without_topics(s, id, keys)),
        well_formed(disconnected(s, id)),
        well_formed(refreshed(s, id, now)),
{
    let t = sent_to(s, id, now);
    assert forall|k: u64| #[trigger] t.addresses.contains_key(k) implies t.clients.contains_key(k) by {
        assert(s.clients.contains_key(k));
    }
}

/// Forwarding data keeps every known address attached to a connected
/// client.
pub proof fn lemma_fanout_well_formed(s: BrokerView, subs: Seq<u64>, bytes: Seq<u8>, now: u128)
    requires
        well_formed(s),
    ensures
        well_formed(fanout(s, subs, bytes, now).0),
    decreases subs.len(),
{
    if subs.len() > 0 {
        let sub = subs[0];
        if s.addresses.contains_key(sub) && s.clients.contains_key(sub) {
            let next = BrokerView { clients: crate::messages::broker::stamped(s.clients, sub, now), ..s };
            assert(next == sent_to(s, sub, now));
            lemma_client_updates_well_formed(s, sub, Set::empty(), now);
            lemma_fanout_well_formed(next, subs.drop_first(), bytes, now);
        }
    }
}

/// Visiting subscribers with steps that keep every known address attached
/// to a connected client keeps it too.
pub proof fn lemma_visit_all_well_formed(
    s: BrokerView,
    subs: Seq<u64>,
    step: spec_fn(BrokerView, u64) -> (BrokerView, Seq<ActionView>, bool),
)
    requires
        well_formed(s),
        forall|t: BrokerView, x: u64| well_formed(t) ==> well_formed(#[trigger] step(t, x).0),
    ensures
        well_formed(visit_all(s, subs, step).0),
    decreases subs.len(),
{
    if subs.len() > 0 {
        let (next, acts, go_on) = step(s, subs[0]);
        if go_on {
            lemma_visit_all_well_formed(next, subs.drop_first(), step);
        }
    }
}

/// Subscribing a client to an object, or unsubscribing it, keeps every
/// known address attached to a connected client.
pub proof fn lemma_object_subscriptions_well_formed(s: BrokerView, object_id: u64, id: u64, to: u64)
    requires
        well_formed(s),
    ensures
        well_formed(subscribed_to_object(s, object_id, id, to)),
        well_formed(unsubscribed_from_object(s, object_id, id, to)),
{
}

/// Handling an OBJECT_REQUEST keeps every known address attached to a
/// connected client, whatever the order in which subscribers are visited.
pub proof fn lemma_object_request_well_formed(
    s: BrokerView,
    id: u64,
    b: Seq<u8>,
    now: u128,
    clock_ns: u64,
    order: Seq<u64>,
)
    requires
        well_formed(s),
    ensures
        well_formed(object_request_outcome(s, id, b, now, clock_ns, order).0),
{
    if s.clients.contains_key(id) && b.len() >= 12 {
        let to = s.clients[id].socket;
        let object_id = crate::messages::datagrams::u64_at(b, 4);
        let topics = crate::messages::datagrams::RQ_ObjectRequest::topics_read(b);
        lemma_client_updates_well_formed(s, id, Set::empty(), now);
        let current = crate::collections::set_or_empty(s.objects_topics, object_id);
        let added = topics.difference(current);
        let removed = current.difference(topics);
        let ustep = |t: BrokerView, sub: u64| update_step(t, id, sub, object_id, added, removed, now);
        assert forall|t: BrokerView, x: u64| well_formed(t) implies well_formed(#[trigger] ustep(t, x).0) by {
            lemma_removed_client_well_formed(t, x);
            lemma_removed_client_well_formed(t, id);
            lemma_client_updates_well_formed(t, id, removed, now);
            lemma_client_updates_well_formed(without_topics(t, id, removed), id, added, now);
            lemma_client_updates_well_formed(with_topics(without_topics(t, id, removed), id, added), id, added, now);
        }
        lemma_visit_all_well_formed(s, order, ustep);
        let dstep = |t: BrokerView, sub: u64| delete_step(t, id, sub, object_id, now);
        assert forall|t: BrokerView, x: u64| well_formed(t) implies well_formed(#[trigger] dstep(t, x).0) by {
            lemma_removed_client_well_formed(t, id);
            lemma_client_updates_well_formed(t, id, Set::empty(), now);
            lemma_object_subscriptions_well_formed(t, object_id, x, id);
            lemma_client_updates_well_formed(unsubscribed_from_object(t, object_id, x, id), id, Set::empty(), now);
        }
        lemma_visit_all_well_formed(s, order, dstep);
        let f = visit_all(s, order, dstep).0;
        assert(well_formed(deleted_object(f, object_id)));
        lemma_object_subscriptions_well_formed(s, object_id, id, id);
        lemma_client_updates_well_formed(subscribed_to_object(s, object_id, id, id), id, Set::empty(), now);
        lemma_client_updates_well_formed(unsubscribed_from_object(s, object_id, id, id), id, Set::empty(), now);
        let new_id = if crate::messages::object_id::object_id_type(object_id)
            == crate::messages::enums::ObjectIdentifierType::USER_GENERATED {
            crate::messages::object_id::broker_marked(object_id)
        } else {
            crate::messages::object_id::marked_id(
                crate::messages::enums::ObjectIdentifierType::BROKER_GENERATED,
                clock_ns,
            )
        };
        let created = BrokerView { objects_topics: s.objects_topics.insert(new_id, topics), ..s };
        lemma_object_subscriptions_well_formed(created, new_id, id, id);
        lemma_client_updates_well_formed(subscribed_to_object(created, new_id, id, id), id, Set::empty(), now);
    }
}

/// Answering a CONNECT keeps every known address attached to a connected
/// client: a new client is recorded with its address.
pub proof fn lemma_connect_well_formed(
    s: BrokerView,
    src: crate::messages::broker::PeerAddr,
    now: u128,
    found: (bool, u64),
    new_id: u64,
    ping_id: u8,
    heart_beat_period: u16,
)
    requires
        well_formed(s),
    ensures
        well_formed(connect_outcome(s, src, now, found, new_id, ping_id, heart_beat_period).0),
{
    lemma_client_updates_well_formed(s, found.1, Set::empty(), now);
    let recorded = BrokerView {
        clients: s.clients.insert(new_id, crate::messages::session::new_client(new_id, src, now)),
        addresses: s.addresses.insert(new_id, src),
        ..s
    };
    assert(well_formed(recorded));
    lemma_client_updates_well_formed(recorded, new_id, Set::empty(), now);
    let pinged = with_ping(sent_to(recorded, new_id, now), ping_id, now);
    assert(well_formed(pinged));
    lemma_client_updates_well_formed(pinged, new_id, Set::empty(), now);
}

/// Every known address stays attached to a connected client, whatever
/// datagram the broker handles and whatever the choices it depends on.
pub proof fn lemma_datagram_well_formed(
    s: BrokerView,
    src: crate::messages::broker::PeerAddr,
    b: Seq<u8>,
    now: u128,
    clock_ns: u128,
    heart_beat_period: u16,
    source: Option<u64>,
    order: Seq<u64>,
    found: (bool, u64),
    new_id: u64,
    ping_id: u8,
)
    requires
        well_formed(s),
    ensures
        well_formed(
            datagram_outcome(
                s,
                src,
                b,
                now,
                clock_ns,
                heart_beat_period,
                source,
                order,
                found,
                new_id,
                ping_id,
            ).0,
        ),
{
    let id = match source {
        Some(id) => id,
        None => 0,
    };
    lemma_removed_client_well_formed(s, id);
    let r = if source is Some {
        refreshed(s, id, now)
    } else {
        s
    };
    lemma_client_updates_well_formed(s, id, Set::empty(), now);
    lemma_connect_well_formed(r, src, now, found, new_id, ping_id, heart_beat_period);
    lemma_client_updates_well_formed(r, id, Set::empty(), now);
    let topic = crate::messages::manager::data_topic(b);
    let seq = crate::messages::datagrams::u32_at(b, 3);
    let c = counted(r, id, crate::messages::datagrams::u64_at(b, 7), seq);
    if r.clients.contains_key(id) {
        assert(well_formed(c));
    }
    let data = b.subrange(15, 15 + crate::messages::datagrams::u16_at(b, 1));
    lemma_fanout_well_formed(
        c,
        order,
        crate::messages::manager::data_wire(seq, crate::messages::datagrams::u64_at(b, 7), data),
        now,
    );
    lemma_object_request_well_formed(r, id, b, now, clock_ns as u64, order);
    let tr = crate::messages::datagrams::RQ_TopicRequest::decode(b);
    lemma_client_updates_well_formed(r, id, set![tr.topic_id], now);
    lemma_client_updates_well_formed(with_topics(r, id, set![tr.topic_id]), id, Set::empty(), now);
    lemma_client_updates_well_formed(without_topics(r, id, set![tr.topic_id]), id, Set::empty(), now);
    let p = ponged(r, id, crate::messages::dispatch::ping_of(b), now);
    assert(well_formed(p));
}

/// Sending a round of pings keeps every known address attached to a
/// connected client.
pub proof fn lemma_ping_round_well_formed(s: BrokerView, ids: Seq<u64>, ping_ids: Seq<u8>, now: u128)
    requires
        well_formed(s),
    ensures
        well_formed(ping_round(s, ids, ping_ids, now).0),
    decreases ids.len(),
{
    if ids.len() > 0 && ping_ids.len() > 0 {
        let next = with_ping(s, ping_ids[0], now);
        assert(well_formed(next));
        lemma_client_updates_well_formed(next, ids[0], Set::empty(), now);
        lemma_ping_round_well_formed(
            sent_to(next, ids[0], now),
            ids.drop_first(),
            ping_ids.drop_first(),
            now,
        );
    }
}

/// A heartbeat check keeps every known address attached to a connected
/// client.
pub proof fn lemma_heartbeat_well_formed(
    s: BrokerView,
    id: u64,
    socket: crate::messages::broker::PeerAddr,
    missed: u8,
    now: u128,
    heart_beat_period: u16,
)
    requires
        well_formed(s),
    ensures
        well_formed(heartbeat_outcome(s, id, socket, missed, now, heart_beat_period).1),
{
    lemma_client_updates_well_formed(s, id, Set::empty(), now);
    lemma_client_updates_well_formed(sent_to(s, id, now), id, Set::empty(), now);
}

/// Every datagram that forwarding sends goes to the address of one of
/// the visited subscribers, taken in the state forwarding starts from.
pub proof fn lemma_fanout_targets(s: BrokerView, subs: Seq<u64>, bytes: Seq<u8>, now: u128)
    ensures
        forall|i: int|
            0 <= i < fanout(s, subs, bytes, now).1.len() ==> (#[trigger] fanout(
                s,
                subs,
                bytes,
                now,
            ).1[i] matches ActionView::Send { to, .. } && exists|j: int|
                0 <= j < subs.len() && s.addresses.contains_key(subs[j]) && to
                    == s.addresses[subs[j]]),
    decreases subs.len(),
{
    if subs.len() > 0 {
        let sub = subs[0];
        if s.addresses.contains_key(sub) && s.clients.contains_key(sub) {
            let next = BrokerView { clients: crate::messages::broker::stamped(s.clients, sub, now), ..s };
            let rest = subs.drop_first();
            lemma_fanout_targets(next, rest, bytes, now);
            let (f, acts) = fanout(next, rest, bytes, now);
            let all = fanout(s, subs, bytes, now).1;
            assert(all == seq![ActionView::Send { to: s.addresses[sub], bytes }] + acts);
            assert forall|i: int| 0 <= i < all.len() implies (#[trigger] all[i] matches ActionView::Send {
                to,
                ..
            } && exists|j: int|
                0 <= j < subs.len() && s.addresses.contains_key(subs[j]) && to
                    == s.addresses[subs[j]]) by {
                if i == 0 {
                    assert(subs[0] == sub);
                } else {
                    assert(all[i] == acts[i - 1]);
                    let to = acts[i - 1]->Send_to;
                    let j = choose|j: int|
                        0 <= j < rest.len() && next.addresses.contains_key(rest[j]) && to
                            == next.addresses[rest[j]];
                    assert(subs[j + 1] == rest[j]);
                }
            }
        } else if s.addresses.contains_key(sub) {
            assert(subs[0] == sub);
        }
    }
}

/// Data is only forwarded to subscribers of its topic other than the
/// client that sent it: every datagram sent goes to the address of such
/// a subscriber.
pub proof fn lemma_data_not_sent_back(
    s: BrokerView,
    id: u64,
    b: Seq<u8>,
    now: u128,
    order: Seq<u64>,
)
    requires
        crate::collections::lists(
            order,
            crate::collections::set_or_empty(
                s.topics_subscribers,
                crate::messages::manager::data_topic(b),
            ).remove(id),
        ),
    ensures
        forall|i: int|
            0 <= i < data_outcome(s, id, b, now, order).1.len() ==> (#[trigger] data_outcome(
                s,
                id,
                b,
                now,
                order,
            ).1[i] matches ActionView::Send { to, .. } && exists|k: u64|
                k != id && s.topics_subscribers.contains_key(crate::messages::manager::data_topic(b))
                    && s.topics_subscribers[crate::messages::manager::data_topic(b)].contains(k)
                    && s.addresses.contains_key(k) && to == s.addresses[k]),
{
    let topic = crate::messages::datagrams::u64_at(b, 7);
    let seq = crate::messages::datagrams::u32_at(b, 3);
    let data = b.subrange(15, 15 + crate::messages::datagrams::u16_at(b, 1));
    let c = counted(s, id, topic, seq);
    let bytes = crate::messages::manager::data_wire(seq, topic, data);
    lemma_fanout_targets(c, order, bytes, now);
    let acts = data_outcome(s, id, b, now, order).1;
    assert forall|i: int| 0 <= i < acts.len() implies (#[trigger] acts[i] matches ActionView::Send {
        to,
        ..
    } && exists|k: u64|
        k != id && s.topics_subscribers.contains_key(crate::messages::manager::data_topic(b))
            && s.topics_subscribers[crate::messages::manager::data_topic(b)].contains(k)
            && s.addresses.contains_key(k) && to == s.addresses[k]) by {
        assert(acts[i] == fanout(c, order, bytes, now).1[i]);
        let to = acts[i]->Send_to;
        let j = choose|j: int|
            0 <= j < order.len() && c.addresses.contains_key(order[j]) && to == c.addresses[order[j]];
        assert(order.to_set().contains(order[j]));
        assert(crate::messages::manager::data_topic(b) == topic);
    }
}

/// After a TOPIC_REQUEST of a connected client that subscribes to a
/// topic, the client is among the topic's subscribers; after one that
/// unsubscribes, it is not, and the topic is not among its own.
pub proof fn lemma_topic_request_membership(s: BrokerView, id: u64, b: Seq<u8>, now: u128)
    requires
        s.clients.contains_key(id),
        b.len() >= 10,
    ensures
        ({
            let rq = crate::messages::datagrams::RQ_TopicRequest::decode(b);
            let t = topic_request_outcome(s, id, b, now).0;
            &&& rq.action == crate::messages::enums::TopicsAction::SUBSCRIBE ==> t.topics_subscribers.contains_key(
                rq.topic_id,
            ) && t.topics_subscribers[rq.topic_id].contains(id)
            &&& rq.action == crate::messages::enums::TopicsAction::UNSUBSCRIBE ==> t.clients.contains_key(id)
                && !t.clients[id].topics.contains(rq.topic_id) && (t.topics_subscribers.contains_key(
                rq.topic_id,
            ) ==> !t.topics_subscribers[rq.topic_id].contains(id))
        }),
{
}

/// A client that is forgotten is in no state of the broker: not
/// connected, without address, and in no subscriber set.
pub proof fn lemma_removed_client_forgotten(s: BrokerView, id: u64)
    ensures
        ({
            let t = removed_client(s, id);
            &&& !t.clients.contains_key(id)
            &&& !t.addresses.contains_key(id)
            &&& forall|k: u64| #[trigger] t.topics_subscribers.contains_key(k) ==> !t.topics_subscribers[k].contains(id)
            &&& forall|k: u64| #[trigger] t.object_subscribers.contains_key(k) ==> !t.object_subscribers[k].contains(id)
        }),
{
}

/// A client that disconnects is neither connected nor known by its
/// address, and leaves the subscriber sets of its topics and objects.
pub proof fn lemma_disconnected_forgotten(s: BrokerView, id: u64)
    requires
        s.clients.contains_key(id),
    ensures
        ({
            let t = disconnected(s, id);
            &&& !t.clients.contains_key(id)
            &&& !t.addresses.contains_key(id)
            &&& forall|k: u64| #[trigger] s.clients[id].topics.contains(k) && t.topics_subscribers.contains_key(k)
                ==> !t.topics_subscribers[k].contains(id)
            &&& forall|k: u64| #[trigger] s.clients[id].objects.contains(k) && t.object_subscribers.contains_key(k)
                ==> !t.object_subscribers[k].contains(id)
        }),
{
}

/// A ping reference is answered at most once: the first PONG of a
/// connected client frees it and sets the client's ping to half the
/// round trip, and the same PONG again changes nothing.
pub proof fn lemma_pong_answered_once(s: BrokerView, id: u64, ping_id: u8, now: u128, later: u128)
    requires
        s.clients.contains_key(id),
        s.pings.contains_key(ping_id),
        now >= s.pings[ping_id],
    ensures
        !ponged(s, id, ping_id, now).pings.contains_key(ping_id),
        ponged(s, id, ping_id, now).clients[id].ping == (now - s.pings[ping_id]) / 2,
        ponged(ponged(s, id, ping_id, now), id, ping_id, later) == ponged(s, id, ping_id, now),
{
}

/// Four heartbeat periods in a row without a life sign disconnect the
/// client: from no missed period, three checks without a life sign only
/// count, and the fourth sends a SHUTDOWN and forgets the client; a life
/// sign at any check resets the count.
pub proof fn lemma_fourth_missed_heartbeat_disconnects(
    s: BrokerView,
    id: u64,
    socket: crate::messages::broker::PeerAddr,
    now: u128,
    heart_beat_period: u16,
    missed: u8,
)
    requires
        !crate::messages::session::life_sign(s, id, now, heart_beat_period),
        missed < 4,
    ensures
        heartbeat_outcome(s, id, socket, missed, now, heart_beat_period).0 == missed + 1,
        missed == 3 ==> ({
            let (m, t, acts) = heartbeat_outcome(s, id, socket, missed, now, heart_beat_period);
            &&& t == disconnected(sent_to(s, id, now), id)
            &&& !t.clients.contains_key(id)
            &&& acts == seq![
                ActionView::Send {
                    to: socket,
                    bytes: crate::messages::manager::shutdown_wire(
                        crate::messages::enums::EndConnexionReason::SHUTDOWN,
                    ),
                },
            ]
        }),
        missed != 1 && missed != 3 ==> heartbeat_outcome(s, id, socket, missed, now, heart_beat_period).1 == s,
{
}

/// A life sign resets the count of missed heartbeat periods and is
/// answered with a HEARTBEAT.
pub proof fn lemma_life_sign_resets(
    s: BrokerView,
    id: u64,
    socket: crate::messages::broker::PeerAddr,
    now: u128,
    heart_beat_period: u16,
    missed: u8,
)
    requires
        crate::messages::session::life_sign(s, id, now, heart_beat_period),
    ensures
        heartbeat_outcome(s, id, socket, missed, now, heart_beat_period).0 == 0,
        heartbeat_outcome(s, id, socket, missed, now, heart_beat_period).1 == sent_to(s, id, now),
{
}

/// A peer that connects from an IP address no other client has is
/// recorded under the identifier it is given; when it connects again from
/// there, it gets the same identifier back and no client is added.
pub proof fn lemma_connect_again_same_id(
    s: BrokerView,
    src: crate::messages::broker::PeerAddr,
    now: u128,
    new_id: u64,
    ping_id: u8,
    heart_beat_period: u16,
    later: u128,
    found: (bool, u64),
    other_id: u64,
    other_ping: u8,
)
    requires
        crate::messages::session::connected_as(s, src, (false, 0)),
        crate::messages::session::connected_as(
            connect_outcome(s, src, now, (false, 0), new_id, ping_id, heart_beat_period).0,
            src,
            found,
        ),
    ensures
        ({
            let t = connect_outcome(s, src, now, (false, 0), new_id, ping_id, heart_beat_period).0;
            let (u, acts) = connect_outcome(t, src, later, found, other_id, other_ping, heart_beat_period);
            &&& t.clients.contains_key(new_id) && t.addresses[new_id] == src
            &&& found == (true, new_id)
            &&& acts == seq![
                ActionView::Send {
                    to: src,
                    bytes: crate::messages::session::connect_ack_wire(new_id, heart_beat_period),
                },
            ]
            &&& u.clients.dom() == t.clients.dom()
            &&& u.addresses == t.addresses
        }),
{
    let t = connect_outcome(s, src, now, (false, 0), new_id, ping_id, heart_beat_period).0;
    assert(t.addresses.contains_key(new_id) && t.addresses[new_id].same_ip(src));
    assert(found.0);
    if found.1 != new_id {
        assert(s.addresses.contains_key(found.1) && s.addresses[found.1].same_ip(src));
    }
    let u = connect_outcome(t, src, later, found, other_id, other_ping, heart_beat_period).0;
    assert(u.clients.dom() =~= t.clients.dom());
}

/// An object that the broker creates is valid for later requests: its
/// identifier is marked as made by the broker, it holds the topics asked
/// for, and its creator is among its subscribers.
pub proof fn lemma_created_object_valid(
    s: BrokerView,
    id: u64,
    to: crate::messages::broker::PeerAddr,
    object_id: u64,
    topics: Set<u64>,
    now: u128,
    clock_ns: u64,
)
    requires
        ({
            let t = crate::messages::object_id::object_id_type(object_id);
            ||| t == crate::messages::enums::ObjectIdentifierType::TEMPORARY
            ||| t == crate::messages::enums::ObjectIdentifierType::USER_GENERATED
                && !s.objects_topics.contains_key(crate::messages::object_id::broker_marked(object_id))
        }),
    ensures
        ({
            let new_id = if crate::messages::object_id::object_id_type(object_id)
                == crate::messages::enums::ObjectIdentifierType::USER_GENERATED {
                crate::messages::object_id::broker_marked(object_id)
            } else {
                crate::messages::object_id::marked_id(
                    crate::messages::enums::ObjectIdentifierType::BROKER_GENERATED,
                    clock_ns,
                )
            };
            let t = create_outcome(s, id, to, object_id, topics, now, clock_ns).0;
            &&& crate::messages::objects::object_id_valid(t, new_id)
            &&& t.objects_topics.contains_key(new_id) && t.objects_topics[new_id] == topics
            &&& t.object_subscribers[new_id].contains(id)
        }),
{
    let ty = crate::messages::object_id::object_id_type(object_id);
    if ty == crate::messages::enums::ObjectIdentifierType::USER_GENERATED {
        let m = crate::messages::object_id::broker_marked(object_id);
        let o = object_id;
        assert((((o & 0x3FFF_FFFF_FFFF_FFFF) | 0x4000_0000_0000_0000) >> 62) & 3 == 1)
            by (bit_vector);
        assert(crate::messages::object_id::object_id_type(m)
            == crate::messages::enums::ObjectIdentifierType::BROKER_GENERATED);
    } else {
        crate::messages::object_id::lemma_generated_id_type(
            crate::messages::enums::ObjectIdentifierType::BROKER_GENERATED,
            clock_ns,
        );
    }
}

/// Once every subscriber was told, a DELETE removes the object and the
/// subscriber sets of its topics.
pub proof fn lemma_deleted_object_gone(s: BrokerView, object_id: u64)
    ensures
        !deleted_object(s, object_id).objects_topics.contains_key(object_id),
        forall|k: u64|
            #[trigger] crate::collections::set_or_empty(s.objects_topics, object_id).contains(k)
                ==> !deleted_object(s, object_id).topics_subscribers.contains_key(k),
{
}

/// A datagram from an address that no client has is ignored unless it
/// is a CONNECT: the state stays as it was and nothing is sent.
pub proof fn lemma_unknown_source_ignored(
    s: BrokerView,
    src: crate::messages::broker::PeerAddr,
    b: Seq<u8>,
    now: u128,
    clock_ns: u128,
    heart_beat_period: u16,
    order: Seq<u64>,
    found: (bool, u64),
    new_id: u64,
    ping_id: u8,
)
    requires
        crate::messages::dispatch::message_kind(b) != crate::messages::enums::MessageType::CONNECT,
    ensures
        datagram_outcome(s, src, b, now, clock_ns, heart_beat_period, None, order, found, new_id, ping_id)
            == (s, Seq::<ActionView>::empty()),
{
}

/// A SUBSCRIBE of a connected client to a valid object whose topic set is
/// known is acknowledged, and the client then follows every topic of the
/// object (it is in each topic's subscriber set and holds the topic), has
/// the object among its own, and is among the object's subscribers.
pub proof fn lemma_object_subscribe_membership(
    s: BrokerView,
    id: u64,
    b: Seq<u8>,
    now: u128,
    clock_ns: u64,
    order: Seq<u64>,
    t: BrokerView,
    acts: Seq<ActionView>,
)
    requires
        crate::messages::objects::object_request_handled(s, id, b, now, clock_ns, order, t, acts),
        s.clients.contains_key(id),
        b.len() >= 12,
        crate::messages::enums::object_flags_from_byte(b[3]) == crate::messages::enums::ObjectFlags::SUBSCRIBE,
        crate::messages::objects::object_id_valid(s, crate::messages::objects::object_of_buffer(b)),
        s.objects_topics.contains_key(crate::messages::objects::object_of_buffer(b)),
    ensures
        ({
            let object_id = crate::messages::objects::object_of_buffer(b);
            &&& acts == seq![
                ActionView::Send {
                    to: s.clients[id].socket,
                    bytes: crate::messages::objects::object_ack_wire(0x90, object_id),
                },
            ]
            &&& t.clients.contains_key(id)
            &&& t.clients[id].objects.contains(object_id)
            &&& t.object_subscribers.contains_key(object_id)
            &&& t.object_subscribers[object_id].contains(id)
            &&& forall|k: u64| #[trigger] s.objects_topics[object_id].contains(k)
                ==> t.clients[id].topics.contains(k) && t.topics_subscribers.contains_key(k)
                && t.topics_subscribers[k].contains(id)
        }),
{
}

/// An UNSUBSCRIBE of a connected client from a valid object whose topic
/// set is known is acknowledged, and the client then follows none of the
/// object's topics (it holds none of them and is in none of their
/// subscriber sets), no longer has the object, and is not among the
/// object's subscribers.
pub proof fn lemma_object_unsubscribe_membership(
    s: BrokerView,
    id: u64,
    b: Seq<u8>,
    now: u128,
    clock_ns: u64,
    order: Seq<u64>,
    t: BrokerView,
    acts: Seq<ActionView>,
)
    requires
        crate::messages::objects::object_request_handled(s, id, b, now, clock_ns, order, t, acts),
        s.clients.contains_key(id),
        b.len() >= 12,
        crate::messages::enums::object_flags_from_byte(b[3]) == crate::messages::enums::ObjectFlags::UNSUBSCRIBE,
        crate::messages::objects::object_id_valid(s, crate::messages::objects::object_of_buffer(b)),
        s.objects_topics.contains_key(crate::messages::objects::object_of_buffer(b)),
    ensures
        ({
            let object_id = crate::messages::objects::object_of_buffer(b);
            &&& acts == seq![
                ActionView::Send {
                    to: s.clients[id].socket,
                    bytes: crate::messages::objects::object_ack_wire(0x90, object_id),
                },
            ]
            &&& t.clients.contains_key(id)
            &&& !t.clients[id].objects.contains(object_id)
            &&& t.object_subscribers.contains_key(object_id)
            &&& !t.object_subscribers[object_id].contains(id)
            &&& forall|k: u64| #[trigger] s.objects_topics[object_id].contains(k)
                ==> !t.clients[id].topics.contains(k) && (t.topics_subscribers.contains_key(k)
                ==> !t.topics_subscribers[k].contains(id))
        }),
{
}

/// Subscribing `client_id` to an object whose topic set is known, with
/// the connected client `commands_to` told to take it: `commands_to`
/// then holds the object and every one of its topics and is in each
/// topic's subscriber set, `client_id` is among the object's
/// subscribers, and every other client is left as it was.
pub proof fn lemma_subscribed_to_object_members(s: BrokerView, object_id: u64, client_id: u64, commands_to: u64)
    requires
        s.clients.contains_key(commands_to),
        s.objects_topics.contains_key(object_id),
    ensures
        ({
            let t = subscribed_to_object(s, object_id, client_id, commands_to);
            &&& t.clients.contains_key(commands_to)
            &&& t.clients[commands_to].objects.contains(object_id)
            &&& t.object_subscribers.contains_key(object_id)
            &&& t.object_subscribers[object_id].contains(client_id)
            &&& forall|k: u64| #[trigger] s.objects_topics[object_id].contains(k)
                ==> t.clients[commands_to].topics.contains(k) && t.topics_subscribers.contains_key(k)
                && t.topics_subscribers[k].contains(commands_to)
            &&& forall|c: u64| c != commands_to ==> #[trigger] t.clients.contains_key(c) == s.clients.contains_key(c)
                && (s.clients.contains_key(c) ==> t.clients[c] == s.clients[c])
        }),
{
}

/// Unsubscribing `client_id` from an object whose topic set is known,
/// with the connected client `commands_to` told to drop it:
/// `commands_to` then holds neither the object nor any of its topics and
/// is in none of their subscriber sets, `client_id` is not among the
/// object's subscribers, and every other client is left as it was.
pub proof fn lemma_unsubscribed_from_object_members(
    s: BrokerView,
    object_id: u64,
    client_id: u64,
    commands_to: u64,
)
    requires
        s.clients.contains_key(commands_to),
        s.objects_topics.contains_key(object_id),
    ensures
        ({
            let t = unsubscribed_from_object(s, object_id, client_id, commands_to);
            &&& t.clients.contains_key(commands_to)
            &&& !t.clients[commands_to].objects.contains(object_id)
            &&& t.object_subscribers.contains_key(object_id) ==> !t.object_subscribers[object_id].contains(client_id)
            &&& forall|k: u64| #[trigger] s.objects_topics[object_id].contains(k)
                ==> !t.clients[commands_to].topics.contains(k) && (t.topics_subscribers.contains_key(k)
                ==> !t.topics_subscribers[k].contains(commands_to))
            &&& forall|c: u64| c != commands_to ==> #[trigger] t.clients.contains_key(c) == s.clients.contains_key(c)
                && (s.clients.contains_key(c) ==> t.clients[c] == s.clients[c])
        }),
{
}

} // verus!
