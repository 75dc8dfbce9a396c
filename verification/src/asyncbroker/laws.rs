//! Properties of the asynchronous broker that span its operations.

use vstd::prelude::*;
use crate::asyncbroker::broker::{
    data_sends, followers_connected, legacy_heartbeat_outcome, topic_request_done, without_client,
    StateView,
};
use crate::asyncbroker::dispatch::{datagram_kind, legacy_datagram_handled};
use crate::collections::{lists, set_or_empty};
use crate::legacy::enums::MessageType;
use crate::messages::broker::{ActionView, PeerAddr};

verus! {

/// Disconnecting a client keeps every follower of a topic connected, and
/// the client is gone from the clients and from every topic.
pub proof fn lemma_disconnect_keeps_followers(s: StateView, id: u64)
    requires
        followers_connected(s),
    ensures
        followers_connected(without_client(s, id)),
        !without_client(s, id).clients.contains_key(id),
        forall|t: u64| #[trigger] without_client(s, id).clients_topics.contains_key(t)
            ==> !without_client(s, id).clients_topics[t].contains(id),
{
    let w = without_client(s, id);
    assert forall|t: u64, k: u64|
        #![trigger w.clients_topics[t].contains(k)]
        w.clients_topics.contains_key(t) && w.clients_topics[t].contains(k) implies w.clients.contains_key(k) by {
        assert(s.clients_topics[t].contains(k));
    }
}

/// A TOPIC_REQUEST of a connected client keeps every follower of a topic
/// connected.
pub proof fn lemma_topic_request_keeps_followers(
    s: StateView,
    id: u64,
    b: Seq<u8>,
    t: StateView,
    acts: Seq<ActionView>,
)
    requires
        followers_connected(s),
        s.clients.contains_key(id),
        topic_request_done(s, id, b, t, acts),
    ensures
        followers_connected(t),
{
    assert forall|x: u64, k: u64|
        #![trigger t.clients_topics[x].contains(k)]
        t.clients_topics.contains_key(x) && t.clients_topics[x].contains(k) implies t.clients.contains_key(k) by {
        if k != id {
            assert(s.clients_topics.contains_key(x) && s.clients_topics[x].contains(k));
        }
    }
}

/// A heartbeat check keeps every follower of a topic connected.
pub proof fn lemma_heartbeat_keeps_followers(s: StateView, id: u64, addr: PeerAddr, missed: u8)
    requires
        followers_connected(s),
    ensures
        followers_connected(legacy_heartbeat_outcome(s, id, addr, missed).1),
{
    let lowered = StateView { client_has_heartbeat: s.client_has_heartbeat.insert(id, false), ..s };
    lemma_disconnect_keeps_followers(lowered, id);
}

/// A client whose heartbeat flag is down for four checks in a row is
/// disconnected by the fourth, whatever happened before the first.
pub proof fn lemma_fourth_silent_check_disconnects(s: StateView, id: u64, addr: PeerAddr)
    requires
        !(s.client_has_heartbeat.contains_key(id) && s.client_has_heartbeat[id]),
    ensures
        ({
            let (m1, s1, _a1) = legacy_heartbeat_outcome(s, id, addr, 0);
            let (m2, s2, _a2) = legacy_heartbeat_outcome(s1, id, addr, m1);
            let (m3, s3, _a3) = legacy_heartbeat_outcome(s2, id, addr, m2);
            let (m4, s4, _a4) = legacy_heartbeat_outcome(s3, id, addr, m3);
            m4 == 4 && !s4.clients.contains_key(id)
        }),
{
}

/// A check after a HEARTBEAT was received resets the count of missed
/// periods and answers with a HEARTBEAT; the client stays.
pub proof fn lemma_heartbeat_resets(s: StateView, id: u64, addr: PeerAddr, missed: u8)
    requires
        s.client_has_heartbeat.contains_key(id) && s.client_has_heartbeat[id],
    ensures
        legacy_heartbeat_outcome(s, id, addr, missed).0 == 0,
        legacy_heartbeat_outcome(s, id, addr, missed).1.clients == s.clients,
        legacy_heartbeat_outcome(s, id, addr, missed).2.len() == 1,
{
}

/// A datagram from an address that no client has is ignored unless it
/// is a CONNECT: the state stays as it was and nothing is sent.
pub proof fn lemma_unknown_source_ignored(
    s: StateView,
    src: PeerAddr,
    b: Seq<u8>,
    now: u128,
    heart_beat_period: u16,
    found: (bool, u64),
    new_id: u64,
    order: Seq<u64>,
    t: StateView,
    acts: Seq<ActionView>,
)
    requires
        datagram_kind(b) != MessageType::CONNECT,
        legacy_datagram_handled(s, src, b, now, heart_beat_period, None, found, new_id, order, t, acts),
    ensures
        t == s,
        acts.len() == 0,
{
}

/// A client's DATA goes to the address of each other follower of its
/// topic, once each, and never to the client itself.
pub proof fn lemma_data_goes_to_other_followers(s: StateView, id: u64, b: Seq<u8>, order: Seq<u64>)
    requires
        followers_connected(s),
        lists(order, set_or_empty(s.clients_topics, crate::messages::datagrams::u64_at(b, 3)).remove(id)),
    ensures
        data_sends(s, id, b, order).len() == 0 || data_sends(s, id, b, order).len() == order.len(),
        forall|i: int|
            0 <= i < data_sends(s, id, b, order).len() ==> {
                let k = order[i];
                &&& k != id
                &&& s.clients_topics[crate::messages::datagrams::u64_at(b, 3)].contains(k)
                &&& s.clients.contains_key(k)
                &&& #[trigger] data_sends(s, id, b, order)[i] matches ActionView::Send { to, .. }
                    && to == s.clients[k]
            },
{
    let topic = crate::messages::datagrams::u64_at(b, 3);
    assert forall|i: int| 0 <= i < data_sends(s, id, b, order).len() implies {
        let k = order[i];
        &&& k != id
        &&& s.clients_topics[topic].contains(k)
        &&& s.clients.contains_key(k)
        &&& #[trigger] data_sends(s, id, b, order)[i] matches ActionView::Send { to, .. } && to
            == s.clients[k]
    } by {
        assert(order.to_set().contains(order[i]));
    }
}

} // verus!
