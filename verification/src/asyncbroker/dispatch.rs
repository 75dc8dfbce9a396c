//! The asynchronous broker's answer to each incoming datagram.

use vstd::prelude::*;
use crate::asyncbroker::broker::{
    connect_ack_wire, data_readable, data_sends, followers_connected, known_ip,
    legacy_connect_outcome, topic_request_done, topic_request_readable, without_client,
    BrokerState, StateView,
};
use crate::asyncbroker::laws::{lemma_disconnect_keeps_followers, lemma_topic_request_keeps_followers};
use crate::collections::{lists, set_or_empty};
use crate::legacy::enums::{message_type_from_byte, MessageType};
use crate::messages::broker::{actions_view, Action, ActionView, PeerAddr};

verus! {

/// Kind of the datagram `b`, read from its first byte.
pub open spec fn datagram_kind(b: Seq<u8>) -> MessageType {
    if b.len() > 0 {
        message_type_from_byte(b[0])
    } else {
        MessageType::UNKNOWN
    }
}

/// Ping identifier that a PONG carries in its second byte.
pub open spec fn pong_id(b: Seq<u8>) -> u8 {
    if b.len() > 1 {
        b[1]
    } else {
        0
    }
}

/// Some client has exactly the address `src`.
pub open spec fn known_source(s: StateView, src: PeerAddr) -> bool {
    exists|k: u64| #[trigger] s.clients.contains_key(k) && s.clients[k] == src
}

/// Some client has the IP address of `src`.
pub open spec fn known_host(s: StateView, src: PeerAddr) -> bool {
    exists|k: u64| #[trigger] s.clients.contains_key(k) && s.clients[k].same_ip(src)
}

/// What handling the datagram `b` from `src` at `now` needs: a CONNECT
/// from a known host comes from the address of a client; a client's DATA
/// and TOPIC_REQUEST can be read; a client's PONG answers a ping sent no
/// later than `now`.
pub open spec fn datagram_handleable(s: StateView, src: PeerAddr, b: Seq<u8>, now: u128) -> bool {
    &&& datagram_kind(b) == MessageType::CONNECT && known_host(s, src) ==> known_source(s, src)
    &&& known_source(s, src) && datagram_kind(b) == MessageType::DATA ==> data_readable(b)
    &&& known_source(s, src) && datagram_kind(b) == MessageType::TOPIC_REQUEST
        ==> topic_request_readable(b)
    &&& known_source(s, src) && datagram_kind(b) == MessageType::PONG ==> s.pings.contains_key(
        pong_id(b),
    ) && now >= s.pings[pong_id(b)]
}

/// The choices that the answer depends on are possible ones: which client
/// has the address `src`, which client a CONNECT is recognised as, and
/// the order in which the other followers of a topic get a DATA.
pub open spec fn legacy_choices_ok(
    s: StateView,
    src: PeerAddr,
    b: Seq<u8>,
    source: Option<u64>,
    found: (bool, u64),
    order: Seq<u64>,
) -> bool {
    &&& match source {
        Some(id) => s.clients.contains_key(id) && s.clients[id] == src,
        None => !known_source(s, src),
    }
    &&& datagram_kind(b) == MessageType::CONNECT ==> known_ip(s, src, found)
    &&& (source is Some && datagram_kind(b) == MessageType::DATA) ==> lists(
        order,
        set_or_empty(s.clients_topics, crate::messages::datagrams::u64_at(b, 3)).remove(
            source->0,
        ),
    )
}

/// The CONNECT of `src` takes `s` to `t` with `acts`: it is answered as
/// `legacy_connect_outcome` says, and a new client gets its ping and
/// heartbeat managers started.
pub open spec fn connect_handled(
    s: StateView,
    src: PeerAddr,
    found: (bool, u64),
    new_id: u64,
    heart_beat_period: u16,
    t: StateView,
    acts: Seq<ActionView>,
) -> bool {
    let (known, after, answer) = legacy_connect_outcome(s, src, found, new_id, heart_beat_period);
    &&& t == after
    &&& acts == if known {
        answer
    } else {
        answer.push(ActionView::StartManagers { client_id: new_id, addr: src })
    }
}

/// The datagram `b` received from `src` at `now` takes `s` to `t` with
/// the actions `acts`, given the choices of `legacy_choices_ok`: an
/// unknown source is heard only for a CONNECT; a client's DATA goes to
/// the other followers of its topic, a SHUTDOWN disconnects it, a
/// HEARTBEAT is recorded, a TOPIC_REQUEST is answered as
/// `topic_request_done` says and a PONG sets its ping; anything else
/// changes nothing.
pub open spec fn legacy_datagram_handled(
    s: StateView,
    src: PeerAddr,
    b: Seq<u8>,
    now: u128,
    heart_beat_period: u16,
    source: Option<u64>,
    found: (bool, u64),
    new_id: u64,
    order: Seq<u64>,
    t: StateView,
    acts: Seq<ActionView>,
) -> bool {
    if datagram_kind(b) == MessageType::CONNECT {
        connect_handled(s, src, found, new_id, heart_beat_period, t, acts)
    } else {
        match source {
            None => t == s && acts.len() == 0,
            Some(id) => match datagram_kind(b) {
                MessageType::DATA => t == s && acts == data_sends(s, id, b, order),
                MessageType::SHUTDOWN => t == without_client(s, id) && acts.len() == 0,
                MessageType::HEARTBEAT => t == (StateView {
                    client_has_heartbeat: s.client_has_heartbeat.insert(id, true),
                    ..s
                }) && acts.len() == 0,
                MessageType::TOPIC_REQUEST => topic_request_done(s, id, b, t, acts),
                MessageType::PONG => t == (StateView {
                    pings: s.pings.remove(pong_id(b)),
                    clients_ping: s.clients_ping.insert(
                        id,
                        ((now - s.pings[pong_id(b)]) / 2) as u128,
                    ),
                    ..s
                }) && acts.len() == 0,
                _ => t == s && acts.len() == 0,
            },
        }
    }
}

/// Whether the bytes of a TOPIC_REQUEST can be read as one.
fn topic_request_can_be_read(buffer: &[u8]) -> (r: bool)
    ensures
        r == topic_request_readable(buffer@),
{
    if buffer.len() < 4 {
        return false;
    }
    let size = crate::bytes::read_u16_le(buffer, 1);
    if size < 1 || 3 + (size as usize) > buffer.len() {
        return false;
    }
    let path = crate::bytes::copy_range(buffer, 4, 3 + size as usize);
    crate::asyncbroker::broker::utf8_string(path).is_ok()
}

impl BrokerState {
    /// Whether `handle_datagram` can handle the datagram `buffer`
    /// received from `src` at `now`, as `datagram_handleable` says.
    pub fn can_handle(&self, src: PeerAddr, buffer: &[u8], now: u128) -> (r: bool)
        ensures
            r == datagram_handleable(self@, src, buffer@, now),
    {
        let kind = if buffer.len() > 0 {
            MessageType::from(buffer[0])
        } else {
            MessageType::UNKNOWN
        };
        let (host_known, _) = self.already_connected(src);
        let source = self.get_client_id(src);
        let source_known = source.is_some();
        proof {
            if let Some(id) = source {
                assert(known_source(self@, src));
            }
        }
        if kind == MessageType::CONNECT {
            return !host_known || source_known;
        }
        if !source_known {
            return true;
        }
        match kind {
            MessageType::DATA => {
                if buffer.len() < 11 {
                    return false;
                }
                let size = crate::bytes::read_u16_le(buffer, 1);
                size >= 8 && 3 + (size as usize) <= buffer.len()
            },
            MessageType::TOPIC_REQUEST => topic_request_can_be_read(buffer),
            MessageType::PONG => {
                let ping = if buffer.len() > 1 {
                    buffer[1]
                } else {
                    0
                };
                match self.pings.get(&ping) {
                    Some(sent) => now >= *sent,
                    None => false,
                }
            },
            _ => true,
        }
    }

    /// Handles the datagram `buffer` received from `src` at `now` (in
    /// milliseconds), as `legacy_datagram_handled` says; a new client's
    /// identifier is made from the time `clock_ns`. Every follower of a
    /// topic stays connected.
    pub fn handle_datagram(
        &mut self,
        src: PeerAddr,
        buffer: &[u8],
        now: u128,
        clock_ns: u128,
        heart_beat_period: u16,
    ) -> (r: Vec<Action>)
        requires
            followers_connected(old(self)@),
            datagram_handleable(old(self)@, src, buffer@, now),
        ensures
            exists|source: Option<u64>, found: (bool, u64), new_id: u64, order: Seq<u64>|
                legacy_choices_ok(old(self)@, src, buffer@, source, found, order)
                    && legacy_datagram_handled(
                    old(self)@,
                    src,
                    buffer@,
                    now,
                    heart_beat_period,
                    source,
                    found,
                    new_id,
                    order,
                    final(self)@,
                    actions_view(r@),
                ),
            followers_connected(final(self)@),
    {
        let kind = if buffer.len() > 0 {
            MessageType::from(buffer[0])
        } else {
            MessageType::UNKNOWN
        };
        let ghost s = self@;
        let source = self.get_client_id(src);
        let ghost mut found: (bool, u64) = (false, 0);
        let ghost mut new_id: u64 = 0;
        let ghost mut order: Seq<u64> = Seq::empty();
        if kind == MessageType::CONNECT {
            let (already_client, mut out) = self.handle_connect(src, clock_ns, heart_beat_period);
            proof {
                let (f, n) = choose|f: (bool, u64), n: u64|
                    known_ip(s, src, f) && (already_client, self@, actions_view(out@))
                        == legacy_connect_outcome(s, src, f, n, heart_beat_period);
                found = f;
                new_id = n;
                if !found.0 {
                    assert(self@.clients[new_id] == src);
                }
            }
            let found_id = self.get_client_id(src);
            proof {
                if found.0 {
                    assert(s.clients.contains_key(found.1) && s.clients[found.1].same_ip(src));
                    assert(known_host(s, src));
                    let k = choose|k: u64| #[trigger] s.clients.contains_key(k) && s.clients[k] == src;
                    assert(self@.clients.contains_key(k));
                } else {
                    assert(self@.clients.contains_key(new_id));
                }
            }
            let id = found_id.unwrap();
            if !already_client {
                proof {
                    if id != new_id {
                        assert(s.clients.contains_key(id) && s.clients[id] == src);
                        assert(s.clients[id].same_ip(src));
                        assert(known_host(s, src));
                    }
                }
                let ghost prev = actions_view(out@);
                out.push(Action::StartManagers { client_id: id, addr: src });
                assert(actions_view(out@) =~= prev.push(
                    ActionView::StartManagers { client_id: new_id, addr: src },
                ));
            }
            proof {
                assert(legacy_datagram_handled(s, src, buffer@, now, heart_beat_period, source, found, new_id, order, self@, actions_view(out@)));
                assert(legacy_choices_ok(s, src, buffer@, source, found, order));
                assert forall|t: u64, k: u64|
                    #![trigger self@.clients_topics[t].contains(k)]
                    self@.clients_topics.contains_key(t) && self@.clients_topics[t].contains(k)
                        implies self@.clients.contains_key(k) by {
                    assert(s.clients_topics[t].contains(k));
                }
            }
            return out;
        }
        let mut out: Vec<Action> = Vec::new();
        assert(actions_view(out@) =~= Seq::<ActionView>::empty());
        let client_id = match source {
            None => {
                assert(legacy_datagram_handled(s, src, buffer@, now, heart_beat_period, source, found, new_id, order, self@, actions_view(out@)));
                return out;
            },
            Some(id) => id,
        };
        match kind {
            MessageType::DATA => {
                out = self.handle_data(client_id, buffer);
                proof {
                    order = choose|o: Seq<u64>|
                        lists(
                            o,
                            set_or_empty(s.clients_topics, crate::messages::datagrams::u64_at(buffer@, 3)).remove(
                                client_id,
                            ),
                        ) && actions_view(out@) == data_sends(s, client_id, buffer@, o);
                }
            },
            MessageType::SHUTDOWN => {
                self.handle_disconnect(client_id);
                proof {
                    lemma_disconnect_keeps_followers(s, client_id);
                }
            },
            MessageType::HEARTBEAT => {
                self.handle_heartbeat(client_id);
            },
            MessageType::TOPIC_REQUEST => {
                out = self.topics_request_handler(client_id, buffer);
                proof {
                    lemma_topic_request_keeps_followers(s, client_id, buffer@, self@, actions_view(out@));
                }
            },
            MessageType::PONG => {
                let ping = if buffer.len() > 1 {
                    buffer[1]
                } else {
                    0
                };
                self.handle_pong(client_id, ping, now);
            },
            _ => {},
        }
        assert(legacy_choices_ok(s, src, buffer@, source, found, order));
        assert(legacy_datagram_handled(s, src, buffer@, now, heart_beat_period, source, found, new_id, order, self@, actions_view(out@)));
        out
    }
}

} // verus!
