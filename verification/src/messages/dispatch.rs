//! The broker's answer to each incoming datagram, whatever its kind.

use vstd::prelude::*;
use crate::collections::{lists, set_or_empty};
use crate::messages::broker::{
    actions_view, disconnected, ponged, removed_client, Action, ActionView, Broker, BrokerView,
    ClientView, PeerAddr,
};
use crate::messages::datagrams::{RQ_ObjectRequest, RQ_ServerStatus_ACK, RQ_Shutdown};
use crate::messages::enums::{message_type_from_byte, EndConnexionReason, MessageType};
use crate::messages::manager::{
    data_handled, data_outcome, data_topic, sent_to, shutdown_wire, topic_request_outcome,
};
use crate::messages::objects::{object_of_buffer, object_request_handled, object_request_outcome};
use crate::messages::laws::lemma_datagram_well_formed;
use crate::messages::session::{connect_outcome, connected_as, well_formed};

verus! {

broadcast use vstd::std_specs::hash::group_hash_axioms;

/// Kind of the datagram `b`, read from its first byte.
pub open spec fn message_kind(b: Seq<u8>) -> MessageType {
    if b.len() > 0 {
        message_type_from_byte(b[0])
    } else {
        MessageType::UNKNOWN
    }
}

/// Ping identifier that a PONG datagram carries in its second byte.
pub open spec fn ping_of(b: Seq<u8>) -> u8 {
    if b.len() > 1 {
        b[1]
    } else {
        0
    }
}

/// A PONG received at `now` answers no ping sent later.
pub open spec fn pong_in_time(s: BrokerView, b: Seq<u8>, now: u128) -> bool {
    message_kind(b) == MessageType::PONG && s.pings.contains_key(ping_of(b)) ==> s.pings[ping_of(b)]
        <= now
}

/// A datagram that the broker can read without going past its end.
pub open spec fn datagram_readable(b: Seq<u8>) -> bool {
    message_kind(b) == MessageType::OBJECT_REQUEST ==> RQ_ObjectRequest::readable(b)
}

/// `source` is what `get_client_id` may answer for `src`.
pub open spec fn source_of(s: BrokerView, src: PeerAddr, source: Option<u64>) -> bool {
    match source {
        Some(id) => s.addresses.contains_key(id) && s.addresses[id] == src,
        None => forall|k: u64| #[trigger] s.addresses.contains_key(k) ==> s.addresses[k] != src,
    }
}

/// `s` once the connected client `id` is known to have sent a request at
/// `now`.
pub open spec fn refreshed(s: BrokerView, id: u64, now: u128) -> BrokerView {
    if s.clients.contains_key(id) {
        BrokerView {
            clients: s.clients.insert(
                id,
                ClientView { last_request_from_client: now, ..s.clients[id] },
            ),
            ..s
        }
    } else {
        s
    }
}

/// Encoding of the SERVER_STATUS_ACK giving the status and the number of
/// connected clients.
pub open spec fn server_status_wire(running: bool, connected: nat) -> Seq<u8> {
    RQ_ServerStatus_ACK {
        message_type: MessageType::SERVER_STATUS_ACK,
        status: running,
        connected_client: connected as u64,
    }.wire()
}

/// The choices that the answer to the datagram `b` from `src` depends on
/// are possible ones: which client has the address `src`, the order in
/// which the subscribers are visited when a connected client sends DATA
/// or an OBJECT_REQUEST, and which client a CONNECT is recognised as.
pub open spec fn choices_ok(
    s: BrokerView,
    src: PeerAddr,
    b: Seq<u8>,
    source: Option<u64>,
    order: Seq<u64>,
    found: (bool, u64),
) -> bool {
    let id = match source {
        Some(id) => id,
        None => 0,
    };
    let served = source is Some && s.clients.contains_key(id);
    &&& source_of(s, src, source)
    &&& served && message_kind(b) == MessageType::DATA ==> lists(
        order,
        set_or_empty(s.topics_subscribers, data_topic(b)).remove(id),
    )
    &&& served && message_kind(b) == MessageType::OBJECT_REQUEST ==> lists(
        order,
        set_or_empty(s.object_subscribers, object_of_buffer(b)),
    )
    &&& message_kind(b) == MessageType::CONNECT ==> connected_as(s, src, found)
}

/// The answer of the client `id` (0 for an unknown source) to a datagram
/// `b` from `src`, once the source is known to be allowed.
pub open spec fn dispatched(
    s: BrokerView,
    id: u64,
    src: PeerAddr,
    b: Seq<u8>,
    now: u128,
    clock_ns: u128,
    heart_beat_period: u16,
    order: Seq<u64>,
    found: (bool, u64),
    new_id: u64,
    ping_id: u8,
) -> (BrokerView, Seq<ActionView>) {
    match message_kind(b) {
        MessageType::CONNECT => connect_outcome(s, src, now, found, new_id, ping_id, heart_beat_period),
        MessageType::DATA => data_outcome(s, id, b, now, order),
        MessageType::SHUTDOWN => (disconnected(s, id), Seq::empty()),
        MessageType::OBJECT_REQUEST => object_request_outcome(s, id, b, now, clock_ns as u64, order),
        MessageType::TOPIC_REQUEST => topic_request_outcome(s, id, b, now),
        MessageType::PONG => (
            if s.clients.contains_key(id) {
                ponged(s, id, ping_of(b), now)
            } else {
                s
            },
            Seq::empty(),
        ),
        MessageType::SERVER_STATUS => {
            let bytes = server_status_wire(s.running, s.clients.len());
            (
                if id == 0 {
                    s
                } else {
                    sent_to(s, id, now)
                },
                seq![ActionView::Send { to: src, bytes }],
            )
        },
        _ => (s, Seq::empty()),
    }
}

/// What the broker does with the datagram `b` received from `src` at
/// `now`, given the choices of `choices_ok`: a datagram from an unknown
/// source is dropped unless it is a CONNECT; one from an address whose
/// client has no channel makes the broker forget that client, send it a
/// SHUTDOWN for a synchronisation error and stop; otherwise the client's
/// last request time is refreshed and the datagram is handled by kind.
pub open spec fn datagram_outcome(
    s: BrokerView,
    src: PeerAddr,
    b: Seq<u8>,
    now: u128,
    clock_ns: u128,
    heart_beat_period: u16,
    source: Option<u64>,
    order: Seq<u64>,
    found: (bool, u64),
    new_id: u64,
    ping_id: u8,
) -> (BrokerView, Seq<ActionView>) {
    match source {
        None => if message_kind(b) != MessageType::CONNECT {
            (s, Seq::empty())
        } else {
            dispatched(s, 0, src, b, now, clock_ns, heart_beat_period, order, found, new_id, ping_id)
        },
        Some(id) => if !s.clients.contains_key(id) {
            (
                removed_client(s, id),
                seq![
                    ActionView::Send { to: src, bytes: shutdown_wire(EndConnexionReason::SYNC_ERROR) },
                    ActionView::Stop,
                ],
            )
        } else {
            dispatched(
                refreshed(s, id, now),
                id,
                src,
                b,
                now,
                clock_ns,
                heart_beat_period,
                order,
                found,
                new_id,
                ping_id,
            )
        },
    }
}

impl Broker {
    /// Whether `handle_datagram` can handle the datagram `buffer`
    /// received at `now`: it can be read, and a PONG answers a ping sent
    /// no later than `now`.
    pub fn can_handle(&self, buffer: &[u8], now: u128) -> (r: bool)
        ensures
            r == (datagram_readable(buffer@) && pong_in_time(self@, buffer@, now)),
    {
        if buffer.len() == 0 {
            return true;
        }
        let kind = MessageType::from(buffer[0]);
        if kind == MessageType::OBJECT_REQUEST && buffer.len() >= 12 {
            let size = crate::bytes::read_u16_le(buffer, 1);
            return size == 0 || (size as usize) + 12 < buffer.len();
        }
        if kind == MessageType::PONG {
            let ping = if buffer.len() > 1 {
                buffer[1]
            } else {
                0
            };
            return match self.pings.get(&ping) {
                Some(sent) => *sent <= now,
                None => true,
            };
        }
        true
    }

    /// Records `time` as the last time the connected client `client_id`
    /// sent a request.
    fn update_client_last_request(&mut self, client_id: u64, time: u128)
        ensures
            final(self)@ == refreshed(old(self)@, client_id, time),
    {
        if let Some(mut c) = self.clients.remove(&client_id) {
            c.save_client_request_timestamp(time);
            self.clients.insert(client_id, c);
        }
        assert(self@.clients =~= refreshed(old(self)@, client_id, time).clients);
    }
    /// Handles the datagram `buffer` received from `src` at `now` (in
    /// milliseconds), as `datagram_outcome` says; `clock_ns` is the time
    /// in nanoseconds that fresh identifiers are made from.
    pub fn handle_datagram(
        &mut self,
        src: PeerAddr,
        buffer: &[u8],
        now: u128,
        clock_ns: u128,
        heart_beat_period: u16,
    ) -> (r: Vec<Action>)
        requires
            well_formed(old(self)@),
            pong_in_time(old(self)@, buffer@, now),
            datagram_readable(buffer@),
        ensures
            exists|source: Option<u64>, order: Seq<u64>, found: (bool, u64), new_id: u64, ping_id: u8|
                choices_ok(old(self)@, src, buffer@, source, order, found) && (
                final(self)@,
                actions_view(r@),
            ) == datagram_outcome(
                old(self)@,
                src,
                buffer@,
                now,
                clock_ns,
                heart_beat_period,
                source,
                order,
                found,
                new_id,
                ping_id,
            ),
            well_formed(final(self)@),
    {
        let kind = if buffer.len() > 0 {
            MessageType::from(buffer[0])
        } else {
            MessageType::UNKNOWN
        };
        let source = self.get_client_id(src);
        let ghost mut order: Seq<u64> = Seq::empty();
        let ghost mut found: (bool, u64) = (false, 0);
        let ghost mut new_id: u64 = 0;
        let ghost mut ping_id: u8 = 0;
        let mut out: Vec<Action> = Vec::new();
        assert(actions_view(out@) =~= Seq::<ActionView>::empty());
        let client_id: u64 = match source {
            None => {
                if kind != MessageType::CONNECT {
                    assert(datagram_outcome(old(self)@, src, buffer@, now, clock_ns, heart_beat_period, source, order, found, new_id, ping_id) == (self@, actions_view(out@)));
                    proof {
                        lemma_datagram_well_formed(old(self)@, src, buffer@, now, clock_ns, heart_beat_period, source, order, found, new_id, ping_id);
                    }
                    return out;
                }
                0
            },
            Some(id) => {
                if !self.clients.contains_key(&id) {
                    self.try_remove_client_from_set(id);
                    let shutdown = RQ_Shutdown::new(EndConnexionReason::SYNC_ERROR);
                    out.push(Action::Send { to: src, bytes: shutdown.as_bytes() });
                    out.push(Action::Stop);
                    assert(actions_view(out@) =~= seq![
                        ActionView::Send { to: src, bytes: shutdown_wire(EndConnexionReason::SYNC_ERROR) },
                        ActionView::Stop,
                    ]);
                    assert(datagram_outcome(old(self)@, src, buffer@, now, clock_ns, heart_beat_period, source, order, found, new_id, ping_id) == (self@, actions_view(out@)));
                    proof {
                        lemma_datagram_well_formed(old(self)@, src, buffer@, now, clock_ns, heart_beat_period, source, order, found, new_id, ping_id);
                    }
                    return out;
                }
                self.update_client_last_request(id, now);
                id
            },
        };
        let ghost s = self@;
        let out = match kind {
            MessageType::CONNECT => {
                let r = self.handle_connect(src, now, clock_ns, heart_beat_period);
                proof {
                    let (f, n, p) = choose|f: (bool, u64), n: u64, p: u8|
                        connected_as(s, src, f) && (self@, actions_view(r@)) == connect_outcome(
                            s,
                            src,
                            now,
                            f,
                            n,
                            p,
                            heart_beat_period,
                        );
                    found = f;
                    new_id = n;
                    ping_id = p;
                }
                r
            },
            MessageType::DATA => {
                let r = self.handle_data(client_id, buffer, now);
                proof {
                    order = choose|o: Seq<u64>|
                        data_handled(s, client_id, buffer@, now, o, self@, actions_view(r@));
                }
                r
            },
            MessageType::SHUTDOWN => {
                self.handle_disconnect(client_id);
                out
            },
            MessageType::OBJECT_REQUEST => {
                let r = self.handle_object_request(client_id, buffer, now, clock_ns as u64);
                proof {
                    let c = clock_ns as u64;
                    order = choose|o: Seq<u64>|
                        object_request_handled(
                            s,
                            client_id,
                            buffer@,
                            now,
                            c,
                            o,
                            self@,
                            actions_view(r@),
                        );
                }
                r
            },
            MessageType::TOPIC_REQUEST => self.handle_topic_request(client_id, buffer, now),
            MessageType::PONG => {
                if self.is_online(client_id) {
                    let ping = if buffer.len() > 1 {
                        buffer[1]
                    } else {
                        0
                    };
                    self.handle_pong(client_id, ping, now);
                }
                out
            },
            MessageType::SERVER_STATUS => {
                let connected_clients = self.clients.len();
                assert(connected_clients == s.clients.len()) by {
                    assert(s.clients.dom() =~= self.clients@.dom());
                }
                let ack = RQ_ServerStatus_ACK::new(self.running, connected_clients as u64);
                if client_id == 0 {
                    out.push(Action::Send { to: src, bytes: ack.as_bytes() });
                    assert(actions_view(out@) =~= seq![
                        ActionView::Send { to: src, bytes: server_status_wire(s.running, s.clients.len()) },
                    ]);
                } else {
                    self.send_datagram(&mut out, src, ack.as_bytes(), client_id, now);
                }
                out
            },
            _ => out,
        };
        assert(choices_ok(old(self)@, src, buffer@, source, order, found));
        assert((self@, actions_view(out@)) == datagram_outcome(
            old(self)@,
            src,
            buffer@,
            now,
            clock_ns,
            heart_beat_period,
            source,
            order,
            found,
            new_id,
            ping_id,
        ));
        proof {
            lemma_datagram_well_formed(old(self)@, src, buffer@, now, clock_ns, heart_beat_period, source, order, found, new_id, ping_id);
        }
        out
    }
}

} // verus!
