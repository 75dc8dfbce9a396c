//! Connections: finding clients by their address, connecting new ones,
//! fresh identifiers, pings and heartbeats.

use vstd::prelude::*;
use std::collections::HashSet;
use crate::collections::{lists, map_keys};
use crate::messages::broker::{
    actions_view, disconnected, removed_client, Action, ActionView, Broker, BrokerView, Client,
    ClientView, PeerAddr,
};
use crate::messages::datagrams::{
    RQ_Connect_ACK_OK, RQ_Heartbeat, RQ_Heartbeat_Request, RQ_Ping, RQ_Shutdown,
};
use crate::messages::enums::{ConnectStatus, EndConnexionReason, MessageType};
use crate::messages::laws::{lemma_connect_well_formed, lemma_heartbeat_well_formed, lemma_ping_round_well_formed};
use crate::messages::manager::{sent_to, shutdown_wire};

verus! {

broadcast use vstd::std_specs::hash::group_hash_axioms;

/// Draws a number with `rand::random`, from the generator of the current
/// thread; nothing is promised of the value.
#[verifier::external_body]
fn random_u64() -> (r: u64) {
    rand::random::<u64>()
}

/// The client identifier made from the time `clock_ns` (nanoseconds since
/// the UNIX epoch) and the random `noise`: the time on 64 bits XOR the
/// noise.
pub fn client_id_from(clock_ns: u128, noise: u64) -> (r: u64)
    ensures
        r == (clock_ns as u64) ^ noise,
{
    (clock_ns as u64) ^ noise
}

/// A fresh client identifier made from the time `clock_ns` and a random
/// number.
pub fn get_new_id(clock_ns: u128) -> u64 {
    client_id_from(clock_ns, random_u64())
}

/// The ping identifier made from the time `clock_ns` and the random
/// `noise`: the low bytes of both, XORed.
pub fn ping_id_from(clock_ns: u128, noise: u64) -> (r: u8)
    ensures
        r == (clock_ns as u8) ^ (noise as u8),
{
    (clock_ns as u8) ^ (noise as u8)
}

/// A fresh ping identifier made from the time `clock_ns` and a random
/// number.
pub fn get_new_ping_id(clock_ns: u128) -> u8 {
    ping_id_from(clock_ns, random_u64())
}

/// `found` is what `already_connected` may answer for `ip`: whether some
/// known address has that IP address, and if so the client of one of them.
pub open spec fn connected_as(s: BrokerView, ip: PeerAddr, found: (bool, u64)) -> bool {
    &&& found.0 == (exists|k: u64| #[trigger] s.addresses.contains_key(k) && s.addresses[k].same_ip(ip))
    &&& found.0 ==> s.addresses.contains_key(found.1) && s.addresses[found.1].same_ip(ip)
    &&& !found.0 ==> found.1 == 0
}

/// Every known address belongs to a connected client.
pub open spec fn well_formed(s: BrokerView) -> bool {
    forall|k: u64| #[trigger] s.addresses.contains_key(k) ==> s.clients.contains_key(k)
}

/// Encoding of the CONNECT_ACK giving `id` and the heartbeat period.
pub open spec fn connect_ack_wire(id: u64, heart_beat_period: u16) -> Seq<u8> {
    RQ_Connect_ACK_OK {
        message_type: MessageType::CONNECT_ACK,
        status: ConnectStatus::SUCCESS,
        peer_id: id,
        heartbeat_period: heart_beat_period,
    }.wire()
}

/// Encoding of a PING carrying `ping_id`.
pub open spec fn ping_wire(ping_id: u8) -> Seq<u8> {
    RQ_Ping { message_type: MessageType::PING, ping_id }.wire()
}

/// A client that has just connected from `socket` at `now`.
pub open spec fn new_client(id: u64, socket: PeerAddr, now: u128) -> ClientView {
    ClientView {
        id,
        socket,
        last_request_from_client: now,
        last_request_from_server: 0,
        ping: 0,
        topics: Set::empty(),
        objects: Set::empty(),
        requests_counter: Map::empty(),
    }
}

/// `s` once the broker keeps `now` as the reference time of `ping_id`.
pub open spec fn with_ping(s: BrokerView, ping_id: u8, now: u128) -> BrokerView {
    BrokerView { pings: s.pings.insert(ping_id, now), ..s }
}

/// What a CONNECT from `src` at `now` gives, `found` being the answer of
/// `already_connected`: a peer whose IP address is known gets the
/// identifier it had; otherwise it is recorded under `new_id`, its
/// managers start and it is sent a PING carrying `ping_id`.
pub open spec fn connect_outcome(
    s: BrokerView,
    src: PeerAddr,
    now: u128,
    found: (bool, u64),
    new_id: u64,
    ping_id: u8,
    heart_beat_period: u16,
) -> (BrokerView, Seq<ActionView>) {
    if found.0 {
        (
            sent_to(s, found.1, now),
            seq![ActionView::Send { to: src, bytes: connect_ack_wire(found.1, heart_beat_period) }],
        )
    } else {
        let recorded = BrokerView {
            clients: s.clients.insert(new_id, new_client(new_id, src, now)),
            addresses: s.addresses.insert(new_id, src),
            ..s
        };
        (
            sent_to(with_ping(sent_to(recorded, new_id, now), ping_id, now), new_id, now),
            seq![
                ActionView::Send { to: src, bytes: connect_ack_wire(new_id, heart_beat_period) },
                ActionView::StartManagers { client_id: new_id, addr: src },
                ActionView::Send { to: src, bytes: ping_wire(ping_id) },
            ],
        )
    }
}

/// Sending a PING carrying `ping_id` at `now` to the client `id`.
pub open spec fn ping_step(s: BrokerView, id: u64, ping_id: u8, now: u128) -> (
    BrokerView,
    Seq<ActionView>,
) {
    (
        sent_to(with_ping(s, ping_id, now), id, now),
        seq![ActionView::Send { to: s.addresses[id], bytes: ping_wire(ping_id) }],
    )
}

/// Sending a PING to each client of `ids` in that order, the i-th one
/// carrying `ping_ids[i]`.
pub open spec fn ping_round(s: BrokerView, ids: Seq<u64>, ping_ids: Seq<u8>, now: u128) -> (
    BrokerView,
    Seq<ActionView>,
)
    decreases ids.len(),
{
    if ids.len() == 0 || ping_ids.len() == 0 {
        (s, Seq::empty())
    } else {
        let (next, acts) = ping_step(s, ids[0], ping_ids[0], now);
        let (f, rest) = ping_round(next, ids.drop_first(), ping_ids.drop_first(), now);
        (f, acts + rest)
    }
}

/// The client `id` sent a request within the last heartbeat period: its
/// last request is no older than `now` minus the period in milliseconds.
pub open spec fn life_sign(s: BrokerView, id: u64, now: u128, heart_beat_period: u16) -> bool {
    s.clients.contains_key(id) && s.clients[id].last_request_from_client >= now
        - heart_beat_period * 1000
}

/// What one heartbeat check of the client `id` at `socket` gives, after
/// `missed` periods without a life sign: a life sign resets the count
/// and is answered with a HEARTBEAT; otherwise the count grows, a
/// HEARTBEAT_REQUEST goes out at the second missed period, and at the
/// fourth the client is sent a SHUTDOWN and disconnected.
pub open spec fn heartbeat_outcome(
    s: BrokerView,
    id: u64,
    socket: PeerAddr,
    missed: u8,
    now: u128,
    heart_beat_period: u16,
) -> (u8, BrokerView, Seq<ActionView>) {
    if life_sign(s, id, now, heart_beat_period) {
        (
            0,
            sent_to(s, id, now),
            seq![
                ActionView::Send {
                    to: socket,
                    bytes: RQ_Heartbeat { message_type: MessageType::HEARTBEAT }.wire(),
                },
            ],
        )
    } else if missed + 1 == 2 {
        (
            2,
            sent_to(s, id, now),
            seq![
                ActionView::Send {
                    to: socket,
                    bytes: RQ_Heartbeat_Request {
                        message_type: MessageType::HEARTBEAT_REQUEST,
                    }.wire(),
                },
            ],
        )
    } else if missed + 1 == 4 {
        (
            4,
            disconnected(sent_to(s, id, now), id),
            seq![
                ActionView::Send { to: socket, bytes: shutdown_wire(EndConnexionReason::SHUTDOWN) },
            ],
        )
    } else {
        ((missed + 1) as u8, s, Seq::empty())
    }
}

impl Broker {
    /// Keeps `now` as the reference time of a fresh ping identifier made
    /// from the time `clock_ns`, and returns it.
    pub fn get_new_ping_reference(&mut self, now: u128, clock_ns: u128) -> (r: u8)
        ensures
            final(self)@ == with_ping(old(self)@, r, now),
    {
        let key = get_new_ping_id(clock_ns);
        self.pings.insert(key, now);
        key
    }

    /// The identifier of the client whose address is `src`, if any.
    pub fn get_client_id(&self, src: PeerAddr) -> (r: Option<u64>)
        ensures
            match r {
                Some(id) => self@.addresses.contains_key(id) && self@.addresses[id] == src,
                None => forall|k: u64| #[trigger]
                    self@.addresses.contains_key(k) ==> self@.addresses[k] != src,
            },
    {
        let keys = map_keys(&self.addresses);
        let mut i: usize = 0;
        while i < keys.len()
            invariant
                i <= keys@.len(),
                lists(keys@, self@.addresses.dom()),
                forall|j: int| 0 <= j < i ==> self@.addresses[#[trigger] keys@[j]] != src,
            decreases keys.len() - i,
        {
            let k = keys[i];
            assert(keys@.to_set().contains(k));
            let addr = *self.addresses.get(&k).unwrap();
            if addr == src {
                return Some(k);
            }
            i = i + 1;
        }
        assert forall|k: u64| #[trigger] self@.addresses.contains_key(k) implies self@.addresses[k]
            != src by {
            assert(keys@.to_set().contains(k));
        }
        None
    }

    /// Whether a known address has the IP address of `ip`, and if so the
    /// client of one of them (0 otherwise).
    pub fn already_connected(&self, ip: PeerAddr) -> (r: (bool, u64))
        ensures
            connected_as(self@, ip, r),
    {
        let keys = map_keys(&self.addresses);
        let mut i: usize = 0;
        while i < keys.len()
            invariant
                i <= keys@.len(),
                lists(keys@, self@.addresses.dom()),
                forall|j: int| 0 <= j < i ==> !self@.addresses[#[trigger] keys@[j]].same_ip(ip),
            decreases keys.len() - i,
        {
            let k = keys[i];
            assert(keys@.to_set().contains(k));
            let addr = *self.addresses.get(&k).unwrap();
            if addr.ip == ip.ip && addr.ipv6 == ip.ipv6 {
                return (true, k);
            }
            i = i + 1;
        }
        assert forall|k: u64| #[trigger] self@.addresses.contains_key(k) implies !self@.addresses[k].same_ip(
            ip,
        ) by {
            assert(keys@.to_set().contains(k));
        }
        (false, 0)
    }

    /// The address of the client `client_id`; a client without one is
    /// forgotten everywhere.
    pub fn get_client_addr(&mut self, client_id: u64) -> (r: Result<PeerAddr, ()>)
        ensures
            old(self)@.addresses.contains_key(client_id) ==> r == Ok::<PeerAddr, ()>(
                old(self)@.addresses[client_id],
            ) && final(self)@ == old(self)@,
            !old(self)@.addresses.contains_key(client_id) ==> r is Err && final(self)@
                == removed_client(old(self)@, client_id),
    {
        match self.addresses.get(&client_id) {
            None => {
                self.try_remove_client_from_set(client_id);
                Err(())
            },
            Some(value) => Ok(*value),
        }
    }

    /// Whether the client `client_id` has a channel, that is, is
    /// connected; a client without one is forgotten everywhere.
    pub fn get_client_sender(&mut self, client_id: u64) -> (r: Result<(), ()>)
        ensures
            old(self)@.clients.contains_key(client_id) ==> r is Ok && final(self)@ == old(self)@,
            !old(self)@.clients.contains_key(client_id) ==> r is Err && final(self)@
                == removed_client(old(self)@, client_id),
    {
        if self.clients.contains_key(&client_id) {
            Ok(())
        } else {
            self.try_remove_client_from_set(client_id);
            Err(())
        }
    }
}

impl Broker {
    /// Answers a CONNECT from `src` at `now`, as `connect_outcome` says,
    /// a new client being recorded under `new_id` and pinged with
    /// `ping_id`.
    pub fn connect_client(
        &mut self,
        src: PeerAddr,
        now: u128,
        new_id: u64,
        ping_id: u8,
        heart_beat_period: u16,
    ) -> (r: Vec<Action>)
        requires
            well_formed(old(self)@),
        ensures
            exists|found: (bool, u64)|
                connected_as(old(self)@, src, found) && (final(self)@, actions_view(r@))
                    == connect_outcome(old(self)@, src, now, found, new_id, ping_id, heart_beat_period),
            well_formed(final(self)@),
    {
        let mut out: Vec<Action> = Vec::new();
        let found = self.already_connected(src);
        let (is_connected, current_id) = found;
        let uuid = if is_connected {
            current_id
        } else {
            let new_client = Client::new(new_id, src, now);
            self.clients.insert(new_id, new_client);
            self.addresses.insert(new_id, src);
            new_id
        };
        let ack = RQ_Connect_ACK_OK::new(uuid, heart_beat_period);
        self.send_datagram(&mut out, src, ack.as_bytes(), uuid, now);
        if !is_connected {
            let ghost prev = actions_view(out@);
            out.push(Action::StartManagers { client_id: uuid, addr: src });
            assert(actions_view(out@) =~= prev.push(
                ActionView::StartManagers { client_id: uuid, addr: src },
            ));
            self.pings.insert(ping_id, now);
            let ping = RQ_Ping::new(ping_id);
            self.send_datagram(&mut out, src, ping.as_bytes(), uuid, now);
        }
        proof {
            let e = connect_outcome(old(self)@, src, now, found, new_id, ping_id, heart_beat_period);
            assert(actions_view(out@) =~= e.1);
            if !is_connected {
                assert(self@.clients =~= e.0.clients);
            }
            assert(self@ == e.0);
            lemma_connect_well_formed(old(self)@, src, now, found, new_id, ping_id, heart_beat_period);
        }
        out
    }

    /// Answers a CONNECT from `src` at `now`; a new client gets a fresh
    /// identifier and a fresh ping identifier, both made from the time
    /// `clock_ns` and random numbers.
    pub fn handle_connect(
        &mut self,
        src: PeerAddr,
        now: u128,
        clock_ns: u128,
        heart_beat_period: u16,
    ) -> (r: Vec<Action>)
        requires
            well_formed(old(self)@),
        ensures
            exists|found: (bool, u64), new_id: u64, ping_id: u8|
                connected_as(old(self)@, src, found) && (final(self)@, actions_view(r@))
                    == connect_outcome(old(self)@, src, now, found, new_id, ping_id, heart_beat_period),
            well_formed(final(self)@),
    {
        let new_id = get_new_id(clock_ns);
        let ping_id = get_new_ping_id(clock_ns);
        self.connect_client(src, now, new_id, ping_id, heart_beat_period)
    }

    /// Sends a PING to every client that has an address, in the order of
    /// the address map, each with a fresh ping reference made from the
    /// time `clock_ns` and kept with the time `now`.
    pub fn send_pings(&mut self, now: u128, clock_ns: u128) -> (r: Vec<Action>)
        requires
            well_formed(old(self)@),
        ensures
            exists|ids: Seq<u64>, ping_ids: Seq<u8>|
                {
                    &&& lists(ids, old(self)@.addresses.dom())
                    &&& ping_ids.len() == ids.len()
                    &&& (final(self)@, actions_view(r@)) == ping_round(
                        old(self)@,
                        ids,
                        ping_ids,
                        now,
                    )
                },
            well_formed(final(self)@),
    {
        let ids = map_keys(&self.addresses);
        let mut out: Vec<Action> = Vec::new();
        let ghost start = self@;
        let ghost mut ping_ids: Seq<u8> = Seq::empty();
        let mut i: usize = 0;
        assert(ids@.skip(0) =~= ids@);
        assert(actions_view(out@) =~= Seq::<ActionView>::empty());
        while i < ids.len()
            invariant
                i <= ids@.len(),
                ping_ids.len() == i,
                lists(ids@, start.addresses.dom()),
                self@.addresses == start.addresses,
                well_formed(self@),
                forall|q: Seq<u8>|
                    q.len() == ids@.len() - i ==> #[trigger] ping_round(
                        start,
                        ids@,
                        ping_ids + q,
                        now,
                    ) == ({
                        let (f, a) = ping_round(self@, ids@.skip(i as int), q, now);
                        (f, actions_view(out@) + a)
                    }),
            decreases ids.len() - i,
        {
            let client_id = ids[i];
            assert(ids@.to_set().contains(client_id));
            let ghost pre = self@;
            let ghost prev = actions_view(out@);
            let client_addr = *self.addresses.get(&client_id).unwrap();
            let ping_id = self.get_new_ping_reference(now, clock_ns);
            let ping = RQ_Ping::new(ping_id);
            self.send_datagram(&mut out, client_addr, ping.as_bytes(), client_id, now);
            proof {
                assert forall|q: Seq<u8>|
                    q.len() == ids@.len() - (i + 1) implies #[trigger] ping_round(
                    start,
                    ids@,
                    ping_ids.push(ping_id) + q,
                    now,
                ) == ({
                    let (f, a) = ping_round(self@, ids@.skip(i + 1), q, now);
                    (f, actions_view(out@) + a)
                }) by {
                    let q2 = seq![ping_id] + q;
                    assert(ping_ids.push(ping_id) + q =~= ping_ids + q2);
                    assert(ids@.skip(i as int)[0] == client_id);
                    assert(ids@.skip(i as int).drop_first() =~= ids@.skip(i + 1));
                    assert(q2[0] == ping_id);
                    assert(q2.drop_first() =~= q);
                    let (f, a) = ping_round(self@, ids@.skip(i + 1), q, now);
                    assert(prev + (seq![
                        ActionView::Send { to: client_addr, bytes: ping_wire(ping_id) },
                    ] + a) =~= actions_view(out@) + a);
                }
                ping_ids = ping_ids.push(ping_id);
            }
            i = i + 1;
        }
        proof {
            let q = Seq::<u8>::empty();
            assert(ping_ids + q =~= ping_ids);
            assert(ids@.skip(ids@.len() as int) =~= Seq::<u64>::empty());
            assert(ping_round(start, ids@, ping_ids + q, now) == ({
                let (f, a) = ping_round(self@, ids@.skip(i as int), q, now);
                (f, actions_view(out@) + a)
            }));
            assert(actions_view(out@) + Seq::<ActionView>::empty() =~= actions_view(out@));
            lemma_ping_round_well_formed(start, ids@, ping_ids, now);
        }
        out
    }

    /// The client `client_id` sent a request within the last heartbeat
    /// period of `heart_beat_period` seconds before `now` (milliseconds).
    /// A client that has disconnected has closed its command channel: its
    /// last request time can no longer be asked for, and it gives no life
    /// sign.
    pub fn client_has_sent_life_sign(&self, client_id: u64, now: u128, heart_beat_period: u16) -> (r:
        bool)
        requires
            heart_beat_period * 1000 <= u16::MAX,
            now >= heart_beat_period * 1000,
        ensures
            r == life_sign(self@, client_id, now, heart_beat_period),
    {
        let last_client_request = match self.clients.get(&client_id) {
            None => {
                return false;
            },
            Some(c) => c.last_request_from_client,
        };
        let should_have_give_life_sign = now - (heart_beat_period * 1000) as u128;
        last_client_request >= should_have_give_life_sign
    }

    /// Starts watching the heartbeat of the client `client_id` at
    /// `socket`: when it has no channel it is forgotten and sent a
    /// SHUTDOWN for a synchronisation error, and the watch does not
    /// start.
    pub fn heartbeat_start(&mut self, client_id: u64, socket: PeerAddr) -> (r: (bool, Vec<Action>))
        ensures
            old(self)@.clients.contains_key(client_id) ==> r.0 && final(self)@ == old(self)@
                && r.1@.len() == 0,
            !old(self)@.clients.contains_key(client_id) ==> !r.0 && final(self)@ == removed_client(
                old(self)@,
                client_id,
            ) && actions_view(r.1@) == seq![
                ActionView::Send { to: socket, bytes: shutdown_wire(EndConnexionReason::SYNC_ERROR) },
            ],
    {
        let mut out: Vec<Action> = Vec::new();
        match self.get_client_sender(client_id) {
            Ok(()) => (true, out),
            Err(()) => {
                let shutdown = RQ_Shutdown::new(EndConnexionReason::SYNC_ERROR);
                out.push(Action::Send { to: socket, bytes: shutdown.as_bytes() });
                assert(actions_view(out@) =~= seq![
                    ActionView::Send { to: socket, bytes: shutdown_wire(EndConnexionReason::SYNC_ERROR) },
                ]);
                (false, out)
            },
        }
    }

    /// One heartbeat check of the client `client_id` at `socket` at `now`,
    /// after `missed` periods without a life sign, as `heartbeat_outcome`
    /// says; returns the new count of missed periods.
    pub fn heartbeat_check(
        &mut self,
        client_id: u64,
        socket: PeerAddr,
        missed: u8,
        now: u128,
        heart_beat_period: u16,
    ) -> (r: (u8, Vec<Action>))
        requires
            missed < 255,
            heart_beat_period * 1000 <= u16::MAX,
            now >= heart_beat_period * 1000,
        ensures
            (r.0, final(self)@, actions_view(r.1@)) == heartbeat_outcome(
                old(self)@,
                client_id,
                socket,
                missed,
                now,
                heart_beat_period,
            ),
            well_formed(old(self)@) ==> well_formed(final(self)@),
    {
        let mut out: Vec<Action> = Vec::new();
        let mut missed_heartbeats = missed;
        if !self.client_has_sent_life_sign(client_id, now, heart_beat_period) {
            missed_heartbeats = missed_heartbeats + 1;
            if missed_heartbeats == 2 {
                let request = RQ_Heartbeat_Request::new();
                self.send_datagram(&mut out, socket, request.as_bytes(), client_id, now);
            } else if missed_heartbeats == 4 {
                let shutdown = RQ_Shutdown::new(EndConnexionReason::SHUTDOWN);
                self.send_datagram(&mut out, socket, shutdown.as_bytes(), client_id, now);
                self.handle_disconnect(client_id);
            }
        } else {
            missed_heartbeats = 0;
            let heartbeat = RQ_Heartbeat::new();
            self.send_datagram(&mut out, socket, heartbeat.as_bytes(), client_id, now);
        }
        assert(actions_view(out@) =~= heartbeat_outcome(old(self)@, client_id, socket, missed, now, heart_beat_period).2);
        proof {
            if well_formed(old(self)@) {
                lemma_heartbeat_well_formed(old(self)@, client_id, socket, missed, now, heart_beat_period);
            }
        }
        (missed_heartbeats, out)
    }
}

} // verus!
