//! State of the broker and the decisions it takes on each datagram: who
//! is connected, who subscribes to what, and which datagrams go out.

use vstd::prelude::*;
use std::collections::{HashMap, HashSet};
use vstd::string::StringSliceAdditionalSpecFns;
use crate::bytes::{decimal, extend_bytes, push_decimal};
use crate::collections::{copy_set, lists, map_keys, members_of, set_map_add, set_map_remove_key,
    set_map_remove_member, set_members, set_or_empty, sets_view};

verus! {

broadcast use vstd::std_specs::hash::group_hash_axioms;

/// Address of a peer: its IP address on 128 bits (an IPv4 address is
/// held in the low 32 bits), whether it is an IPv6 address, and its port.
#[derive(Copy, Clone, Debug, PartialEq, Eq, Structural)]
pub struct PeerAddr {
    pub ip: u128,
    pub ipv6: bool,
    pub port: u16,
}

impl PeerAddr {
    /// Both addresses have the same IP address, whatever their ports.
    pub open spec fn same_ip(self, other: PeerAddr) -> bool {
        self.ip == other.ip && self.ipv6 == other.ipv6
    }
}

/// What the broker keeps of a connected client.
pub struct Client {
    pub id: u64,
    pub socket: PeerAddr,
    pub last_request_from_client: u128,
    pub last_request_from_server: u128,
    pub ping: u128,
    pub topics: HashSet<u64>,
    pub objects: HashSet<u64>,
    pub requests_counter: HashMap<u64, u32>,
}

/// Mathematical view of a client.
pub struct ClientView {
    pub id: u64,
    pub socket: PeerAddr,
    pub last_request_from_client: u128,
    pub last_request_from_server: u128,
    pub ping: u128,
    pub topics: Set<u64>,
    pub objects: Set<u64>,
    pub requests_counter: Map<u64, u32>,
}

impl View for Client {
    type V = ClientView;

    open spec fn view(&self) -> ClientView {
        ClientView {
            id: self.id,
            socket: self.socket,
            last_request_from_client: self.last_request_from_client,
            last_request_from_server: self.last_request_from_server,
            ping: self.ping,
            topics: self.topics@,
            objects: self.objects@,
            requests_counter: self.requests_counter@,
        }
    }
}

impl Client {
    /// A client that has just connected from `socket` at time `now`.
    pub fn new(id: u64, socket: PeerAddr, now: u128) -> (r: Client)
        ensures
            r@ == (ClientView {
                id,
                socket,
                last_request_from_client: now,
                last_request_from_server: 0,
                ping: 0,
                topics: Set::empty(),
                objects: Set::empty(),
                requests_counter: Map::empty(),
            }),
    {
        Client {
            id,
            socket,
            last_request_from_client: now,
            last_request_from_server: 0,
            ping: 0,
            topics: HashSet::new(),
            objects: HashSet::new(),
            requests_counter: HashMap::new(),
        }
    }

    /// Records `time` as the last time the client sent a request.
    pub fn save_client_request_timestamp(&mut self, time: u128)
        ensures
            final(self)@ == (ClientView { last_request_from_client: time, ..old(self)@ }),
    {
        self.last_request_from_client = time;
    }

    /// Records `time` as the last time the broker sent the client a request.
    pub fn save_server_request_timestamp(&mut self, time: u128)
        ensures
            final(self)@ == (ClientView { last_request_from_server: time, ..old(self)@ }),
    {
        self.last_request_from_server = time;
    }

    /// The value stored under `key`, as `get_reply` says.
    pub fn get(&self, key: &str) -> (r: Result<u128, String>)
        ensures
            match r {
                Ok(v) => get_reply(self@, key@) == Ok::<u128, Seq<char>>(v),
                Err(e) => get_reply(self@, key@) == Err::<u128, Seq<char>>(e@),
            },
    {
        let k = key.to_owned();
        if k == "id".to_owned() {
            Ok(self.id as u128)
        } else if k == "last_request_from_client".to_owned() {
            Ok(self.last_request_from_client)
        } else {
            let mut message = "Bad key requested : \"".to_owned();
            message.append(key);
            message.append("\"");
            Err(message)
        }
    }
}

/// The answer to a request for the value under `key`: the identifier for
/// `id`, the time of the client's last request for
/// `last_request_from_client`; any other key is refused with a message
/// that quotes it.
pub open spec fn get_reply(c: ClientView, key: Seq<char>) -> Result<u128, Seq<char>> {
    if key == "id"@ {
        Ok(c.id as u128)
    } else if key == "last_request_from_client"@ {
        Ok(c.last_request_from_client)
    } else {
        Err("Bad key requested : \""@ + key + "\""@)
    }
}

/// Something the broker asks its caller to do.
pub enum Action {
    /// Send `bytes` to `to`.
    Send { to: PeerAddr, bytes: Vec<u8> },
    /// Start the heartbeat checker of a new client.
    StartManagers { client_id: u64, addr: PeerAddr },
    /// Stop handling datagrams.
    Stop,
}

/// Mathematical view of an action.
pub enum ActionView {
    Send { to: PeerAddr, bytes: Seq<u8> },
    StartManagers { client_id: u64, addr: PeerAddr },
    Stop,
}

impl View for Action {
    type V = ActionView;

    open spec fn view(&self) -> ActionView {
        match self {
            Action::Send { to, bytes } => ActionView::Send { to: *to, bytes: bytes@ },
            Action::StartManagers { client_id, addr } => ActionView::StartManagers {
                client_id: *client_id,
                addr: *addr,
            },
            Action::Stop => ActionView::Stop,
        }
    }
}

/// The views of a list of actions.
pub open spec fn actions_view(v: Seq<Action>) -> Seq<ActionView> {
    v.map_values(|a: Action| a@)
}

/// The shared state of the broker.
pub struct Broker {
    pub running: bool,
    pub clients: HashMap<u64, Client>,
    pub addresses: HashMap<u64, PeerAddr>,
    pub pings: HashMap<u8, u128>,
    pub topics_subscribers: HashMap<u64, HashSet<u64>>,
    pub objects_topics: HashMap<u64, HashSet<u64>>,
    pub object_subscribers: HashMap<u64, HashSet<u64>>,
}

/// Mathematical view of the broker state.
pub struct BrokerView {
    pub running: bool,
    pub clients: Map<u64, ClientView>,
    pub addresses: Map<u64, PeerAddr>,
    pub pings: Map<u8, u128>,
    pub topics_subscribers: Map<u64, Set<u64>>,
    pub objects_topics: Map<u64, Set<u64>>,
    pub object_subscribers: Map<u64, Set<u64>>,
}

/// The views of a map of clients.
pub open spec fn clients_view(m: Map<u64, Client>) -> Map<u64, ClientView> {
    m.map_values(|c: Client| c@)
}

impl View for Broker {
    type V = BrokerView;

    open spec fn view(&self) -> BrokerView {
        BrokerView {
            running: self.running,
            clients: clients_view(self.clients@),
            addresses: self.addresses@,
            pings: self.pings@,
            topics_subscribers: sets_view(self.topics_subscribers@),
            objects_topics: sets_view(self.objects_topics@),
            object_subscribers: sets_view(self.object_subscribers@),
        }
    }
}

/// `after` is `before` where the client `id`, if connected, has its last
/// server request time set to `now`.
pub open spec fn stamped(before: Map<u64, ClientView>, id: u64, now: u128) -> Map<u64, ClientView> {
    if before.contains_key(id) {
        before.insert(id, ClientView { last_request_from_server: now, ..before[id] })
    } else {
        before
    }
}

/// `m` with `v` removed from every set.
pub open spec fn without_member(m: Map<u64, Set<u64>>, v: u64) -> Map<u64, Set<u64>> {
    m.map_values(|s: Set<u64>| s.remove(v))
}

impl Broker {
    /// An empty broker, not yet running.
    pub fn new() -> (r: Broker)
        ensures
            r@ == (BrokerView {
                running: false,
                clients: Map::empty(),
                addresses: Map::empty(),
                pings: Map::empty(),
                topics_subscribers: Map::empty(),
                objects_topics: Map::empty(),
                object_subscribers: Map::empty(),
            }),
    {
        let r = Broker {
            running: false,
            clients: HashMap::new(),
            addresses: HashMap::new(),
            pings: HashMap::new(),
            topics_subscribers: HashMap::new(),
            objects_topics: HashMap::new(),
            object_subscribers: HashMap::new(),
        };
        assert(r@.clients =~= Map::empty());
        assert(r@.topics_subscribers =~= Map::empty());
        assert(r@.objects_topics =~= Map::empty());
        assert(r@.object_subscribers =~= Map::empty());
        r
    }

    /// Sets whether the broker is running.
    pub fn update_server_status(&mut self, new_status: bool)
        ensures
            final(self)@ == (BrokerView { running: new_status, ..old(self)@ }),
    {
        self.running = new_status;
    }

    /// The client `client_id` is connected.
    pub fn is_online(&self, client_id: u64) -> (r: bool)
        ensures
            r == self@.clients.contains_key(client_id),
    {
        self.clients.contains_key(&client_id)
    }

    /// Queues `bytes` for `to` and records `now` as the last time the broker
    /// sent a request to the client `owner`.
    pub fn send_datagram(&mut self, out: &mut Vec<Action>, to: PeerAddr, bytes: Vec<u8>, owner: u64, now: u128)
        ensures
            final(self)@ == (BrokerView { clients: stamped(old(self)@.clients, owner, now), ..old(self)@ }),
            actions_view(final(out)@) == actions_view(old(out)@).push(ActionView::Send { to, bytes: bytes@ }),
    {
        out.push(Action::Send { to, bytes });
        if let Some(mut c) = self.clients.remove(&owner) {
            c.save_server_request_timestamp(now);
            self.clients.insert(owner, c);
        }
        assert(self@.clients =~= stamped(old(self)@.clients, owner, now));
        assert(actions_view(out@) =~= actions_view(old(out)@).push(ActionView::Send { to, bytes: bytes@ }));
    }
}

/// `m` where `v` is added to the set of every key in `keys`, sets being
/// created as needed.
pub open spec fn add_to_all(m: Map<u64, Set<u64>>, keys: Set<u64>, v: u64) -> Map<u64, Set<u64>> {
    Map::new(
        |k: u64| m.contains_key(k) || keys.contains(k),
        |k: u64|
            if keys.contains(k) {
                set_or_empty(m, k).insert(v)
            } else {
                m[k]
            },
    )
}

/// `m` where `v` is removed from the set of every key in `keys` that has
/// a set.
pub open spec fn remove_from_all(m: Map<u64, Set<u64>>, keys: Set<u64>, v: u64) -> Map<
    u64,
    Set<u64>,
> {
    Map::new(
        |k: u64| m.contains_key(k),
        |k: u64|
            if keys.contains(k) {
                m[k].remove(v)
            } else {
                m[k]
            },
    )
}

/// `clients` where the client `id`, if connected, has `f` applied.
pub open spec fn client_topics_plus(c: ClientView, keys: Set<u64>) -> ClientView {
    ClientView { topics: c.topics.union(keys), ..c }
}

/// `c` without the topics in `keys`.
pub open spec fn client_topics_minus(c: ClientView, keys: Set<u64>) -> ClientView {
    ClientView { topics: c.topics.difference(keys), ..c }
}

/// `m` where the client `id`, if present, becomes `f(m[id])`.
pub open spec fn update_client(
    m: Map<u64, ClientView>,
    id: u64,
    c: ClientView,
) -> Map<u64, ClientView> {
    if m.contains_key(id) {
        m.insert(id, c)
    } else {
        m
    }
}

/// `s` where the client `id`, if connected, subscribes to the topics
/// `keys`, in its own list and in the topics' subscriber sets.
pub open spec fn with_topics(s: BrokerView, id: u64, keys: Set<u64>) -> BrokerView {
    if s.clients.contains_key(id) {
        BrokerView {
            clients: s.clients.insert(id, client_topics_plus(s.clients[id], keys)),
            topics_subscribers: add_to_all(s.topics_subscribers, keys, id),
            ..s
        }
    } else {
        s
    }
}

/// `s` where the client `id`, if connected, unsubscribes from the topics
/// `keys`, in its own list and in the subscriber sets that exist.
pub open spec fn without_topics(s: BrokerView, id: u64, keys: Set<u64>) -> BrokerView {
    if s.clients.contains_key(id) {
        BrokerView {
            clients: s.clients.insert(id, client_topics_minus(s.clients[id], keys)),
            topics_subscribers: remove_from_all(s.topics_subscribers, keys, id),
            ..s
        }
    } else {
        s
    }
}

/// Subscribing to or unsubscribing from no topic changes nothing.
pub proof fn lemma_no_topics(s: BrokerView, id: u64)
    ensures
        with_topics(s, id, Set::empty()) == s,
        without_topics(s, id, Set::empty()) == s,
{
    if s.clients.contains_key(id) {
        let c = s.clients[id];
        assert(client_topics_plus(c, Set::empty()) == c) by {
            assert(c.topics.union(Set::empty()) =~= c.topics);
        }
        assert(client_topics_minus(c, Set::empty()) == c) by {
            assert(c.topics.difference(Set::empty()) =~= c.topics);
        }
        assert(s.clients.insert(id, c) =~= s.clients);
        assert(add_to_all(s.topics_subscribers, Set::empty(), id) =~= s.topics_subscribers);
        assert(remove_from_all(s.topics_subscribers, Set::empty(), id) =~= s.topics_subscribers);
    }
}

/// One more key added to `add_to_all`.
pub proof fn lemma_add_to_all_step(m: Map<u64, Set<u64>>, keys: Set<u64>, t: u64, v: u64)
    ensures
        ({
            let a = add_to_all(m, keys, v);
            a.insert(t, set_or_empty(a, t).insert(v))
        }) == add_to_all(m, keys.insert(t), v),
{
    let a = add_to_all(m, keys, v);
    assert(set_or_empty(a, t).insert(v) =~= set_or_empty(m, t).insert(v));
    let l = a.insert(t, set_or_empty(a, t).insert(v));
    let r = add_to_all(m, keys.insert(t), v);
    assert forall|k: u64| #[trigger] l.contains_key(k) implies l[k] == r[k] by {
        if k != t && keys.contains(k) {
            assert(l[k] == a[k]);
        }
    }
    assert(l =~= r);
}

/// One more key added to `remove_from_all`.
pub proof fn lemma_remove_from_all_step(m: Map<u64, Set<u64>>, keys: Set<u64>, t: u64, v: u64)
    ensures
        ({
            let a = remove_from_all(m, keys, v);
            if a.contains_key(t) {
                a.insert(t, a[t].remove(v))
            } else {
                a
            }
        }) == remove_from_all(m, keys.insert(t), v),
{
    let a = remove_from_all(m, keys, v);
    if a.contains_key(t) {
        assert(a[t].remove(v) =~= m[t].remove(v));
        let l = a.insert(t, a[t].remove(v));
        let r = remove_from_all(m, keys.insert(t), v);
        assert(l =~= r);
    } else {
        assert(a =~= remove_from_all(m, keys.insert(t), v));
    }
}

impl Broker {
    /// Subscribes the connected client `client_id` to every topic of
    /// `topic_ids`, in its own list and in the topics' subscriber sets;
    /// nothing changes when the client is not connected.
    pub fn add_subscribed_topics(&mut self, client_id: u64, topic_ids: &Vec<u64>)
        ensures
            final(self)@ == with_topics(old(self)@, client_id, topic_ids@.to_set()),
    {
        broadcast use vstd::seq_lib::group_seq_properties;

        let mut c = match self.clients.remove(&client_id) {
            Some(c) => c,
            None => {
                assert(self.clients@ =~= old(self).clients@);
                assert(self@.clients =~= old(self)@.clients);
                return ;
            },
        };
        let ghost c0 = c@;
        let mut i: usize = 0;
        assert(c0.topics.union(topic_ids@.take(0).to_set()) =~= c0.topics);
        assert(sets_view(self.topics_subscribers@) =~= add_to_all(
            old(self)@.topics_subscribers,
            topic_ids@.take(0).to_set(),
            client_id,
        ));
        while i < topic_ids.len()
            invariant
                i <= topic_ids@.len(),
                c@ == client_topics_plus(c0, topic_ids@.take(i as int).to_set()),
                sets_view(self.topics_subscribers@) == add_to_all(
                    old(self)@.topics_subscribers,
                    topic_ids@.take(i as int).to_set(),
                    client_id,
                ),
                self.clients@ == old(self).clients@.remove(client_id),
                self.running == old(self).running,
                self.addresses@ == old(self).addresses@,
                self.pings@ == old(self).pings@,
                self.objects_topics@ == old(self).objects_topics@,
                self.object_subscribers@ == old(self).object_subscribers@,
            decreases topic_ids.len() - i,
        {
            let t = topic_ids[i];
            let ghost s0 = topic_ids@.take(i as int).to_set();
            c.topics.insert(t);
            set_map_add(&mut self.topics_subscribers, t, client_id);
            proof {
                lemma_add_to_all_step(old(self)@.topics_subscribers, s0, t, client_id);
            }
            assert(topic_ids@.take(i + 1) =~= topic_ids@.take(i as int).push(t));
            proof {
                topic_ids@.take(i as int).lemma_push_to_set_commute(t);
            }
            i = i + 1;
            assert(c@.topics =~= c0.topics.union(topic_ids@.take(i as int).to_set()));
            assert(sets_view(self.topics_subscribers@) =~= add_to_all(
                old(self)@.topics_subscribers,
                topic_ids@.take(i as int).to_set(),
                client_id,
            ));
        }
        assert(topic_ids@.take(topic_ids@.len() as int) =~= topic_ids@);
        self.clients.insert(client_id, c);
        assert(self@.clients =~= old(self)@.clients.insert(
            client_id,
            client_topics_plus(old(self)@.clients[client_id], topic_ids@.to_set()),
        ));
    }

    /// Unsubscribes the connected client `client_id` from every topic of
    /// `topic_ids`, in its own list and in the subscriber sets that
    /// exist; nothing changes when the client is not connected.
    pub fn remove_subscribed_topics(&mut self, client_id: u64, topic_ids: &Vec<u64>)
        ensures
            final(self)@ == without_topics(old(self)@, client_id, topic_ids@.to_set()),
    {
        broadcast use vstd::seq_lib::group_seq_properties;

        let mut c = match self.clients.remove(&client_id) {
            Some(c) => c,
            None => {
                assert(self.clients@ =~= old(self).clients@);
                assert(self@.clients =~= old(self)@.clients);
                return ;
            },
        };
        let ghost c0 = c@;
        let mut i: usize = 0;
        assert(c0.topics.difference(topic_ids@.take(0).to_set()) =~= c0.topics);
        assert(sets_view(self.topics_subscribers@) =~= remove_from_all(
            old(self)@.topics_subscribers,
            topic_ids@.take(0).to_set(),
            client_id,
        ));
        while i < topic_ids.len()
            invariant
                i <= topic_ids@.len(),
                c@ == client_topics_minus(c0, topic_ids@.take(i as int).to_set()),
                sets_view(self.topics_subscribers@) == remove_from_all(
                    old(self)@.topics_subscribers,
                    topic_ids@.take(i as int).to_set(),
                    client_id,
                ),
                self.clients@ == old(self).clients@.remove(client_id),
                self.running == old(self).running,
                self.addresses@ == old(self).addresses@,
                self.pings@ == old(self).pings@,
                self.objects_topics@ == old(self).objects_topics@,
                self.object_subscribers@ == old(self).object_subscribers@,
            decreases topic_ids.len() - i,
        {
            let t = topic_ids[i];
            let ghost s0 = topic_ids@.take(i as int).to_set();
            c.topics.remove(&t);
            set_map_remove_member(&mut self.topics_subscribers, t, client_id);
            proof {
                lemma_remove_from_all_step(old(self)@.topics_subscribers, s0, t, client_id);
            }
            assert(topic_ids@.take(i + 1) =~= topic_ids@.take(i as int).push(t));
            proof {
                topic_ids@.take(i as int).lemma_push_to_set_commute(t);
            }
            i = i + 1;
            assert(c@.topics =~= c0.topics.difference(topic_ids@.take(i as int).to_set()));
            assert(sets_view(self.topics_subscribers@) =~= remove_from_all(
                old(self)@.topics_subscribers,
                topic_ids@.take(i as int).to_set(),
                client_id,
            ));
        }
        assert(topic_ids@.take(topic_ids@.len() as int) =~= topic_ids@);
        self.clients.insert(client_id, c);
        assert(self@.clients =~= old(self)@.clients.insert(
            client_id,
            client_topics_minus(old(self)@.clients[client_id], topic_ids@.to_set()),
        ));
    }

    /// Adds `object_id` to the objects of the connected client `client_id`.
    pub fn add_subscribed_object(&mut self, client_id: u64, object_id: u64)
        ensures
            final(self)@ == (BrokerView {
                clients: update_client(
                    old(self)@.clients,
                    client_id,
                    ClientView {
                        objects: old(self)@.clients[client_id].objects.insert(object_id),
                        ..old(self)@.clients[client_id]
                    },
                ),
                ..old(self)@
            }),
    {
        if let Some(mut c) = self.clients.remove(&client_id) {
            c.objects.insert(object_id);
            self.clients.insert(client_id, c);
        }
        assert(self@.clients =~= update_client(
            old(self)@.clients,
            client_id,
            ClientView {
                objects: old(self)@.clients[client_id].objects.insert(object_id),
                ..old(self)@.clients[client_id]
            },
        ));
    }

    /// Removes `object_id` from the objects of the connected client
    /// `client_id`.
    pub fn remove_subscribed_object(&mut self, client_id: u64, object_id: u64)
        ensures
            final(self)@ == (BrokerView {
                clients: update_client(
                    old(self)@.clients,
                    client_id,
                    ClientView {
                        objects: old(self)@.clients[client_id].objects.remove(object_id),
                        ..old(self)@.clients[client_id]
                    },
                ),
                ..old(self)@
            }),
    {
        if let Some(mut c) = self.clients.remove(&client_id) {
            c.objects.remove(&object_id);
            self.clients.insert(client_id, c);
        }
        assert(self@.clients =~= update_client(
            old(self)@.clients,
            client_id,
            ClientView {
                objects: old(self)@.clients[client_id].objects.remove(object_id),
                ..old(self)@.clients[client_id]
            },
        ));
    }
}

/// Text of the error given when an object has no topic set.
pub open spec fn object_not_found(object_id: u64) -> Seq<u8> {
    "Can't find the object id ".spec_bytes() + decimal(object_id as nat)
        + " in OBJECTS_TOPICS_REF.".spec_bytes()
}

/// Builds `object_not_found(object_id)`.
pub fn object_not_found_message(object_id: u64) -> (r: Vec<u8>)
    ensures
        r@ == object_not_found(object_id),
{
    let mut r: Vec<u8> = Vec::new();
    extend_bytes(&mut r, "Can't find the object id ".as_bytes());
    push_decimal(&mut r, object_id);
    extend_bytes(&mut r, " in OBJECTS_TOPICS_REF.".as_bytes());
    assert(r@ =~= object_not_found(object_id));
    r
}

/// Removes `v` from the set under each key of `keys` that has a set.
pub fn remove_member_from_keys(m: &mut HashMap<u64, HashSet<u64>>, keys: &Vec<u64>, v: u64)
    ensures
        sets_view(final(m)@) == remove_from_all(sets_view(old(m)@), keys@.to_set(), v),
{
    broadcast use vstd::seq_lib::group_seq_properties;

    let mut i: usize = 0;
    assert(sets_view(m@) =~= remove_from_all(sets_view(old(m)@), keys@.take(0).to_set(), v));
    while i < keys.len()
        invariant
            i <= keys@.len(),
            sets_view(m@) == remove_from_all(sets_view(old(m)@), keys@.take(i as int).to_set(), v),
        decreases keys.len() - i,
    {
        let t = keys[i];
        let ghost s0 = keys@.take(i as int).to_set();
        set_map_remove_member(m, t, v);
        proof {
            lemma_remove_from_all_step(sets_view(old(m)@), s0, t, v);
        }
        assert(keys@.take(i + 1) =~= keys@.take(i as int).push(t));
        proof {
            keys@.take(i as int).lemma_push_to_set_commute(t);
        }
        i = i + 1;
    }
    assert(keys@.take(keys@.len() as int) =~= keys@);
}

/// The state after the client `commands_to` is told to subscribe to the
/// topics of `object_id` and to the object itself, and `client_id` is
/// added to the object's subscribers.
pub open spec fn subscribed_to_object(
    s: BrokerView,
    object_id: u64,
    client_id: u64,
    commands_to: u64,
) -> BrokerView {
    let topics = s.objects_topics[object_id];
    let clients = if s.clients.contains_key(commands_to) {
        s.clients.insert(
            commands_to,
            ClientView {
                topics: s.clients[commands_to].topics.union(topics),
                objects: s.clients[commands_to].objects.insert(object_id),
                ..s.clients[commands_to]
            },
        )
    } else {
        s.clients
    };
    BrokerView {
        clients,
        topics_subscribers: if s.clients.contains_key(commands_to) {
            add_to_all(s.topics_subscribers, topics, commands_to)
        } else {
            s.topics_subscribers
        },
        object_subscribers: add_to_all(s.object_subscribers, set![object_id], client_id),
        ..s
    }
}

/// The state after the client `commands_to` is told to drop the topics
/// of `object_id` and the object itself, and `client_id` is removed from
/// the object's subscribers.
pub open spec fn unsubscribed_from_object(
    s: BrokerView,
    object_id: u64,
    client_id: u64,
    commands_to: u64,
) -> BrokerView {
    let topics = s.objects_topics[object_id];
    let clients = if s.clients.contains_key(commands_to) {
        s.clients.insert(
            commands_to,
            ClientView {
                topics: s.clients[commands_to].topics.difference(topics),
                objects: s.clients[commands_to].objects.remove(object_id),
                ..s.clients[commands_to]
            },
        )
    } else {
        s.clients
    };
    BrokerView {
        clients,
        topics_subscribers: if s.clients.contains_key(commands_to) {
            remove_from_all(s.topics_subscribers, topics, commands_to)
        } else {
            s.topics_subscribers
        },
        object_subscribers: remove_from_all(s.object_subscribers, set![object_id], client_id),
        ..s
    }
}

/// `s` once the client `id` is forgotten everywhere: connection, address
/// and every subscriber set of topics and objects.
pub open spec fn removed_client(s: BrokerView, id: u64) -> BrokerView {
    BrokerView {
        clients: s.clients.remove(id),
        addresses: s.addresses.remove(id),
        topics_subscribers: remove_from_all(s.topics_subscribers, s.topics_subscribers.dom(), id),
        object_subscribers: remove_from_all(s.object_subscribers, s.object_subscribers.dom(), id),
        ..s
    }
}

/// `s` once the client `id`, if connected, has left the subscriber sets
/// of its topics and objects and is forgotten.
pub open spec fn disconnected(s: BrokerView, id: u64) -> BrokerView {
    if s.clients.contains_key(id) {
        BrokerView {
            clients: s.clients.remove(id),
            addresses: s.addresses.remove(id),
            topics_subscribers: remove_from_all(s.topics_subscribers, s.clients[id].topics, id),
            object_subscribers: remove_from_all(s.object_subscribers, s.clients[id].objects, id),
            ..s
        }
    } else {
        s
    }
}

/// `s` once the connected client `id` has answered at `now` the PING
/// `ping_id`: its ping becomes half the round trip and the reference is
/// freed. An unknown reference or an unconnected client changes nothing.
pub open spec fn ponged(s: BrokerView, id: u64, ping_id: u8, now: u128) -> BrokerView {
    if s.clients.contains_key(id) && s.pings.contains_key(ping_id) {
        BrokerView {
            pings: s.pings.remove(ping_id),
            clients: s.clients.insert(
                id,
                ClientView { ping: ((now - s.pings[ping_id]) / 2) as u128, ..s.clients[id] },
            ),
            ..s
        }
    } else {
        s
    }
}

impl Broker {
    /// Subscribes `client_id` to the object `object_id`: the client
    /// `commands_to` gets the object and its topics, and `client_id`
    /// joins the object's subscribers. Fails, changing nothing, when the
    /// object has no topic set.
    pub fn subscribe_client_to_object(&mut self, object_id: u64, client_id: u64, commands_to: u64) -> (r: Result<(), Vec<u8>>)
        ensures
            !old(self)@.objects_topics.contains_key(object_id) ==> (r matches Err(e) && e@
                == object_not_found(object_id) && final(self)@ == old(self)@),
            old(self)@.objects_topics.contains_key(object_id) ==> r is Ok && final(self)@
                == subscribed_to_object(old(self)@, object_id, client_id, commands_to),
    {
        let topics = match self.objects_topics.get(&object_id) {
            None => {
                return Err(object_not_found_message(object_id));
            },
            Some(topics) => set_members(topics),
        };
        let ghost s1 = self@;
        self.add_subscribed_topics(commands_to, &topics);
        let ghost s2 = self@;
        self.add_subscribed_object(commands_to, object_id);
        set_map_add(&mut self.object_subscribers, object_id, client_id);
        proof {
            let t = old(self)@.objects_topics[object_id];
            assert(topics@.to_set() == t);
            let e = subscribed_to_object(old(self)@, object_id, client_id, commands_to);
            assert(sets_view(self.object_subscribers@) =~= e.object_subscribers);
            if old(self)@.clients.contains_key(commands_to) {
                assert(self@.clients =~= e.clients);
            } else {
                assert(self@.clients =~= e.clients);
            }
        }
        Ok(())
    }

    /// Unsubscribes `client_id` from the object `object_id`: the client
    /// `commands_to` drops the object and its topics, and `client_id`
    /// leaves the object's subscribers. Fails, changing nothing, when
    /// the object has no topic set.
    pub fn unsubscribe_client_to_object(&mut self, client_id: u64, object_id: u64, commands_to: u64) -> (r: Result<(), Vec<u8>>)
        ensures
            !old(self)@.objects_topics.contains_key(object_id) ==> (r matches Err(e) && e@
                == object_not_found(object_id) && final(self)@ == old(self)@),
            old(self)@.objects_topics.contains_key(object_id) ==> r is Ok && final(self)@
                == unsubscribed_from_object(old(self)@, object_id, client_id, commands_to),
    {
        let topics = match self.objects_topics.get(&object_id) {
            None => {
                return Err(object_not_found_message(object_id));
            },
            Some(topics) => set_members(topics),
        };
        self.remove_subscribed_topics(commands_to, &topics);
        self.remove_subscribed_object(commands_to, object_id);
        set_map_remove_member(&mut self.object_subscribers, object_id, client_id);
        proof {
            let e = unsubscribed_from_object(old(self)@, object_id, client_id, commands_to);
            assert(sets_view(self.object_subscribers@) =~= e.object_subscribers);
            assert(self@.clients =~= e.clients);
        }
        Ok(())
    }

    /// Records the answer of the connected client `client_id` to the PING
    /// `ping_id` received at `current_time`: its ping becomes half the
    /// round trip and the ping reference is freed. An unknown reference
    /// or an unconnected client changes nothing.
    pub fn handle_pong(&mut self, client_id: u64, ping_id: u8, current_time: u128)
        requires
            old(self)@.pings.contains_key(ping_id) ==> current_time >= old(self)@.pings[ping_id],
        ensures
            final(self)@ == ponged(old(self)@, client_id, ping_id, current_time),
    {
        if !self.clients.contains_key(&client_id) {
            return ;
        }
        let round_trip = match self.pings.get(&ping_id) {
            None => {
                return ;
            },
            Some(time_reference) => (current_time - *time_reference) / 2,
        };
        self.pings.remove(&ping_id);
        let mut c = self.clients.remove(&client_id).unwrap();
        c.ping = round_trip;
        self.clients.insert(client_id, c);
        assert(self@.clients =~= old(self)@.clients.insert(
            client_id,
            ClientView {
                ping: ((current_time - old(self)@.pings[ping_id]) / 2) as u128,
                ..old(self)@.clients[client_id]
            },
        ));
    }

    /// Disconnects the client `client_id`: it leaves the subscriber sets
    /// of its topics and objects and is forgotten. Nothing changes when it
    /// is not connected.
    pub fn handle_disconnect(&mut self, client_id: u64)
        ensures
            final(self)@ == disconnected(old(self)@, client_id),
    {
        let (topic_ids, object_ids) = match self.clients.get(&client_id) {
            None => {
                return ;
            },
            Some(c) => (set_members(&c.topics), set_members(&c.objects)),
        };
        remove_member_from_keys(&mut self.topics_subscribers, &topic_ids, client_id);
        remove_member_from_keys(&mut self.object_subscribers, &object_ids, client_id);
        self.clients.remove(&client_id);
        self.addresses.remove(&client_id);
        assert(self@.clients =~= old(self)@.clients.remove(client_id));
    }

    /// Forgets the client `client_id` everywhere: connection, address and
    /// every subscriber set of topics and objects.
    pub fn try_remove_client_from_set(&mut self, client_id: u64)
        ensures
            final(self)@ == removed_client(old(self)@, client_id),
    {
        self.clients.remove(&client_id);
        self.addresses.remove(&client_id);
        let topic_keys = map_keys(&self.topics_subscribers);
        assert(topic_keys@.to_set() =~= old(self)@.topics_subscribers.dom());
        remove_member_from_keys(&mut self.topics_subscribers, &topic_keys, client_id);
        let object_keys = map_keys(&self.object_subscribers);
        assert(object_keys@.to_set() =~= old(self)@.object_subscribers.dom());
        remove_member_from_keys(&mut self.object_subscribers, &object_keys, client_id);
        assert(self@.clients =~= old(self)@.clients.remove(client_id));
    }
}

} // verus!
