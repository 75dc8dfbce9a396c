//! The prototype's UDP server: the peers it knows and its answer to each
//! datagram.

use vstd::prelude::*;
use std::collections::HashMap;
use crate::messages::broker::{actions_view, Action, ActionView, PeerAddr};
use crate::proto::datagrams::RQ_Connect_ACK_OK;
use crate::proto::enums::{message_type_from_byte, ConnectStatus, MessageType};
use crate::proto::topic::Topic;

verus! {

broadcast use vstd::std_specs::hash::group_hash_axioms;

/// The prototype server's state: where it listens, its topics, the
/// address of each client, and its root topic.
pub struct Server {
    pub address: String,
    pub port: i16,
    pub topics: HashMap<u64, Vec<u64>>,
    pub clients: HashMap<u64, PeerAddr>,
    pub last_id: u64,
    pub root: Topic,
}

/// Kind of the datagram `b`, read from its first byte.
pub open spec fn proto_kind(b: Seq<u8>) -> MessageType {
    if b.len() > 0 {
        message_type_from_byte(b[0])
    } else {
        MessageType::UNKNOWN
    }
}

/// Some client has the address `src`, port included.
pub open spec fn has_address(clients: Map<u64, PeerAddr>, src: PeerAddr) -> bool {
    exists|k: u64| #[trigger] clients.contains_key(k) && clients[k] == src
}

/// Encoding of the CONNECT_ACK giving `id`, with a heartbeat period of 1.
pub open spec fn proto_ack_wire(id: u64) -> Seq<u8> {
    RQ_Connect_ACK_OK {
        message_type: MessageType::CONNECT_ACK,
        status: ConnectStatus::SUCCESS,
        peer_id: id,
        heartbeat_period: 1,
    }.wire()
}

impl Server {
    /// A server listening on `address` and `port`, without clients or
    /// topics; its root topic has the identifier 1.
    pub fn new(address: String, port: i16) -> (r: Server)
        ensures
            r.address@ == address@,
            r.port == port,
            r.topics@ == Map::<u64, Vec<u64>>::empty(),
            r.clients@ == Map::<u64, PeerAddr>::empty(),
            r.last_id == 0,
            r.root.id == 1,
            r.root.topics@.len() == 0,
    {
        Server {
            address,
            port,
            topics: HashMap::new(),
            root: Topic::new(1),
            clients: HashMap::new(),
            last_id: 0,
        }
    }

    /// Whether a client has the address `src`, and if so one of them.
    fn already_connected(&self, src: PeerAddr) -> (r: (bool, u64))
        ensures
            r.0 == has_address(self.clients@, src),
            r.0 ==> self.clients@.contains_key(r.1) && self.clients@[r.1] == src,
            !r.0 ==> r.1 == 0,
    {
        let keys = crate::collections::map_keys(&self.clients);
        let mut i: usize = 0;
        while i < keys.len()
            invariant
                i <= keys@.len(),
                crate::collections::lists(keys@, self.clients@.dom()),
                forall|j: int| 0 <= j < i ==> self.clients@[#[trigger] keys@[j]] != src,
            decreases keys.len() - i,
        {
            let k = keys[i];
            assert(keys@.to_set().contains(k));
            let addr = *self.clients.get(&k).unwrap();
            if addr == src {
                return (true, k);
            }
            i = i + 1;
        }
        assert forall|k: u64| #[trigger] self.clients@.contains_key(k) implies self.clients@[k] != src by {
            assert(keys@.to_set().contains(k));
        }
        (false, 0)
    }

    /// The first of the numbers `draws`, taken in order, that no client
    /// has as identifier; `None` when every one of them is taken.
    pub fn get_new_id(&self, draws: &Vec<u64>) -> (r: Option<u64>)
        ensures
            match r {
                Some(id) => exists|i: int|
                    0 <= i < draws@.len() && #[trigger] draws@[i] == id
                        && !self.clients@.contains_key(id)
                        && forall|j: int| 0 <= j < i ==> self.clients@.contains_key(#[trigger] draws@[j]),
                None => forall|j: int|
                    0 <= j < draws@.len() ==> self.clients@.contains_key(#[trigger] draws@[j]),
            },
    {
        let mut i: usize = 0;
        while i < draws.len()
            invariant
                i <= draws@.len(),
                forall|j: int| 0 <= j < i ==> self.clients@.contains_key(#[trigger] draws@[j]),
            decreases draws.len() - i,
        {
            let nb = draws[i];
            if !self.clients.contains_key(&nb) {
                return Some(nb);
            }
            i = i + 1;
        }
        None
    }

    /// Handles the datagram `buffer` from `src`; `new_id` is the
    /// identifier a new client gets, one that no client has yet. A CONNECT from an unknown address
    /// records it under `new_id` and is answered with a CONNECT_ACK; a
    /// CONNECT from a known address gets no answer; every other datagram
    /// changes nothing.
    pub fn handle_datagram(&mut self, src: PeerAddr, buffer: &[u8], new_id: u64) -> (r: Vec<Action>)
        requires
            proto_kind(buffer@) == MessageType::CONNECT ==> !old(self).clients@.contains_key(new_id),
        ensures
            proto_kind(buffer@) == MessageType::CONNECT && !has_address(old(self).clients@, src)
                ==> final(self).clients@ == old(self).clients@.insert(new_id, src) && actions_view(r@)
                == seq![ActionView::Send { to: src, bytes: proto_ack_wire(new_id) }],
            !(proto_kind(buffer@) == MessageType::CONNECT && !has_address(old(self).clients@, src))
                ==> final(self).clients@ == old(self).clients@ && r@.len() == 0,
            final(self).address@ == old(self).address@,
            final(self).port == old(self).port,
            final(self).topics@ == old(self).topics@,
            final(self).last_id == old(self).last_id,
            final(self).root == old(self).root,
    {
        let mut out: Vec<Action> = Vec::new();
        if buffer.len() == 0 || MessageType::from(buffer[0]) != MessageType::CONNECT {
            return out;
        }
        let (is_connected, _current_id) = self.already_connected(src);
        if is_connected {
            return out;
        }
        self.clients.insert(new_id, src);
        let ack = RQ_Connect_ACK_OK::new(new_id, 1);
        out.push(Action::Send { to: src, bytes: ack.as_bytes() });
        assert(actions_view(out@) =~= seq![ActionView::Send { to: src, bytes: proto_ack_wire(new_id) }]);
        out
    }
}

} // verus!
