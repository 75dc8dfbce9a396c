//! Decisions on OBJECT_REQUEST datagrams: creating, updating, deleting,
//! subscribing to and unsubscribing from objects, which are named sets of
//! topics.

use vstd::prelude::*;
use std::collections::HashSet;
use vstd::string::StringSliceAdditionalSpecFns;
use crate::bytes::{decimal, extend_bytes, le16, le64, push_decimal};
use crate::collections::{copy_set, lists, members_of, set_map_put, set_map_remove_key, set_members, set_or_empty};
use crate::messages::broker::{
    actions_view, object_not_found, removed_client, subscribed_to_object, unsubscribed_from_object, with_topics,
    without_topics, lemma_no_topics, Action, ActionView, Broker, BrokerView, PeerAddr,
};
use crate::messages::datagrams::{
    u64_at, RQ_ObjectRequest, RQ_ObjectRequestCreate_ACK, RQ_ObjectRequestDefault_ACK,
    RQ_ObjectRequest_NACK, RQ_Shutdown,
};
use crate::messages::enums::{
    message_type_to_byte, object_flags_from_byte, EndConnexionReason, MessageType, ObjectFlags,
    ObjectIdentifierType,
};
use crate::messages::manager::{sent_to, shutdown_wire};
use crate::messages::object_id::{
    broker_marked, flag_byte, generate_object_id, get_object_id_type, mark_as_broker_id, marked_id,
    object_id_type,
};

verus! {

broadcast use vstd::std_specs::hash::group_hash_axioms;

/// Encoding of the refusal, with `flags`, of a request on `object_id`
/// giving `reason`.
pub open spec fn object_nack_wire(flags: u8, object_id: u64, reason: Seq<u8>) -> Seq<u8> {
    seq![message_type_to_byte(MessageType::OBJECT_REQUEST_NACK), flags] + le64(object_id) + le16(
        reason.len() as u16,
    ) + reason
}

/// Encoding of the acknowledgement, with `flags`, of a request on
/// `object_id`.
pub open spec fn object_ack_wire(flags: u8, object_id: u64) -> Seq<u8> {
    RQ_ObjectRequestDefault_ACK { message_type: MessageType::OBJECT_REQUEST_ACK, flags, object_id }.wire()
}

/// Encoding of the acknowledgement of a creation: the identifier sent
/// and the one the broker kept.
pub open spec fn object_created_wire(old_id: u64, new_id: u64) -> Seq<u8> {
    RQ_ObjectRequestCreate_ACK {
        message_type: MessageType::OBJECT_REQUEST_ACK,
        flags: 0x81,
        old_object_id: old_id,
        final_object_id: new_id,
    }.wire()
}

/// The identifier `object_id` was made by the broker and the object has
/// a subscriber set.
pub open spec fn object_id_valid(s: BrokerView, object_id: u64) -> bool {
    object_id_type(object_id) == ObjectIdentifierType::BROKER_GENERATED
        && s.object_subscribers.contains_key(object_id)
}

/// The broker answers `bytes` to the client `id` at `to` at time `now`.
pub open spec fn answer(s: BrokerView, id: u64, to: PeerAddr, bytes: Seq<u8>, now: u128) -> (
    BrokerView,
    Seq<ActionView>,
) {
    (sent_to(s, id, now), seq![ActionView::Send { to, bytes }])
}

/// Text of the failure, seen by `id`, of the deletion of `object_id`.
pub open spec fn delete_failure_text(id: u64, object_id: u64) -> Seq<u8> {
    decimal(id as nat) + " has tried to delete object ".spec_bytes() + decimal(object_id as nat)
        + " but it failed. Error:\n".spec_bytes() + object_not_found(object_id)
}

/// What a CREATE request of the client `id` at `to` on `object_id` with
/// `topics` gives: a user identifier is taken over with the broker marker
/// unless the broker already has it, a temporary one is replaced by a
/// fresh broker identifier made from `clock_ns`, any other is refused;
/// the object is then created with its topics and the client subscribes
/// to it.
pub open spec fn create_outcome(
    s: BrokerView,
    id: u64,
    to: PeerAddr,
    object_id: u64,
    topics: Set<u64>,
    now: u128,
    clock_ns: u64,
) -> (BrokerView, Seq<ActionView>) {
    let t = object_id_type(object_id);
    if t == ObjectIdentifierType::USER_GENERATED && s.objects_topics.contains_key(
        broker_marked(object_id),
    ) {
        answer(
            s,
            id,
            to,
            object_nack_wire(
                0x01,
                object_id,
                "Invalid Object identifier sent. Already exist".spec_bytes(),
            ),
            now,
        )
    } else if t == ObjectIdentifierType::UNKNOWN || t == ObjectIdentifierType::BROKER_GENERATED {
        answer(
            s,
            id,
            to,
            object_nack_wire(0x01, object_id, "Invalid Object identifier sent. Bad format.".spec_bytes()),
            now,
        )
    } else {
        let new_id = if t == ObjectIdentifierType::USER_GENERATED {
            broker_marked(object_id)
        } else {
            marked_id(ObjectIdentifierType::BROKER_GENERATED, clock_ns)
        };
        let created = BrokerView { objects_topics: s.objects_topics.insert(new_id, topics), ..s };
        answer(
            subscribed_to_object(created, new_id, id, id),
            id,
            to,
            object_created_wire(object_id, new_id),
            now,
        )
    }
}

/// Visiting the subscribers `subs` in that order from the state `s`:
/// each visit gives a new state, the actions it asks for, and whether
/// the round goes on. The result tells whether every subscriber was
/// visited.
pub open spec fn visit_all(
    s: BrokerView,
    subs: Seq<u64>,
    step: spec_fn(BrokerView, u64) -> (BrokerView, Seq<ActionView>, bool),
) -> (BrokerView, Seq<ActionView>, bool)
    decreases subs.len(),
{
    if subs.len() == 0 {
        (s, Seq::empty(), true)
    } else {
        let (next, acts, go_on) = step(s, subs[0]);
        if go_on {
            let (f, rest, done) = visit_all(next, subs.drop_first(), step);
            (f, acts + rest, done)
        } else {
            (next, acts, false)
        }
    }
}

/// Telling the subscriber `sub` of `object_id` that it was updated: when
/// `sub` has an address, the client `id` that asked drops the topics
/// `removed`, takes the topics `added`, and `sub` gets the
/// acknowledgement. A subscriber without an address is forgotten and
/// ends the round; so does the asking client if it has gone, after a
/// SHUTDOWN for a synchronisation error is sent to the subscriber.
pub open spec fn update_step(
    s: BrokerView,
    id: u64,
    sub: u64,
    object_id: u64,
    added: Set<u64>,
    removed: Set<u64>,
    now: u128,
) -> (BrokerView, Seq<ActionView>, bool) {
    if !s.addresses.contains_key(sub) {
        (removed_client(s, sub), Seq::empty(), false)
    } else if !s.clients.contains_key(id) {
        (
            removed_client(s, id),
            seq![
                ActionView::Send {
                    to: s.addresses[sub],
                    bytes: shutdown_wire(EndConnexionReason::SYNC_ERROR),
                },
            ],
            false,
        )
    } else {
        (
            sent_to(with_topics(without_topics(s, id, removed), id, added), id, now),
            seq![ActionView::Send { to: s.addresses[sub], bytes: object_ack_wire(0x82, object_id) }],
            true,
        )
    }
}

/// What an UPDATE request of the client `id` at `to` on `object_id` with
/// `topics` gives, the subscribers being visited in the order `order`: an
/// identifier that is not valid is refused; otherwise the topics that
/// differ from those of the object are taken and dropped.
pub open spec fn update_outcome(
    s: BrokerView,
    id: u64,
    to: PeerAddr,
    object_id: u64,
    topics: Set<u64>,
    order: Seq<u64>,
    now: u128,
) -> (BrokerView, Seq<ActionView>) {
    if !object_id_valid(s, object_id) {
        answer(
            s,
            id,
            to,
            object_nack_wire(
                0x08,
                object_id,
                "Invalid Object identifier sent in a RQ_ObjectRequestUpdate. Bad format or unknown id.".spec_bytes(),
            ),
            now,
        )
    } else {
        let current = set_or_empty(s.objects_topics, object_id);
        let added = topics.difference(current);
        let removed = current.difference(topics);
        let (f, acts, _) = visit_all(
            s,
            order,
            |t: BrokerView, sub: u64| update_step(t, id, sub, object_id, added, removed, now),
        );
        (f, acts)
    }
}

/// Telling the subscriber `sub` of `object_id` that the client `id`
/// deleted it: `sub` leaves the object and the asking client drops its
/// topics; the answer goes to the asking client's address, a refusal
/// when the object has no topic set. The asking client without an
/// address is forgotten and ends the round; so is it when it has gone,
/// after a SHUTDOWN for a synchronisation error is sent to its address.
pub open spec fn delete_step(s: BrokerView, id: u64, sub: u64, object_id: u64, now: u128) -> (
    BrokerView,
    Seq<ActionView>,
    bool,
) {
    if !s.addresses.contains_key(id) {
        (removed_client(s, id), Seq::empty(), false)
    } else if !s.clients.contains_key(id) {
        (
            removed_client(s, id),
            seq![
                ActionView::Send {
                    to: s.addresses[id],
                    bytes: shutdown_wire(EndConnexionReason::SYNC_ERROR),
                },
            ],
            false,
        )
    } else if !s.objects_topics.contains_key(object_id) {
        let flags: u8 = if sub == id {
            0x04
        } else {
            0x08
        };
        (
            sent_to(s, id, now),
            seq![
                ActionView::Send {
                    to: s.addresses[id],
                    bytes: object_nack_wire(flags, object_id, delete_failure_text(id, object_id)),
                },
            ],
            true,
        )
    } else {
        let flags: u8 = if sub == id {
            0x84
        } else {
            0x88
        };
        (
            sent_to(unsubscribed_from_object(s, object_id, sub, id), id, now),
            seq![ActionView::Send { to: s.addresses[id], bytes: object_ack_wire(flags, object_id) }],
            true,
        )
    }
}

/// `s` once the object `object_id` is gone, with the subscriber sets of
/// its topics.
pub open spec fn deleted_object(s: BrokerView, object_id: u64) -> BrokerView {
    BrokerView {
        topics_subscribers: s.topics_subscribers.remove_keys(set_or_empty(s.objects_topics, object_id)),
        objects_topics: s.objects_topics.remove(object_id),
        ..s
    }
}

/// What a DELETE request of the client `id` at `to` on `object_id`
/// gives, the subscribers being visited in the order `order`: an
/// identifier that is not valid is refused; otherwise every subscriber
/// is told, and once all were, the object and its topics are removed.
pub open spec fn delete_outcome(
    s: BrokerView,
    id: u64,
    to: PeerAddr,
    object_id: u64,
    order: Seq<u64>,
    now: u128,
) -> (BrokerView, Seq<ActionView>) {
    if !object_id_valid(s, object_id) {
        answer(
            s,
            id,
            to,
            object_nack_wire(
                0x04,
                object_id,
                "Invalid Object identifier sent in a RQ_ObjectRequestDelete. Bad format or unknown id.".spec_bytes(),
            ),
            now,
        )
    } else {
        let (f, acts, done) = visit_all(
            s,
            order,
            |t: BrokerView, sub: u64| delete_step(t, id, sub, object_id, now),
        );
        (
            if done {
                deleted_object(f, object_id)
            } else {
                f
            },
            acts,
        )
    }
}

/// Builds `delete_failure_text(id, object_id)`.
fn delete_failure_message(id: u64, object_id: u64) -> (r: Vec<u8>)
    ensures
        r@ == delete_failure_text(id, object_id),
{
    let mut r: Vec<u8> = Vec::new();
    push_decimal(&mut r, id);
    extend_bytes(&mut r, " has tried to delete object ".as_bytes());
    push_decimal(&mut r, object_id);
    extend_bytes(&mut r, " but it failed. Error:\n".as_bytes());
    let err = crate::messages::broker::object_not_found_message(object_id);
    extend_bytes(&mut r, err.as_slice());
    assert(r@ =~= delete_failure_text(id, object_id));
    r
}

/// What a SUBSCRIBE request of the client `id` at `to` on `object_id`
/// gives: refused when the identifier is not valid or the object has no
/// topic set; otherwise the client subscribes to the object.
pub open spec fn subscribe_outcome(s: BrokerView, id: u64, to: PeerAddr, object_id: u64, now: u128) -> (
    BrokerView,
    Seq<ActionView>,
) {
    if !object_id_valid(s, object_id) {
        answer(
            s,
            id,
            to,
            object_nack_wire(
                0x10,
                object_id,
                "Invalid Object identifier sent in a RQ_ObjectRequestSubscribe. Bad format or unknown id.".spec_bytes(),
            ),
            now,
        )
    } else if !s.objects_topics.contains_key(object_id) {
        answer(
            s,
            id,
            to,
            object_nack_wire(
                0x10,
                object_id,
                "Failed to subscribe to the object due to broker error.".spec_bytes(),
            ),
            now,
        )
    } else {
        answer(
            subscribed_to_object(s, object_id, id, id),
            id,
            to,
            object_ack_wire(0x90, object_id),
            now,
        )
    }
}

/// What an UNSUBSCRIBE request of the client `id` at `to` on `object_id`
/// gives: refused when the identifier is not valid or the object has no
/// topic set; otherwise the client leaves the object.
pub open spec fn unsubscribe_outcome(
    s: BrokerView,
    id: u64,
    to: PeerAddr,
    object_id: u64,
    now: u128,
) -> (BrokerView, Seq<ActionView>) {
    if !object_id_valid(s, object_id) {
        answer(
            s,
            id,
            to,
            object_nack_wire(
                0x10,
                object_id,
                "Invalid Object identifier sent in a RQ_ObjectRequestUnsubscribe. Bad format or unknown id.".spec_bytes(),
            ),
            now,
        )
    } else if !s.objects_topics.contains_key(object_id) {
        answer(s, id, to, object_nack_wire(0x10, object_id, object_not_found(object_id)), now)
    } else {
        answer(
            unsubscribed_from_object(s, object_id, id, id),
            id,
            to,
            object_ack_wire(0x90, object_id),
            now,
        )
    }
}

/// Object named by an OBJECT_REQUEST datagram, or 0 when the buffer is
/// too short to hold one.
pub open spec fn object_of_buffer(b: Seq<u8>) -> u64 {
    if b.len() >= 12 {
        u64_at(b, 4)
    } else {
        0
    }
}

/// What handling the OBJECT_REQUEST datagram `b` sent by `id` at `now`
/// gives, the subscribers of its object being visited in the order
/// `order`; `clock_ns` is the time a fresh identifier is made from.
pub open spec fn object_request_outcome(
    s: BrokerView,
    id: u64,
    b: Seq<u8>,
    now: u128,
    clock_ns: u64,
    order: Seq<u64>,
) -> (BrokerView, Seq<ActionView>) {
    if !s.clients.contains_key(id) || b.len() < 12 {
        (s, Seq::empty())
    } else {
        let to = s.clients[id].socket;
        let object_id = u64_at(b, 4);
        let topics = RQ_ObjectRequest::topics_read(b);
        match object_flags_from_byte(b[3]) {
            ObjectFlags::CREATE => create_outcome(s, id, to, object_id, topics, now, clock_ns),
            ObjectFlags::UPDATE => update_outcome(s, id, to, object_id, topics, order, now),
            ObjectFlags::DELETE => delete_outcome(s, id, to, object_id, order, now),
            ObjectFlags::SUBSCRIBE => subscribe_outcome(s, id, to, object_id, now),
            ObjectFlags::UNSUBSCRIBE => unsubscribe_outcome(s, id, to, object_id, now),
            ObjectFlags::UNKNOWN => answer(
                s,
                id,
                to,
                object_nack_wire(0x00, object_id, "Invalid flag sent".spec_bytes()),
                now,
            ),
        }
    }
}

/// Handling the OBJECT_REQUEST datagram `b` sent by `id` from the state
/// `s` gives the state `t` and the actions `acts`, when the subscribers
/// of its object are visited in the order `order`.
pub open spec fn object_request_handled(
    s: BrokerView,
    id: u64,
    b: Seq<u8>,
    now: u128,
    clock_ns: u64,
    order: Seq<u64>,
    t: BrokerView,
    acts: Seq<ActionView>,
) -> bool {
    &&& lists(order, set_or_empty(s.object_subscribers, object_of_buffer(b)))
    &&& (t, acts) == object_request_outcome(s, id, b, now, clock_ns, order)
}

/// Splits the topics of an update: those of `new` not in `current`, and
/// those of `current` not in `new`.
pub fn diff_hashsets(new: &HashSet<u64>, current: &HashSet<u64>) -> (r: (Vec<u64>, Vec<u64>))
    ensures
        lists(r.0@, new@.difference(current@)),
        lists(r.1@, current@.difference(new@)),
{
    let added = only_in(new, current);
    let removed = only_in(current, new);
    (added, removed)
}

/// Lists the members of `a` that are not in `b`.
fn only_in(a: &HashSet<u64>, b: &HashSet<u64>) -> (r: Vec<u64>)
    ensures
        lists(r@, a@.difference(b@)),
{
    let members = set_members(a);
    let mut r: Vec<u64> = Vec::new();
    let mut i: usize = 0;
    while i < members.len()
        invariant
            i <= members@.len(),
            lists(members@, a@),
            r@.no_duplicates(),
            r@.to_set() == members@.take(i as int).to_set().difference(b@),
        decreases members.len() - i,
    {
        let x = members[i];
        let ghost prev = r@;
        proof {
            members@.take(i as int).lemma_push_to_set_commute(x);
            assert(members@.take(i + 1) =~= members@.take(i as int).push(x));
            assert(!members@.take(i as int).contains(x)) by {
                if members@.take(i as int).contains(x) {
                    let j = choose|j: int| 0 <= j < i && members@.take(i as int)[j] == x;
                    assert(members@[j] == members@[i as int]);
                }
            }
        }
        if !b.contains(&x) {
            r.push(x);
            proof {
                prev.lemma_push_to_set_commute(x);
                assert(!prev.contains(x)) by {
                    if prev.contains(x) {
                        assert(prev.to_set().contains(x));
                    }
                }
                assert forall|p: int, q: int| 0 <= p < q < r@.len() implies r@[p] != r@[q] by {
                    if q == r@.len() - 1 {
                        assert(prev.contains(prev[p]));
                    }
                }
            }
        }
        i = i + 1;
        assert(r@.to_set() =~= members@.take(i as int).to_set().difference(b@));
    }
    assert(members@.take(members@.len() as int) =~= members@);
    r
}

impl Broker {
    /// The object `object_id` was made by the broker and still has a
    /// subscriber set.
    pub fn is_object_id_valid(&self, object_id: u64) -> (r: bool)
        ensures
            r == object_id_valid(self@, object_id),
    {
        let existing_id = self.object_subscribers.get(&object_id).is_some();
        let t = get_object_id_type(object_id);
        let broker_made = match t {
            ObjectIdentifierType::BROKER_GENERATED => true,
            _ => false,
        };
        broker_made && existing_id
    }

    /// Handles a CREATE request of the client `client_id` at `to`.
    fn create_object(
        &mut self,
        client_id: u64,
        to: PeerAddr,
        request: RQ_ObjectRequest,
        now: u128,
        clock_ns: u64,
    ) -> (r: Vec<Action>)
        ensures
            (final(self)@, actions_view(r@)) == create_outcome(
                old(self)@,
                client_id,
                to,
                request.object_id,
                request.topics@,
                now,
                clock_ns,
            ),
    {
        let mut out: Vec<Action> = Vec::new();
        let object_id = request.object_id;
        let new_object_id: u64 = match get_object_id_type(object_id) {
            ObjectIdentifierType::USER_GENERATED => {
                let temp_id = mark_as_broker_id(object_id);
                if self.objects_topics.contains_key(&temp_id) {
                    let flag: u8 = flag_byte(vec![0, 0, 0, 0, 0, 0, 0, 1]);
                    let nack = RQ_ObjectRequest_NACK::new(
                        flag,
                        object_id,
                        "Invalid Object identifier sent. Already exist",
                    );
                    self.send_datagram(&mut out, to, nack.as_bytes(), client_id, now);
                    assert(actions_view(out@) =~= create_outcome(old(self)@, client_id, to, object_id, request.topics@, now, clock_ns).1);
                    return out;
                }
                temp_id
            },
            ObjectIdentifierType::TEMPORARY => {
                generate_object_id(ObjectIdentifierType::BROKER_GENERATED, clock_ns)
            },
            _ => {
                let flag: u8 = flag_byte(vec![0, 0, 0, 0, 0, 0, 0, 1]);
                let nack = RQ_ObjectRequest_NACK::new(
                    flag,
                    object_id,
                    "Invalid Object identifier sent. Bad format.",
                );
                self.send_datagram(&mut out, to, nack.as_bytes(), client_id, now);
                assert(actions_view(out@) =~= create_outcome(old(self)@, client_id, to, object_id, request.topics@, now, clock_ns).1);
                return out;
            },
        };
        set_map_put(&mut self.objects_topics, new_object_id, request.topics);
        match self.subscribe_client_to_object(new_object_id, client_id, client_id) {
            Ok(()) => {
                let flag: u8 = flag_byte(vec![1, 0, 0, 0, 0, 0, 0, 1]);
                let ack = RQ_ObjectRequestCreate_ACK::new(flag, object_id, new_object_id);
                self.send_datagram(&mut out, to, ack.as_bytes(), client_id, now);
            },
            Err(_) => {
                let flag: u8 = flag_byte(vec![0, 0, 0, 0, 0, 0, 0, 1]);
                let nack = RQ_ObjectRequest_NACK::new(
                    flag,
                    object_id,
                    "Failed to create the object due to broker error.",
                );
                self.send_datagram(&mut out, to, nack.as_bytes(), client_id, now);
            },
        }
        assert(actions_view(out@) =~= create_outcome(old(self)@, client_id, to, object_id, request.topics@, now, clock_ns).1);
        out
    }
    /// Tells the subscriber `sub` of `object_id` that it was updated, as
    /// `update_step` says.
    fn notify_update(
        &mut self,
        out: &mut Vec<Action>,
        client_id: u64,
        sub: u64,
        object_id: u64,
        added_topics: &Vec<u64>,
        removed_topics: &Vec<u64>,
        now: u128,
    ) -> (go_on: bool)
        ensures
            ({
                let (next, acts, g) = update_step(
                    old(self)@,
                    client_id,
                    sub,
                    object_id,
                    added_topics@.to_set(),
                    removed_topics@.to_set(),
                    now,
                );
                final(self)@ == next && actions_view(final(out)@) == actions_view(old(out)@) + acts
                    && go_on == g
            }),
    {
        let addr = match self.addresses.get(&sub) {
            None => {
                self.try_remove_client_from_set(sub);
                assert(actions_view(out@) =~= actions_view(old(out)@) + Seq::<ActionView>::empty());
                return false;
            },
            Some(a) => *a,
        };
        if !self.clients.contains_key(&client_id) {
            self.try_remove_client_from_set(client_id);
            let shutdown = RQ_Shutdown::new(EndConnexionReason::SYNC_ERROR);
            out.push(Action::Send { to: addr, bytes: shutdown.as_bytes() });
            assert(actions_view(out@) =~= actions_view(old(out)@) + seq![
                ActionView::Send { to: addr, bytes: shutdown_wire(EndConnexionReason::SYNC_ERROR) },
            ]);
            return false;
        }
        let ghost pre = self@;
        if removed_topics.len() > 0 {
            self.remove_subscribed_topics(client_id, removed_topics);
        } else {
            proof {
                assert(removed_topics@.to_set() =~= Set::<u64>::empty());
                lemma_no_topics(pre, client_id);
            }
        }
        let ghost mid = self@;
        if added_topics.len() > 0 {
            self.add_subscribed_topics(client_id, added_topics);
        } else {
            proof {
                assert(added_topics@.to_set() =~= Set::<u64>::empty());
                lemma_no_topics(mid, client_id);
            }
        }
        let flag: u8 = flag_byte(vec![1, 0, 0, 0, 0, 0, 1, 0]);
        let ack = RQ_ObjectRequestDefault_ACK::new(flag, object_id);
        self.send_datagram(out, addr, ack.as_bytes(), client_id, now);
        assert(actions_view(out@) =~= actions_view(old(out)@) + seq![
            ActionView::Send { to: addr, bytes: object_ack_wire(0x82, object_id) },
        ]);
        true
    }

    /// Handles an UPDATE request of the client `client_id` at `to`,
    /// visiting the subscribers in the order `subscribers`.
    fn update_object(
        &mut self,
        client_id: u64,
        to: PeerAddr,
        request: &RQ_ObjectRequest,
        subscribers: &Vec<u64>,
        now: u128,
    ) -> (r: Vec<Action>)
        ensures
            (final(self)@, actions_view(r@)) == update_outcome(
                old(self)@,
                client_id,
                to,
                request.object_id,
                request.topics@,
                subscribers@,
                now,
            ),
    {
        let mut out: Vec<Action> = Vec::new();
        let object_id = request.object_id;
        if !self.is_object_id_valid(object_id) {
            let flag: u8 = flag_byte(vec![0, 0, 0, 0, 1, 0, 0, 0]);
            let nack = RQ_ObjectRequest_NACK::new(
                flag,
                object_id,
                "Invalid Object identifier sent in a RQ_ObjectRequestUpdate. Bad format or unknown id.",
            );
            self.send_datagram(&mut out, to, nack.as_bytes(), client_id, now);
            assert(actions_view(out@) =~= update_outcome(old(self)@, client_id, to, object_id, request.topics@, subscribers@, now).1);
            return out;
        }
        let current_topics = match self.objects_topics.get(&object_id) {
            None => HashSet::new(),
            Some(topics) => copy_set(topics),
        };
        assert(current_topics@ == set_or_empty(old(self)@.objects_topics, object_id));
        let (added_topics, removed_topics) = diff_hashsets(&request.topics, &current_topics);
        let ghost step = |t: BrokerView, sub: u64|
            update_step(
                t,
                client_id,
                sub,
                object_id,
                added_topics@.to_set(),
                removed_topics@.to_set(),
                now,
            );
        let ghost start = self@;
        assert(actions_view(out@) =~= Seq::<ActionView>::empty());
        assert(subscribers@.skip(0) =~= subscribers@);
        let mut i: usize = 0;
        let mut go_on = true;
        while go_on && i < subscribers.len()
            invariant
                i <= subscribers@.len(),
                forall|t: BrokerView, x: u64|
                    #[trigger] step(t, x) == update_step(
                        t,
                        client_id,
                        x,
                        object_id,
                        added_topics@.to_set(),
                        removed_topics@.to_set(),
                        now,
                    ),
                go_on ==> visit_all(start, subscribers@, step) == ({
                    let (f, a, d) = visit_all(self@, subscribers@.skip(i as int), step);
                    (f, actions_view(out@) + a, d)
                }),
                !go_on ==> visit_all(start, subscribers@, step) == (self@, actions_view(out@), false),
            decreases subscribers.len() - i + (if go_on { 1int } else { 0int }),
        {
            let sub = subscribers[i];
            let ghost pre = self@;
            let ghost prev = actions_view(out@);
            assert(subscribers@.skip(i as int)[0] == sub);
            assert(subscribers@.skip(i as int).drop_first() =~= subscribers@.skip(i + 1));
            go_on = self.notify_update(
                &mut out,
                client_id,
                sub,
                object_id,
                &added_topics,
                &removed_topics,
                now,
            );
            let ghost (n, acts, g) = step(pre, sub);
            if go_on {
                proof {
                    let (f, rest, d) = visit_all(self@, subscribers@.skip(i + 1), step);
                    assert(prev + (acts + rest) =~= actions_view(out@) + rest);
                }
                i = i + 1;
            }
        }
        if go_on {
            assert(subscribers@.skip(subscribers@.len() as int) =~= Seq::<u64>::empty());
            assert(actions_view(out@) + Seq::<ActionView>::empty() =~= actions_view(out@));
        }
        out
    }
    /// Tells the subscriber `sub` of `object_id` that the client
    /// `client_id` deleted it, as `delete_step` says.
    fn notify_delete(
        &mut self,
        out: &mut Vec<Action>,
        client_id: u64,
        sub: u64,
        object_id: u64,
        now: u128,
    ) -> (go_on: bool)
        ensures
            ({
                let (next, acts, g) = delete_step(old(self)@, client_id, sub, object_id, now);
                final(self)@ == next && actions_view(final(out)@) == actions_view(old(out)@) + acts
                    && go_on == g
            }),
    {
        let addr = match self.addresses.get(&client_id) {
            None => {
                self.try_remove_client_from_set(client_id);
                assert(actions_view(out@) =~= actions_view(old(out)@) + Seq::<ActionView>::empty());
                return false;
            },
            Some(a) => *a,
        };
        if !self.clients.contains_key(&client_id) {
            self.try_remove_client_from_set(client_id);
            let shutdown = RQ_Shutdown::new(EndConnexionReason::SYNC_ERROR);
            out.push(Action::Send { to: addr, bytes: shutdown.as_bytes() });
            assert(actions_view(out@) =~= actions_view(old(out)@) + seq![
                ActionView::Send { to: addr, bytes: shutdown_wire(EndConnexionReason::SYNC_ERROR) },
            ]);
            return false;
        }
        match self.unsubscribe_client_to_object(sub, object_id, client_id) {
            Ok(()) => {
                let flag: u8 = if client_id == sub {
                    flag_byte(vec![1, 0, 0, 0, 0, 1, 0, 0])
                } else {
                    flag_byte(vec![1, 0, 0, 0, 1, 0, 0, 0])
                };
                let ack = RQ_ObjectRequestDefault_ACK::new(flag, object_id);
                self.send_datagram(out, addr, ack.as_bytes(), client_id, now);
                assert(actions_view(out@) =~= actions_view(old(out)@) + seq![
                    ActionView::Send { to: addr, bytes: object_ack_wire(flag, object_id) },
                ]);
            },
            Err(_) => {
                let flag: u8 = if client_id == sub {
                    flag_byte(vec![0, 0, 0, 0, 0, 1, 0, 0])
                } else {
                    flag_byte(vec![0, 0, 0, 0, 1, 0, 0, 0])
                };
                let reason = delete_failure_message(client_id, object_id);
                let nack = RQ_ObjectRequest_NACK {
                    message_type: MessageType::OBJECT_REQUEST_NACK,
                    flags: flag,
                    object_id,
                    reason_size: reason.len() as u16,
                    reason,
                };
                let bytes = nack.as_bytes();
                assert(bytes@ =~= object_nack_wire(flag, object_id, delete_failure_text(client_id, object_id)));
                self.send_datagram(out, addr, bytes, client_id, now);
                assert(actions_view(out@) =~= actions_view(old(out)@) + seq![
                    ActionView::Send {
                        to: addr,
                        bytes: object_nack_wire(flag, object_id, delete_failure_text(client_id, object_id)),
                    },
                ]);
            },
        }
        true
    }

    /// Removes the object `object_id` and the subscriber sets of its
    /// topics.
    fn remove_object(&mut self, object_id: u64)
        ensures
            final(self)@ == deleted_object(old(self)@, object_id),
    {
        broadcast use vstd::seq_lib::group_seq_properties;

        let keys = members_of(&self.objects_topics, object_id);
        let ghost start = self@.topics_subscribers;
        let mut i: usize = 0;
        assert(start.remove_keys(keys@.take(0).to_set()) =~= start);
        while i < keys.len()
            invariant
                i <= keys@.len(),
                self@ == (BrokerView {
                    topics_subscribers: start.remove_keys(keys@.take(i as int).to_set()),
                    ..old(self)@
                }),
            decreases keys.len() - i,
        {
            let k = keys[i];
            set_map_remove_key(&mut self.topics_subscribers, k);
            assert(keys@.take(i + 1) =~= keys@.take(i as int).push(k));
            proof {
                keys@.take(i as int).lemma_push_to_set_commute(k);
            }
            i = i + 1;
            assert(self@.topics_subscribers =~= start.remove_keys(keys@.take(i as int).to_set()));
        }
        assert(keys@.take(keys@.len() as int) =~= keys@);
        set_map_remove_key(&mut self.objects_topics, object_id);
    }

    /// Handles a DELETE request of the client `client_id` at `to`,
    /// visiting the subscribers in the order `subscribers`.
    fn delete_object(
        &mut self,
        client_id: u64,
        to: PeerAddr,
        object_id: u64,
        subscribers: &Vec<u64>,
        now: u128,
    ) -> (r: Vec<Action>)
        ensures
            (final(self)@, actions_view(r@)) == delete_outcome(
                old(self)@,
                client_id,
                to,
                object_id,
                subscribers@,
                now,
            ),
    {
        let mut out: Vec<Action> = Vec::new();
        if !self.is_object_id_valid(object_id) {
            let flag: u8 = flag_byte(vec![0, 0, 0, 0, 0, 1, 0, 0]);
            let nack = RQ_ObjectRequest_NACK::new(
                flag,
                object_id,
                "Invalid Object identifier sent in a RQ_ObjectRequestDelete. Bad format or unknown id.",
            );
            self.send_datagram(&mut out, to, nack.as_bytes(), client_id, now);
            assert(actions_view(out@) =~= delete_outcome(old(self)@, client_id, to, object_id, subscribers@, now).1);
            return out;
        }
        let ghost step = |t: BrokerView, sub: u64| delete_step(t, client_id, sub, object_id, now);
        let ghost start = self@;
        assert(actions_view(out@) =~= Seq::<ActionView>::empty());
        assert(subscribers@.skip(0) =~= subscribers@);
        let mut i: usize = 0;
        let mut go_on = true;
        while go_on && i < subscribers.len()
            invariant
                i <= subscribers@.len(),
                forall|t: BrokerView, x: u64|
                    #[trigger] step(t, x) == delete_step(t, client_id, x, object_id, now),
                go_on ==> visit_all(start, subscribers@, step) == ({
                    let (f, a, d) = visit_all(self@, subscribers@.skip(i as int), step);
                    (f, actions_view(out@) + a, d)
                }),
                !go_on ==> visit_all(start, subscribers@, step) == (self@, actions_view(out@), false),
            decreases subscribers.len() - i + (if go_on { 1int } else { 0int }),
        {
            let sub = subscribers[i];
            let ghost pre = self@;
            let ghost prev = actions_view(out@);
            assert(subscribers@.skip(i as int)[0] == sub);
            assert(subscribers@.skip(i as int).drop_first() =~= subscribers@.skip(i + 1));
            go_on = self.notify_delete(&mut out, client_id, sub, object_id, now);
            let ghost (n, acts, g) = step(pre, sub);
            if go_on {
                proof {
                    let (f, rest, d) = visit_all(self@, subscribers@.skip(i + 1), step);
                    assert(prev + (acts + rest) =~= actions_view(out@) + rest);
                }
                i = i + 1;
            }
        }
        if go_on {
            assert(subscribers@.skip(subscribers@.len() as int) =~= Seq::<u64>::empty());
            assert(actions_view(out@) + Seq::<ActionView>::empty() =~= actions_view(out@));
            self.remove_object(object_id);
        }
        out
    }
    /// Handles a SUBSCRIBE request of the client `client_id` at `to`.
    fn subscribe_object(&mut self, client_id: u64, to: PeerAddr, object_id: u64, now: u128) -> (r:
        Vec<Action>)
        ensures
            (final(self)@, actions_view(r@)) == subscribe_outcome(
                old(self)@,
                client_id,
                to,
                object_id,
                now,
            ),
    {
        let mut out: Vec<Action> = Vec::new();
        if !self.is_object_id_valid(object_id) {
            let flag: u8 = flag_byte(vec![0, 0, 0, 1, 0, 0, 0, 0]);
            let nack = RQ_ObjectRequest_NACK::new(
                flag,
                object_id,
                "Invalid Object identifier sent in a RQ_ObjectRequestSubscribe. Bad format or unknown id.",
            );
            self.send_datagram(&mut out, to, nack.as_bytes(), client_id, now);
        } else {
            match self.subscribe_client_to_object(object_id, client_id, client_id) {
                Ok(()) => {
                    let flag: u8 = flag_byte(vec![1, 0, 0, 1, 0, 0, 0, 0]);
                    let ack = RQ_ObjectRequestDefault_ACK::new(flag, object_id);
                    self.send_datagram(&mut out, to, ack.as_bytes(), client_id, now);
                },
                Err(_) => {
                    let flag: u8 = flag_byte(vec![0, 0, 0, 1, 0, 0, 0, 0]);
                    let nack = RQ_ObjectRequest_NACK::new(
                        flag,
                        object_id,
                        "Failed to subscribe to the object due to broker error.",
                    );
                    self.send_datagram(&mut out, to, nack.as_bytes(), client_id, now);
                },
            }
        }
        assert(actions_view(out@) =~= subscribe_outcome(old(self)@, client_id, to, object_id, now).1);
        out
    }

    /// Handles an UNSUBSCRIBE request of the client `client_id` at `to`.
    fn unsubscribe_object(&mut self, client_id: u64, to: PeerAddr, object_id: u64, now: u128) -> (r:
        Vec<Action>)
        ensures
            (final(self)@, actions_view(r@)) == unsubscribe_outcome(
                old(self)@,
                client_id,
                to,
                object_id,
                now,
            ),
    {
        let mut out: Vec<Action> = Vec::new();
        if !self.is_object_id_valid(object_id) {
            let flag: u8 = flag_byte(vec![0, 0, 0, 1, 0, 0, 0, 0]);
            let nack = RQ_ObjectRequest_NACK::new(
                flag,
                object_id,
                "Invalid Object identifier sent in a RQ_ObjectRequestUnsubscribe. Bad format or unknown id.",
            );
            self.send_datagram(&mut out, to, nack.as_bytes(), client_id, now);
        } else {
            match self.unsubscribe_client_to_object(client_id, object_id, client_id) {
                Ok(()) => {
                    let flag: u8 = flag_byte(vec![1, 0, 0, 1, 0, 0, 0, 0]);
                    let ack = RQ_ObjectRequestDefault_ACK::new(flag, object_id);
                    self.send_datagram(&mut out, to, ack.as_bytes(), client_id, now);
                },
                Err(err) => {
                    let flag: u8 = flag_byte(vec![0, 0, 0, 1, 0, 0, 0, 0]);
                    let nack = RQ_ObjectRequest_NACK {
                        message_type: MessageType::OBJECT_REQUEST_NACK,
                        flags: flag,
                        object_id,
                        reason_size: err.len() as u16,
                        reason: err,
                    };
                    let bytes = nack.as_bytes();
                    assert(bytes@ =~= object_nack_wire(flag, object_id, object_not_found(object_id)));
                    self.send_datagram(&mut out, to, bytes, client_id, now);
                },
            }
        }
        assert(actions_view(out@) =~= unsubscribe_outcome(old(self)@, client_id, to, object_id, now).1);
        out
    }

    /// Handles an OBJECT_REQUEST datagram sent by the connected client
    /// `client_id` at `now`, answering at its address; `clock_ns` is the
    /// time, in nanoseconds since the UNIX epoch, that a fresh object
    /// identifier is made from. The subscribers of the object are visited
    /// in the order of their set, which no contract fixes.
    pub fn handle_object_request(
        &mut self,
        client_id: u64,
        buffer: &[u8],
        now: u128,
        clock_ns: u64,
    ) -> (r: Vec<Action>)
        requires
            RQ_ObjectRequest::readable(buffer@),
        ensures
            exists|order: Seq<u64>|
                object_request_handled(
                    old(self)@,
                    client_id,
                    buffer@,
                    now,
                    clock_ns,
                    order,
                    final(self)@,
                    actions_view(r@),
                ),
    {
        let named: u64 = if buffer.len() >= 12 {
            crate::bytes::read_u64_le(buffer, 4)
        } else {
            0
        };
        let subscribers = members_of(&self.object_subscribers, named);
        let empty: Vec<Action> = Vec::new();
        assert(actions_view(empty@) =~= Seq::<ActionView>::empty());
        let to = match self.clients.get(&client_id) {
            None => {
                assert(object_request_handled(old(self)@, client_id, buffer@, now, clock_ns, subscribers@, self@, actions_view(empty@)));
                return empty;
            },
            Some(c) => c.socket,
        };
        let request = match RQ_ObjectRequest::try_from(buffer) {
            Ok(request) => request,
            Err(_) => {
                assert(object_request_handled(old(self)@, client_id, buffer@, now, clock_ns, subscribers@, self@, actions_view(empty@)));
                return empty;
            },
        };
        let object_id = request.object_id;
        let out = match request.flags {
            ObjectFlags::CREATE => self.create_object(client_id, to, request, now, clock_ns),
            ObjectFlags::UPDATE => self.update_object(client_id, to, &request, &subscribers, now),
            ObjectFlags::DELETE => self.delete_object(client_id, to, object_id, &subscribers, now),
            ObjectFlags::SUBSCRIBE => self.subscribe_object(client_id, to, object_id, now),
            ObjectFlags::UNSUBSCRIBE => self.unsubscribe_object(client_id, to, object_id, now),
            ObjectFlags::UNKNOWN => {
                let mut out: Vec<Action> = Vec::new();
                let flag: u8 = flag_byte(vec![0, 0, 0, 0, 0, 0, 0, 0]);
                let nack = RQ_ObjectRequest_NACK::new(flag, object_id, "Invalid flag sent");
                self.send_datagram(&mut out, to, nack.as_bytes(), client_id, now);
                assert(actions_view(out@) =~= seq![
                    ActionView::Send {
                        to,
                        bytes: object_nack_wire(0x00, object_id, "Invalid flag sent".spec_bytes()),
                    },
                ]);
                out
            },
        };
        assert(object_request_handled(old(self)@, client_id, buffer@, now, clock_ns, subscribers@, self@, actions_view(out@)));
        out
    }
}

} // verus!
