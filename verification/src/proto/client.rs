//! The prototype's client: what it reads of the broker's answer to its
//! CONNECT, what it sends to test a topic, and its answer to what the
//! server sends.

use vstd::prelude::*;
use vstd::string::StringSliceAdditionalSpecFns;
use crate::messages::datagrams::{u16_at, u64_at};
use crate::proto::datagrams::{connect_response_peer_id, RQ_Ping, RQ_Pong, RQ_TopicRequest};
use crate::proto::enums::{
    connect_status_from_byte, message_type_from_byte, message_type_to_byte, ConnectStatus,
    MessageType, TopicsAction,
};
use crate::proto::topic::{name_hash, topic_name_hash};

verus! {

/// What the answer to a CONNECT says.
pub enum ConnectAnswer {
    /// The broker accepted the client under this identifier.
    Accepted(u64),
    /// The broker refused the client, giving this reason.
    Refused(Vec<u8>),
    /// A refusal whose reason runs past the end of the datagram.
    ReasonCut,
    /// An acknowledgement whose status is unknown.
    UnknownStatus,
    /// Not an acknowledgement of a CONNECT.
    NotAnAck,
}

/// A refusal holds its whole reason: `size` bytes from offset 5, the size
/// being read at offset 2.
pub open spec fn refusal_readable(b: Seq<u8>) -> bool {
    b.len() >= 4 && 5 + u16_at(b, 2) <= b.len()
}

/// Reads the answer `buffer` to a CONNECT: a successful acknowledgement
/// gives the identifier at offset 2; a refusal gives its reason, unless
/// the reason runs past the end of the datagram.
pub fn read_connect_answer(buffer: &[u8]) -> (r: ConnectAnswer)
    requires
        buffer@.len() >= 1,
        message_type_from_byte(buffer@[0]) == MessageType::CONNECT_ACK ==> buffer@.len() >= 2,
        message_type_from_byte(buffer@[0]) == MessageType::CONNECT_ACK && connect_status_from_byte(
            buffer@[1],
        ) == ConnectStatus::SUCCESS ==> buffer@.len() >= 10,
    ensures
        message_type_from_byte(buffer@[0]) != MessageType::CONNECT_ACK ==> r is NotAnAck,
        message_type_from_byte(buffer@[0]) == MessageType::CONNECT_ACK ==> match connect_status_from_byte(buffer@[1]) {
            ConnectStatus::SUCCESS => r == ConnectAnswer::Accepted(u64_at(buffer@, 2)),
            ConnectStatus::FAILURE => if refusal_readable(buffer@) {
                r matches ConnectAnswer::Refused(reason) && reason@ == buffer@.subrange(
                    5,
                    5 + u16_at(buffer@, 2),
                )
            } else {
                r is ReasonCut
            },
            ConnectStatus::UNKNOWN => r is UnknownStatus,
        },
{
    if MessageType::from(buffer[0]) != MessageType::CONNECT_ACK {
        return ConnectAnswer::NotAnAck;
    }
    match ConnectStatus::from(buffer[1]) {
        ConnectStatus::SUCCESS => ConnectAnswer::Accepted(connect_response_peer_id(buffer)),
        ConnectStatus::FAILURE => {
            if buffer.len() < 4 {
                return ConnectAnswer::ReasonCut;
            }
            let size = crate::bytes::read_u16_le(buffer, 2);
            let index: usize = 5 + size as usize;
            if index > buffer.len() {
                return ConnectAnswer::ReasonCut;
            }
            ConnectAnswer::Refused(crate::bytes::copy_range(buffer, 5, index))
        },
        ConnectStatus::UNKNOWN => ConnectAnswer::UnknownStatus,
    }
}

/// Encoding of the SUBSCRIBE request on the topic named `name`.
pub open spec fn subscribe_wire(name: Seq<u8>) -> Seq<u8> {
    RQ_TopicRequest {
        message_type: MessageType::TOPIC_REQUEST,
        action: TopicsAction::SUBSCRIBE,
        topic_id: name_hash(name),
    }.wire()
}

/// The SUBSCRIBE request that tests the broker: on the topic whose
/// identifier is the hash of the name `/home/topix/xd`.
pub fn topic_test_request() -> (r: Vec<u8>)
    ensures
        r@ == subscribe_wire("/home/topix/xd".spec_bytes()),
{
    let name = "/home/topix/xd".as_bytes();
    let bytes = crate::bytes::copy_range(name, 0, name.len());
    assert(bytes@ =~= "/home/topix/xd".spec_bytes());
    let topic_id = topic_name_hash(&bytes);
    RQ_TopicRequest::new(TopicsAction::SUBSCRIBE, topic_id).as_bytes()
}

/// What the client answers to the datagram `b` from the server: a PING
/// gets the PONG carrying its identifier (0 when the datagram holds no
/// second byte); anything else gets no answer.
pub open spec fn server_answer(b: Seq<u8>) -> Option<Seq<u8>> {
    if b.len() > 0 && message_type_from_byte(b[0]) == MessageType::PING {
        Some(seq![message_type_to_byte(MessageType::PONG), if b.len() > 1 { b[1] } else { 0 }])
    } else {
        None
    }
}

/// Answers the datagram `buffer` received from the server, as
/// `server_answer` says.
pub fn answer_to_server(buffer: &[u8]) -> (r: Option<Vec<u8>>)
    ensures
        match r {
            Some(bytes) => server_answer(buffer@) == Some(bytes@),
            None => server_answer(buffer@) is None,
        },
{
    if buffer.len() == 0 || MessageType::from(buffer[0]) != MessageType::PING {
        return None;
    }
    let ping_id = if buffer.len() > 1 {
        buffer[1]
    } else {
        0
    };
    let pong: RQ_Ping = RQ_Pong::new(ping_id);
    Some(pong.as_bytes())
}

} // verus!
