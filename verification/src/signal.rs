//! The signaling envelope and its translation into coordinator commands.
//!
//! Every message on a signaling connection is a `SocketMessage` record. The
//! intake task translates inbound records into commands with
//! [`command_of_message`]; the coordinator builds outbound records with the
//! `*_message` constructors, echoing the peer's own identifier.

use vstd::prelude::*;
use vstd::string::*;
use crate::command::PeerChanCommand;

verus! {

/// The envelope for all signaling traffic: an event tag, an opaque payload
/// whose shape depends on the event, and the peer's identifier.
#[derive(Debug, Clone)]
pub struct SocketMessage {
    pub event: String,
    pub data: String,
    pub uuid: String,
}

/// The server's reply to a client offer: `{"answer", sdp, uuid}`.
pub fn answer_message(uuid: &String, sdp: String) -> (m: SocketMessage)
    ensures
        m.event@ == "answer"@,
        m.data@ == sdp@,
        m.uuid@ == uuid@,
{
    SocketMessage { event: String::from_str("answer"), data: sdp, uuid: uuid.clone() }
}

/// A server-initiated offer on renegotiation: `{"offer", sdp, uuid}`.
pub fn offer_message(uuid: &String, sdp: String) -> (m: SocketMessage)
    ensures
        m.event@ == "offer"@,
        m.data@ == sdp@,
        m.uuid@ == uuid@,
{
    SocketMessage { event: String::from_str("offer"), data: sdp, uuid: uuid.clone() }
}

/// A local ICE candidate for the client to add: `{"candidate", data, uuid}`.
pub fn candidate_message(uuid: &String, candidate: String) -> (m: SocketMessage)
    ensures
        m.event@ == "candidate"@,
        m.data@ == candidate@,
        m.uuid@ == uuid@,
{
    SocketMessage { event: String::from_str("candidate"), data: candidate, uuid: uuid.clone() }
}

/// Translates one inbound signaling record into the coordinator command it
/// stands for: an `"offer"` becomes `ReceiveOffer` (capturing `tx`, the
/// handle of the connection's send half), an `"answer"` becomes
/// `ReceiveAnswer`, a `"candidate"` becomes `ReceiveIceCandidate`, and any
/// other event is dropped silently.
pub fn command_of_message(msg: SocketMessage, tx: u64) -> (c: Option<PeerChanCommand>)
    ensures
        msg.event@ == "offer"@ ==> (c matches Some(PeerChanCommand::ReceiveOffer {
            uuid,
            sdp,
            tx: t,
        }) && uuid@ == msg.uuid@ && sdp@ == msg.data@ && t == tx),
        msg.event@ == "answer"@ ==> (c matches Some(PeerChanCommand::ReceiveAnswer { uuid, sdp })
            && uuid@ == msg.uuid@ && sdp@ == msg.data@),
        msg.event@ == "candidate"@ ==> (c matches Some(PeerChanCommand::ReceiveIceCandidate {
            uuid,
            candidate,
        }) && uuid@ == msg.uuid@ && candidate@ == msg.data@),
        msg.event@ != "offer"@ && msg.event@ != "answer"@ && msg.event@ != "candidate"@
            ==> c is None,
{
    proof {
        reveal_strlit("offer");
        reveal_strlit("answer");
        reveal_strlit("candidate");
        // The three event tags differ already in length.
        assert("offer"@.len() == 5);
        assert("answer"@.len() == 6);
        assert("candidate"@.len() == 9);
    }
    let SocketMessage { event, data, uuid } = msg;
    if event == String::from_str("offer") {
        Some(PeerChanCommand::ReceiveOffer { uuid, sdp: data, tx })
    } else if event == String::from_str("answer") {
        Some(PeerChanCommand::ReceiveAnswer { uuid, sdp: data })
    } else if event == String::from_str("candidate") {
        Some(PeerChanCommand::ReceiveIceCandidate { uuid, candidate: data })
    } else {
        None
    }
}

} // verus!
