//! The commands the session coordinator consumes.
//!
//! Every capability that could otherwise race with the peer table — a
//! signaling connection, an engine callback, a disconnect — is reduced to one
//! of these messages, and the coordinator drains them in order.

use vstd::prelude::*;
use crate::peer::RemoteTrack;

verus! {

/// One command on the coordinator's queue. `Receive*` commands originate from
/// a client's signaling connection; `Send*` and `OnTrack` originate from
/// engine callbacks; `PeerLeave` from a closed signaling channel or a
/// terminal connection state.
#[derive(Debug, Clone)]
pub enum PeerChanCommand {
    /// A local ICE candidate (already serialized) must be forwarded to the
    /// named peer's client.
    SendIceCandidate { uuid: String, candidate: String },
    /// The client sent an ICE candidate (a JSON candidate-init record) to add
    /// to its connection.
    ReceiveIceCandidate { uuid: String, candidate: String },
    /// The client sent an SDP offer. `tx` is the handle of the signaling
    /// channel to answer on; the coordinator keeps it with the new peer.
    ReceiveOffer { uuid: String, sdp: String, tx: u64 },
    /// The client sent an SDP answer to a server-initiated offer.
    ReceiveAnswer { uuid: String, sdp: String },
    /// The engine reported that the named peer's connection needs
    /// renegotiation: create and send a fresh offer.
    SendOffer { uuid: String },
    /// A new remote track appeared on the named peer's connection.
    OnTrack { uuid: String, track: RemoteTrack },
    /// The named peer's signaling channel closed, or its connection reached a
    /// terminal state: remove it from the table.
    PeerLeave { uuid: String },
}

} // verus!
