//! What each engine callback enqueues. A callback does no work of its own:
//! it turns the event into a command for the coordinator's queue, or drops
//! it.

use vstd::prelude::*;
use crate::command::PeerChanCommand;
use crate::peer::RemoteTrack;

verus! {

/// The engine's view of a connection's life, as the state-change callback
/// reports it.
#[derive(Debug, Clone, Copy, PartialEq, Eq, Structural)]
pub enum PeerConnectionState {
    New,
    Connecting,
    Connected,
    Disconnected,
    Failed,
    Closed,
}

/// The engine gathered a local ICE candidate (already serialized), or
/// reported the end of gathering as `None`: the candidate is forwarded to
/// the peer's client, the end-of-gathering sentinel is dropped.
pub fn ice_candidate_event(uuid: String, candidate: Option<String>) -> (c: Option<
    PeerChanCommand,
>)
    ensures
        candidate matches Some(s) ==> (c matches Some(PeerChanCommand::SendIceCandidate {
            uuid: u,
            candidate: cc,
        }) && u@ == uuid@ && cc@ == s@),
        candidate is None ==> c is None,
{
    match candidate {
        Some(s) => Some(PeerChanCommand::SendIceCandidate { uuid, candidate: s }),
        None => None,
    }
}

/// The engine asked for renegotiation: enqueue a fresh offer for this peer.
pub fn negotiation_needed_event(uuid: String) -> (c: PeerChanCommand)
    ensures
        c matches PeerChanCommand::SendOffer { uuid: u } && u@ == uuid@,
{
    PeerChanCommand::SendOffer { uuid }
}

/// A new remote track appeared on this peer's connection: enqueue its
/// fan-out.
pub fn track_event(uuid: String, track: RemoteTrack) -> (c: PeerChanCommand)
    ensures
        c matches PeerChanCommand::OnTrack { uuid: u, track: t } && u@ == uuid@ && t == track,
{
    PeerChanCommand::OnTrack { uuid, track }
}

/// The connection changed state. A terminal state — disconnected, failed or
/// closed — removes the peer from the table; any other state is only
/// logged.
pub fn connection_state_event(uuid: String, state: PeerConnectionState) -> (c: Option<
    PeerChanCommand,
>)
    ensures
        (state is Disconnected || state is Failed || state is Closed) ==> (c matches Some(
            PeerChanCommand::PeerLeave { uuid: u },
        ) && u@ == uuid@),
        !(state is Disconnected || state is Failed || state is Closed) ==> c is None,
{
    match state {
        PeerConnectionState::Disconnected | PeerConnectionState::Failed
            | PeerConnectionState::Closed => Some(PeerChanCommand::PeerLeave { uuid }),
        _ => None,
    }
}

} // verus!
