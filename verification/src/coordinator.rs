//! The session coordinator: how each command mutates the peer table and
//! which engine actions it emits.
//!
//! Processing one command is logically atomic. The coordinator never touches
//! the engine itself; it returns [`Action`]s, and the runtime performs them
//! in order. Recoverable faults — an unknown peer, a malformed SDP or
//! candidate — drop the command and leave the table alone.

use vstd::prelude::*;
use webrtc::peer_connection::{RTCIceCandidateInit, RTCSessionDescription};
use crate::engine::{ice_candidate_parses, parse_answer, parse_ice_candidate, sdp_answer_parses};
use crate::peer::MediaKind;
use crate::signal::{candidate_message, SocketMessage};
use crate::command::PeerChanCommand;
use crate::state::{ForwardEdge, SfuState};

verus! {

/// One engine operation the runtime performs on the coordinator's behalf,
/// in the order emitted.
#[derive(Debug)]
pub enum Action {
    /// Create a peer connection for this peer from the engine factory and
    /// register its callbacks.
    NewPeerConnection { uuid: String },
    /// Set a client offer as the remote description of this peer's
    /// connection.
    SetRemoteOffer { uuid: String, desc: RTCSessionDescription },
    /// Set a client answer as the remote description of this peer's
    /// connection.
    SetRemoteAnswer { uuid: String, desc: RTCSessionDescription },
    /// Add this ICE candidate to the peer's connection.
    ApplyIceCandidate { uuid: String, candidate: RTCIceCandidateInit },
    /// Create an outbound track of this kind under id `track`, attach it to
    /// the peer's connection, and spawn its RTCP-drain worker.
    AttachOutputTrack { uuid: String, track: u64, kind: MediaKind },
    /// Spawn the forwarding worker that copies RTP from the remote track
    /// `(source_uuid, source_ssrc)` into the outbound track `dest_track`.
    SpawnForwarder {
        source_uuid: String,
        source_ssrc: u32,
        dest_uuid: String,
        dest_track: u64,
        kind: MediaKind,
    },
    /// Create an answer on the peer's connection, set it as the local
    /// description, and send it as `{"answer", sdp, uuid}` on channel `tx`.
    ProduceAnswer { uuid: String, tx: u64 },
    /// Create an offer on the peer's connection, set it as the local
    /// description, and send it as `{"offer", sdp, uuid}` on channel `tx`.
    /// If the connection is not in a state to make an offer, drop the
    /// attempt; the engine's next negotiation-needed event retries.
    ProduceOffer { uuid: String, tx: u64 },
    /// Send this signaling message on channel `tx`.
    Send { tx: u64, msg: SocketMessage },
    /// Close this peer's connection and drop its handles; its workers
    /// observe the closed pipe and exit.
    ClosePeerConnection { uuid: String },
}

impl SfuState {
    /// A client answered a server-initiated offer: hand the SDP to the
    /// engine as the peer's remote description. An unknown peer or an SDP
    /// the engine's parser rejects drops the command.
    pub fn receive_answer(&self, uuid: String, sdp: String) -> (acts: Vec<Action>)
        ensures
            self.spec_has_peer(uuid@) && sdp_answer_parses(sdp@) ==> acts@.len() == 1 && (acts@[0]
                matches Action::SetRemoteAnswer { uuid: u, .. } && u@ == uuid@),
            !(self.spec_has_peer(uuid@) && sdp_answer_parses(sdp@)) ==> acts@.len() == 0,
    {
        let mut acts: Vec<Action> = Vec::new();
        if self.find_peer(&uuid).is_some() {
            if let Some(desc) = parse_answer(sdp) {
                acts.push(Action::SetRemoteAnswer { uuid, desc });
            }
        }
        acts
    }

    /// A client sent an ICE candidate: add it to its connection, in enqueue
    /// order. An unknown peer or a record the engine's parser rejects drops
    /// the command.
    pub fn receive_ice_candidate(&self, uuid: String, candidate: String) -> (acts: Vec<Action>)
        ensures
            self.spec_has_peer(uuid@) && ice_candidate_parses(candidate@) ==> acts@.len() == 1 && (
            acts@[0] matches Action::ApplyIceCandidate { uuid: u, .. } && u@ == uuid@),
            !(self.spec_has_peer(uuid@) && ice_candidate_parses(candidate@)) ==> acts@.len() == 0,
    {
        let mut acts: Vec<Action> = Vec::new();
        if self.find_peer(&uuid).is_some() {
            if let Some(can) = parse_ice_candidate(&candidate) {
                acts.push(Action::ApplyIceCandidate { uuid, candidate: can });
            }
        }
        acts
    }

    /// The engine gathered a local ICE candidate for this peer: forward it
    /// to the peer's client as `{"candidate", data, uuid}` on the peer's own
    /// signaling channel. An unknown peer drops the command.
    pub fn send_ice_candidate(&self, uuid: String, candidate: String) -> (acts: Vec<Action>)
        ensures
            self.spec_has_peer(uuid@) ==> acts@.len() == 1 && (exists|i: int|
                0 <= i < self.peers@.len() && (#[trigger] self.peers@[i]).uuid@ == uuid@ && (
                acts@[0] matches Action::Send { tx, msg } && tx == self.peers@[i].tx && msg.event@
                    == "candidate"@ && msg.data@ == candidate@ && msg.uuid@ == uuid@)),
            !self.spec_has_peer(uuid@) ==> acts@.len() == 0,
    {
        let mut acts: Vec<Action> = Vec::new();
        if let Some(i) = self.find_peer(&uuid) {
            let tx = self.peers[i].tx;
            let msg = candidate_message(&uuid, candidate);
            acts.push(Action::Send { tx, msg });
        }
        acts
    }

    /// The engine reported that this peer's connection needs negotiation:
    /// produce a fresh offer for it. An unknown peer drops the command.
    pub fn send_offer(&self, uuid: String) -> (acts: Vec<Action>)
        ensures
            self.spec_has_peer(uuid@) ==> acts@.len() == 1 && (exists|i: int|
                0 <= i < self.peers@.len() && (#[trigger] self.peers@[i]).uuid@ == uuid@ && (
                acts@[0] matches Action::ProduceOffer { uuid: u, tx } && u@ == uuid@ && tx
                    == self.peers@[i].tx)),
            !self.spec_has_peer(uuid@) ==> acts@.len() == 0,
    {
        let mut acts: Vec<Action> = Vec::new();
        if let Some(i) = self.find_peer(&uuid) {
            let tx = self.peers[i].tx;
            acts.push(Action::ProduceOffer { uuid, tx });
        }
        acts
    }
}

/// Whether this action is the forwarding-worker spawn for exactly this edge.
pub open spec fn spawn_matches(a: Action, e: ForwardEdge) -> bool {
    a matches Action::SpawnForwarder { source_uuid, source_ssrc, dest_uuid, dest_track, kind }
        && source_uuid@ == e.source_uuid@ && source_ssrc == e.source_ssrc && dest_uuid@
        == e.dest_uuid@ && dest_track == e.dest_track && kind == e.kind
}


/// What one command does to the state and which actions it emits: the
/// conjunction of the per-command contracts. The clauses that need a
/// well-formed table (the fan-out of a new track) are stated under `wf`,
/// which [`SfuState::new`] establishes and every command preserves.
pub open spec fn step_spec(
    pre: SfuState,
    post: SfuState,
    cmd: PeerChanCommand,
    acts: Seq<Action>,
) -> bool {
    match cmd {
        PeerChanCommand::SendIceCandidate { uuid, candidate } => {
            &&& post == pre
            &&& pre.spec_has_peer(uuid@) ==> acts.len() == 1 && (exists|i: int|
                0 <= i < pre.peers@.len() && (#[trigger] pre.peers@[i]).uuid@ == uuid@ && (acts[0]
                    matches Action::Send { tx, msg } && tx == pre.peers@[i].tx && msg.event@
                    == "candidate"@ && msg.data@ == candidate@ && msg.uuid@ == uuid@))
            &&& !pre.spec_has_peer(uuid@) ==> acts.len() == 0
        },
        PeerChanCommand::ReceiveIceCandidate { uuid, candidate } => {
            &&& post == pre
            &&& pre.spec_has_peer(uuid@) && crate::engine::ice_candidate_parses(candidate@)
                ==> acts.len() == 1 && (acts[0] matches Action::ApplyIceCandidate {
                uuid: u,
                ..
            } && u@ == uuid@)
            &&& !(pre.spec_has_peer(uuid@) && crate::engine::ice_candidate_parses(candidate@))
                ==> acts.len() == 0
        },
        PeerChanCommand::ReceiveOffer { uuid, sdp, tx } => {
            &&& !crate::engine::sdp_offer_parses(sdp@) ==> post == pre && acts.len() == 0
            &&& crate::engine::sdp_offer_parses(sdp@) && pre.spec_has_peer(uuid@) ==> post == pre
                && acts.len() == 1 && (acts[0] matches Action::SetRemoteOffer { uuid: u, .. } && u@
                == uuid@)
            &&& crate::engine::sdp_offer_parses(sdp@) && !pre.spec_has_peer(uuid@)
                && pre.next_track_id <= u64::MAX - 2 ==> crate::join::join_state(
                pre,
                post,
                uuid@,
                tx,
            ) && crate::join::join_actions(pre, post, uuid@, tx, acts)
            &&& crate::engine::sdp_offer_parses(sdp@) && !pre.spec_has_peer(uuid@)
                && pre.next_track_id > u64::MAX - 2 ==> post == pre && acts.len() == 0
        },
        PeerChanCommand::ReceiveAnswer { uuid, sdp } => {
            &&& post == pre
            &&& pre.spec_has_peer(uuid@) && crate::engine::sdp_answer_parses(sdp@) ==> acts.len()
                == 1 && (acts[0] matches Action::SetRemoteAnswer { uuid: u, .. } && u@ == uuid@)
            &&& !(pre.spec_has_peer(uuid@) && crate::engine::sdp_answer_parses(sdp@)) ==> acts.len()
                == 0
        },
        PeerChanCommand::SendOffer { uuid } => {
            &&& post == pre
            &&& pre.spec_has_peer(uuid@) ==> acts.len() == 1 && (exists|i: int|
                0 <= i < pre.peers@.len() && (#[trigger] pre.peers@[i]).uuid@ == uuid@ && (acts[0]
                    matches Action::ProduceOffer { uuid: u, tx } && u@ == uuid@ && tx
                    == pre.peers@[i].tx))
            &&& !pre.spec_has_peer(uuid@) ==> acts.len() == 0
        },
        PeerChanCommand::OnTrack { uuid, track } => {
            &&& !pre.spec_has_peer(uuid@) ==> post == pre && acts.len() == 0
            &&& pre.wf() && crate::fanout::publisher_has_ssrc(pre, uuid@, track.ssrc) ==> post
                == pre && acts.len() == 0
            &&& pre.wf() && pre.spec_has_peer(uuid@) && !crate::fanout::publisher_has_ssrc(
                pre,
                uuid@,
                track.ssrc,
            ) && pre.next_track_id + pre.peers@.len() > u64::MAX ==> post == pre && acts.len() == 0
            &&& pre.wf() && pre.spec_has_peer(uuid@) && !crate::fanout::publisher_has_ssrc(
                pre,
                uuid@,
                track.ssrc,
            ) && pre.next_track_id + pre.peers@.len() <= u64::MAX
                ==> crate::fanout::on_track_state(pre, post, pre.spec_peer_index(uuid@), track)
                && crate::fanout::on_track_actions(pre, post, track, acts)
        },
        PeerChanCommand::PeerLeave { uuid } => {
            &&& pre.spec_has_peer(uuid@) ==> {
                &&& exists|i: int|
                    0 <= i < pre.peers@.len() && (#[trigger] pre.peers@[i]).uuid@ == uuid@
                        && post.peers@ == pre.peers@.remove(i)
                &&& post.forwards@ == crate::leave::survives_filter(pre.forwards@, uuid@)
                &&& post.next_track_id == pre.next_track_id
                &&& acts.len() == 1 && (acts[0] matches Action::ClosePeerConnection { uuid: u }
                    && u@ == uuid@)
            }
            &&& !pre.spec_has_peer(uuid@) ==> post == pre && acts.len() == 0
        },
    }
}

impl SfuState {
    /// Processes one command: dispatches it to its handler, mutating the
    /// table and returning the engine actions to perform, in order.
    pub fn step(&mut self, cmd: PeerChanCommand) -> (acts: Vec<Action>)
        ensures
            step_spec(*old(self), *final(self), cmd, acts@),
            old(self).wf() ==> final(self).wf(),
    {
        match cmd {
            PeerChanCommand::SendIceCandidate { uuid, candidate } => self.send_ice_candidate(
                uuid,
                candidate,
            ),
            PeerChanCommand::ReceiveIceCandidate { uuid, candidate } => self.receive_ice_candidate(
                uuid,
                candidate,
            ),
            PeerChanCommand::ReceiveOffer { uuid, sdp, tx } => self.receive_offer(uuid, sdp, tx),
            PeerChanCommand::ReceiveAnswer { uuid, sdp } => self.receive_answer(uuid, sdp),
            PeerChanCommand::SendOffer { uuid } => self.send_offer(uuid),
            PeerChanCommand::OnTrack { uuid, track } => self.on_track(uuid, track),
            PeerChanCommand::PeerLeave { uuid } => self.peer_leave(uuid),
        }
    }
}

/// What a whole queue of commands does: the commands are processed in FIFO
/// order, each from the state the previous one left, and the emitted
/// actions are concatenated in the same order.
pub open spec fn steps_spec(
    pre: SfuState,
    post: SfuState,
    cmds: Seq<PeerChanCommand>,
    acts: Seq<Action>,
) -> bool
    decreases cmds.len(),
{
    if cmds.len() == 0 {
        post == pre && acts.len() == 0
    } else {
        exists|m: SfuState, a1: Seq<Action>, a2: Seq<Action>|
            step_spec(pre, m, cmds[0], a1) && steps_spec(m, post, cmds.skip(1), a2) && acts == a1
                + a2
    }
}

/// A step chain grows at its end: processing one more command extends it.
proof fn lemma_steps_snoc(
    pre: SfuState,
    m2: SfuState,
    post: SfuState,
    cmds: Seq<PeerChanCommand>,
    cmd: PeerChanCommand,
    acts1: Seq<Action>,
    acts2: Seq<Action>,
)
    requires
        steps_spec(pre, m2, cmds, acts1),
        step_spec(m2, post, cmd, acts2),
    ensures
        steps_spec(pre, post, cmds.push(cmd), acts1 + acts2),
    decreases cmds.len(),
{
    let cmds2 = cmds.push(cmd);
    if cmds.len() == 0 {
        assert(cmds2[0] == cmd);
        assert(cmds2.skip(1) =~= Seq::<PeerChanCommand>::empty());
        assert(acts1 + acts2 =~= acts2);
        let a2e = Seq::<Action>::empty();
        assert(steps_spec(post, post, cmds2.skip(1), a2e));
        assert(acts2 =~= acts2 + a2e);
        assert(step_spec(pre, post, cmds2[0], acts2) && steps_spec(post, post, cmds2.skip(1), a2e)
            && acts2 == acts2 + a2e);
    } else {
        let (m, a1, a2): (SfuState, Seq<Action>, Seq<Action>) = choose|
            m: SfuState,
            a1: Seq<Action>,
            a2: Seq<Action>,
        |
            step_spec(pre, m, cmds[0], a1) && steps_spec(m, m2, cmds.skip(1), a2) && acts1 == a1
                + a2;
        lemma_steps_snoc(m, m2, post, cmds.skip(1), cmd, a2, acts2);
        assert(cmds2.skip(1) =~= cmds.skip(1).push(cmd));
        assert(cmds2[0] == cmds[0]);
        assert((a1 + a2) + acts2 =~= a1 + (a2 + acts2));
        assert(step_spec(pre, m, cmds2[0], a1) && steps_spec(m, post, cmds2.skip(1), a2 + acts2)
            && acts1 + acts2 == a1 + (a2 + acts2));
    }
}

impl SfuState {
    /// Drains a queue of commands in FIFO order — the serialization that
    /// stands in for locking: all mutation of the table happens here, one
    /// command at a time, and the actions come out in processing order.
    pub fn handle_peer_connection_commands(&mut self, cmds: Vec<PeerChanCommand>) -> (acts: Vec<
        Action,
    >)
        ensures
            steps_spec(*old(self), *final(self), cmds@, acts@),
            old(self).wf() ==> final(self).wf(),
    {
        let ghost pre = *self;
        let ghost all = cmds@;
        let mut queue = cmds;
        let mut acts: Vec<Action> = Vec::new();
        let ghost mut done: Seq<PeerChanCommand> = Seq::empty();
        proof {
            assert(steps_spec(pre, *self, done, acts@));
        }
        while queue.len() > 0
            invariant
                all == done + queue@,
                steps_spec(pre, *self, done, acts@),
                pre.wf() ==> self.wf(),
            decreases queue@.len(),
        {
            let cmd = queue.remove(0);
            let ghost cmdg = cmd;
            let ghost mpre = *self;
            let ghost acts_pre = acts@;
            let mut step_acts = self.step(cmd);
            let ghost stepped = step_acts@;
            acts.append(&mut step_acts);
            proof {
                lemma_steps_snoc(pre, mpre, *self, done, cmdg, acts_pre, stepped);
                done = done.push(cmdg);
                assert(all =~= done + queue@);
            }
        }
        proof {
            assert(done =~= all);
        }
        acts
    }
}

} // verus!
