//! The join and renegotiation paths of a client offer.

use vstd::prelude::*;
use crate::coordinator::{spawn_matches, Action};
use crate::peer::{MediaKind, Peer, RemoteTrack};
use crate::engine::{parse_offer, sdp_offer_parses};
use crate::state::{
    edges_distinct, lemma_edges_distinct_push, lemma_seq_has_edge_extend, publishes_kind,
    seq_has_edge, ForwardEdge, SfuState,
};

verus! {

impl SfuState {
    /// A client sent an SDP offer. From a known peer it is a renegotiation:
    /// set the remote description only. From a new identifier it is the
    /// peer's join: create its connection, set the offer as its remote
    /// description, give the newcomer one outbound track per media kind the
    /// room already publishes, wire every published track into it, and
    /// answer on `tx`. An SDP the engine's parser rejects is dropped with no
    /// entry created; a later well-formed offer from the same identifier
    /// joins normally.
    #[verifier::rlimit(100)]
    #[verifier::spinoff_prover]
    pub fn receive_offer(&mut self, uuid: String, sdp: String, tx: u64) -> (acts: Vec<Action>)
        ensures
            !sdp_offer_parses(sdp@) ==> *final(self) == *old(self) && acts@.len() == 0,
            sdp_offer_parses(sdp@) && old(self).spec_has_peer(uuid@) ==> *final(self) == *old(self)
                && acts@.len() == 1 && (acts@[0] matches Action::SetRemoteOffer {
                uuid: u,
                ..
            } && u@ == uuid@),
            sdp_offer_parses(sdp@) && !old(self).spec_has_peer(uuid@) && old(self).next_track_id
                <= u64::MAX - 2 ==> join_state(*old(self), *final(self), uuid@, tx)
                && join_actions(*old(self), *final(self), uuid@, tx, acts@),
            sdp_offer_parses(sdp@) && !old(self).spec_has_peer(uuid@) && old(self).next_track_id
                > u64::MAX - 2 ==> *final(self) == *old(self) && acts@.len() == 0,
            old(self).wf() ==> final(self).wf(),
    {
        let parsed = match parse_offer(sdp) {
            None => {
                return Vec::new();
            },
            Some(d) => d,
        };
        if self.find_peer(&uuid).is_some() {
            let mut acts: Vec<Action> = Vec::new();
            acts.push(Action::SetRemoteOffer { uuid, desc: parsed });
            return acts;
        }
        if self.next_track_id > u64::MAX - 2 {
            // No track-id headroom left for the newcomer's outbound tracks.
            return Vec::new();
        }
        let ghost pre = *self;
        // Which kinds does the room publish? The newcomer needs an outbound
        // track for each.
        let mut need_audio = false;
        let mut need_video = false;
        let n = self.peers.len();
        for qi in 0..n
            invariant
                *self == pre,
                n == self.peers@.len(),
                need_audio == exists|qj: int, tj: int|
                    0 <= qj < qi && 0 <= tj < pre.peers@[qj].published@.len() && (
                    #[trigger] pre.peers@[qj].published@[tj]).kind == MediaKind::Audio,
                need_video == exists|qj: int, tj: int|
                    0 <= qj < qi && 0 <= tj < pre.peers@[qj].published@.len() && (
                    #[trigger] pre.peers@[qj].published@[tj]).kind == MediaKind::Video,
        {
            if publishes_kind(&self.peers[qi], MediaKind::Audio) {
                need_audio = true;
            }
            if publishes_kind(&self.peers[qi], MediaKind::Video) {
                need_video = true;
            }
        }
        proof {
            assert(need_audio == pre.spec_someone_publishes(MediaKind::Audio));
            assert(need_video == pre.spec_someone_publishes(MediaKind::Video));
        }
        let mut newp = Peer::new(uuid.clone(), tx);
        let mut acts: Vec<Action> = Vec::new();
        acts.push(Action::NewPeerConnection { uuid: uuid.clone() });
        acts.push(Action::SetRemoteOffer { uuid: uuid.clone(), desc: parsed });
        if need_audio {
            let id = self.next_track_id;
            self.next_track_id = id + 1;
            newp.output_tracks.set(MediaKind::Audio, id);
            acts.push(
                Action::AttachOutputTrack { uuid: uuid.clone(), track: id, kind: MediaKind::Audio },
            );
        }
        if need_video {
            let id = self.next_track_id;
            self.next_track_id = id + 1;
            newp.output_tracks.set(MediaKind::Video, id);
            acts.push(
                Action::AttachOutputTrack { uuid: uuid.clone(), track: id, kind: MediaKind::Video },
            );
        }
        let ghost na: int = (if need_audio {
            1int
        } else {
            0int
        }) + (if need_video {
            1int
        } else {
            0int
        });
        let ghost acts_mid = acts@;
        let ghost newpg = newp;
        // Wire every track the room publishes into the newcomer.
        for qi in 0..n
            invariant
                n == pre.peers@.len(),
                self.peers@ == pre.peers@,
                self.next_track_id == pre.next_track_id + na,
                newp == newpg,
                newpg.spec_output(MediaKind::Audio) is Some <==> pre.spec_someone_publishes(
                    MediaKind::Audio,
                ),
                newpg.spec_output(MediaKind::Video) is Some <==> pre.spec_someone_publishes(
                    MediaKind::Video,
                ),
                pre.forwards@.len() <= self.forwards@.len(),
                forall|k: int|
                    0 <= k < pre.forwards@.len() ==> #[trigger] self.forwards@[k]
                        == pre.forwards@[k],
                forall|k: int|
                    pre.forwards@.len() <= k < self.forwards@.len() ==> join_edge_form(
                        pre,
                        newpg,
                        uuid@,
                        #[trigger] self.forwards@[k],
                    ),
                join_covered(pre, self.forwards@, uuid@, newpg, qi as int, 0),
                pre.edges_unique() ==> edges_distinct(self.forwards@),
                acts@.len() == acts_mid.len() + self.forwards@.len() - pre.forwards@.len(),
                forall|i: int| 0 <= i < acts_mid.len() ==> #[trigger] acts@[i] == acts_mid[i],
                forall|m: int|
                    0 <= m < self.forwards@.len() - pre.forwards@.len() ==> spawn_matches(
                        #[trigger] acts@[acts_mid.len() + m],
                        self.forwards@[pre.forwards@.len() + m],
                    ),
        {
            let m = self.peers[qi].published.len();
            for ti in 0..m
                invariant
                    n == pre.peers@.len(),
                    qi < n,
                    m == pre.peers@[qi as int].published@.len(),
                    self.peers@ == pre.peers@,
                    self.next_track_id == pre.next_track_id + na,
                    newp == newpg,
                    newpg.spec_output(MediaKind::Audio) is Some <==> pre.spec_someone_publishes(
                        MediaKind::Audio,
                    ),
                    newpg.spec_output(MediaKind::Video) is Some <==> pre.spec_someone_publishes(
                        MediaKind::Video,
                    ),
                    pre.forwards@.len() <= self.forwards@.len(),
                    forall|k: int|
                        0 <= k < pre.forwards@.len() ==> #[trigger] self.forwards@[k]
                            == pre.forwards@[k],
                    forall|k: int|
                        pre.forwards@.len() <= k < self.forwards@.len() ==> join_edge_form(
                            pre,
                            newpg,
                            uuid@,
                            #[trigger] self.forwards@[k],
                        ),
                    join_covered(pre, self.forwards@, uuid@, newpg, qi as int, ti as int),
                    pre.edges_unique() ==> edges_distinct(self.forwards@),
                    acts@.len() == acts_mid.len() + self.forwards@.len() - pre.forwards@.len(),
                    forall|i: int| 0 <= i < acts_mid.len() ==> #[trigger] acts@[i] == acts_mid[i],
                    forall|mm: int|
                        0 <= mm < self.forwards@.len() - pre.forwards@.len() ==> spawn_matches(
                            #[trigger] acts@[acts_mid.len() + mm],
                            self.forwards@[pre.forwards@.len() + mm],
                        ),
            {
                let t = self.peers[qi].published[ti];
                proof {
                    assert(pre.peers@[qi as int].published@[ti as int] == t);
                    assert(pre.spec_someone_publishes(t.kind));
                    assert(newpg.spec_output(t.kind) is Some) by {
                        match t.kind {
                            MediaKind::Audio => assert(newpg.spec_output(MediaKind::Audio) is Some),
                            MediaKind::Video => assert(newpg.spec_output(MediaKind::Video) is Some),
                        }
                    }
                }
                let dest = newp.output_tracks.get(t.kind).unwrap();
                let src_uuid = self.peers[qi].uuid.clone();
                let ghost fwds0 = self.forwards@;
                if !self.edge_exists(&src_uuid, t.ssrc, &uuid, dest) {
                    let e = ForwardEdge {
                        source_uuid: src_uuid,
                        source_ssrc: t.ssrc,
                        dest_uuid: uuid.clone(),
                        dest_track: dest,
                        kind: t.kind,
                    };
                    proof {
                        if pre.edges_unique() {
                            lemma_edges_distinct_push(self.forwards@, e);
                        }
                    }
                    self.forwards.push(e);
                    acts.push(
                        Action::SpawnForwarder {
                            source_uuid: self.peers[qi].uuid.clone(),
                            source_ssrc: t.ssrc,
                            dest_uuid: uuid.clone(),
                            dest_track: dest,
                            kind: t.kind,
                        },
                    );
                    proof {
                        assert(self.forwards@[self.forwards@.len() - 1] == e);
                        assert(seq_has_edge(
                            self.forwards@,
                            pre.peers@[qi as int].uuid@,
                            t.ssrc,
                            uuid@,
                            dest,
                        ));
                    }
                }
                proof {
                    assert(seq_has_edge(
                        self.forwards@,
                        pre.peers@[qi as int].uuid@,
                        t.ssrc,
                        uuid@,
                        newpg.spec_output(t.kind)->Some_0,
                    ));
                    lemma_join_covered_extend(
                        pre,
                        fwds0,
                        self.forwards@,
                        uuid@,
                        newpg,
                        qi as int,
                        ti as int,
                    );
                }
            }
            proof {
                assert(join_covered(pre, self.forwards@, uuid@, newpg, qi as int + 1, 0));
            }
        }
        acts.push(Action::ProduceAnswer { uuid: uuid.clone(), tx });
        let ghost fwds_final = self.forwards@;
        self.peers.push(newp);
        proof {
            assert(self.peers@.last() == newpg);
            assert(join_state(pre, *self, uuid@, tx));
            assert(join_actions(pre, *self, uuid@, tx, acts@));
            if pre.wf() {
                lemma_join_wf(pre, *self, uuid@, tx);
            }
        }
        acts
    }
}

/// Extending the wired edges by at most the edge for pair `(qi, ti)` covers
/// that pair too: either the edge was just appended, or it was already
/// there.
proof fn lemma_join_covered_extend(
    pre: SfuState,
    fwds0: Seq<ForwardEdge>,
    fwds1: Seq<ForwardEdge>,
    uuid: Seq<char>,
    newp: Peer,
    qi: int,
    ti: int,
)
    requires
        0 <= qi < pre.peers@.len(),
        0 <= ti < pre.peers@[qi].published@.len(),
        join_covered(pre, fwds0, uuid, newp, qi, ti),
        fwds0.len() <= fwds1.len(),
        forall|k: int| 0 <= k < fwds0.len() ==> #[trigger] fwds1[k] == fwds0[k],
        ({
            let t = pre.peers@[qi].published@[ti];
            seq_has_edge(fwds1, pre.peers@[qi].uuid@, t.ssrc, uuid, newp.spec_output(t.kind)->Some_0)
        }),
    ensures
        join_covered(pre, fwds1, uuid, newp, qi, ti + 1),
{
    assert forall|qj: int, tj: int|
        0 <= qj < pre.peers@.len() && 0 <= tj < pre.peers@[qj].published@.len() && (qj < qi || (qj
            == qi && tj < ti + 1)) implies {
        let t = #[trigger] pre.peers@[qj].published@[tj];
        seq_has_edge(fwds1, pre.peers@[qj].uuid@, t.ssrc, uuid, newp.spec_output(t.kind)->Some_0)
    } by {
        let t = pre.peers@[qj].published@[tj];
        if qj == qi && tj == ti {
        } else {
            assert(seq_has_edge(
                fwds0,
                pre.peers@[qj].uuid@,
                t.ssrc,
                uuid,
                newp.spec_output(t.kind)->Some_0,
            ));
            lemma_seq_has_edge_extend(
                fwds0,
                fwds1,
                pre.peers@[qj].uuid@,
                t.ssrc,
                uuid,
                newp.spec_output(t.kind)->Some_0,
            );
        }
    }
}

/// A join preserves the coordinator's invariant.
proof fn lemma_join_wf(pre: SfuState, post: SfuState, uuid: Seq<char>, tx: u64)
    requires
        pre.wf(),
        !pre.spec_has_peer(uuid),
        join_state(pre, post, uuid, tx),
        edges_distinct(post.forwards@),
    ensures
        post.wf(),
{
    lemma_join_peers_wf(pre, post, uuid, tx);
    lemma_join_edges_wf(pre, post, uuid, tx);
    lemma_join_mesh(pre, post, uuid, tx);
}

/// The peer-table conjuncts of the invariant after a join.
#[verifier::spinoff_prover]
proof fn lemma_join_peers_wf(pre: SfuState, post: SfuState, uuid: Seq<char>, tx: u64)
    requires
        pre.uuids_unique(),
        pre.tracks_bounded(),
        pre.tracks_unique(),
        pre.published_unique(),
        !pre.spec_has_peer(uuid),
        join_state(pre, post, uuid, tx),
    ensures
        post.uuids_unique(),
        post.tracks_bounded(),
        post.tracks_unique(),
        post.published_unique(),
{
    let newi = pre.peers@.len() as int;
    assert forall|i: int, j: int| 0 <= i < j < post.peers@.len() implies (
    #[trigger] post.peers@[i]).uuid@ != (#[trigger] post.peers@[j]).uuid@ by {
        if j == newi {
            assert(post.peers@[i] == pre.peers@[i]);
            assert(pre.peers@[i].uuid@ != uuid);
        }
    }
    assert forall|i: int, k: MediaKind|
        0 <= i < post.peers@.len() && (#[trigger] post.peers@[i].spec_output(k)) is Some implies
        post.peers@[i].spec_output(k)->Some_0 < post.next_track_id by {
        if i < newi {
            assert(post.peers@[i] == pre.peers@[i]);
            assert(pre.peers@[i].spec_output(k)->Some_0 < pre.next_track_id);
        }
    }
    assert forall|i: int, j: int, k1: MediaKind, k2: MediaKind|
        0 <= i < post.peers@.len() && 0 <= j < post.peers@.len() && (i != j || k1 != k2) && (
        #[trigger] post.peers@[i].spec_output(k1)) is Some && (
        #[trigger] post.peers@[j].spec_output(k2)) is Some implies post.peers@[i].spec_output(
        k1,
    )->Some_0 != post.peers@[j].spec_output(k2)->Some_0 by {
        if i < newi && j < newi {
            assert(post.peers@[i] == pre.peers@[i] && post.peers@[j] == pre.peers@[j]);
        } else if i == newi && j == newi {
            assert(post.peers@.last().spec_output(k1) is Some);
            if k1 != k2 {
                assert(k1 is Audio || k1 is Video);
                assert(k2 is Audio || k2 is Video);
            }
        } else if i == newi {
            assert(post.peers@[j] == pre.peers@[j]);
            assert(pre.peers@[j].spec_output(k2)->Some_0 < pre.next_track_id);
        } else {
            assert(post.peers@[i] == pre.peers@[i]);
            assert(pre.peers@[i].spec_output(k1)->Some_0 < pre.next_track_id);
        }
    }
    assert(post.published_unique()) by {
        assert forall|i: int, a: int, b: int|
            0 <= i < post.peers@.len() && 0 <= a < b < post.peers@[i].published@.len() implies (
        #[trigger] post.peers@[i].published@[a]).ssrc != (
        #[trigger] post.peers@[i].published@[b]).ssrc by {
            assert(i < newi);
            assert(post.peers@[i] == pre.peers@[i]);
        }
    }
}

/// Every edge after a join is well-targeted: the old ones as before, the
/// new ones into the appended peer.
#[verifier::spinoff_prover]
proof fn lemma_join_edges_wf(pre: SfuState, post: SfuState, uuid: Seq<char>, tx: u64)
    requires
        pre.edges_wf(),
        join_state(pre, post, uuid, tx),
    ensures
        post.edges_wf(),
{
    let newi = pre.peers@.len() as int;
    let newp = post.peers@.last();
    assert forall|k: int| 0 <= k < post.forwards@.len() implies {
        let e = #[trigger] post.forwards@[k];
        (exists|qi: int, ti: int|
            0 <= qi < post.peers@.len() && 0 <= ti < post.peers@[qi].published@.len()
                && post.peers@[qi].uuid@ == e.source_uuid@ && (
            #[trigger] post.peers@[qi].published@[ti]) == (RemoteTrack {
                ssrc: e.source_ssrc,
                kind: e.kind,
            })) && (exists|pi: int|
            0 <= pi < post.peers@.len() && (#[trigger] post.peers@[pi]).uuid@ == e.dest_uuid@
                && post.peers@[pi].spec_output(e.kind) == Some(e.dest_track))
    } by {
        let e = post.forwards@[k];
        if k < pre.forwards@.len() {
            assert(e == pre.forwards@[k]);
            let (qi, ti): (int, int) = choose|qi: int, ti: int|
                0 <= qi < pre.peers@.len() && 0 <= ti < pre.peers@[qi].published@.len()
                    && pre.peers@[qi].uuid@ == e.source_uuid@ && (
                #[trigger] pre.peers@[qi].published@[ti]) == (RemoteTrack {
                    ssrc: e.source_ssrc,
                    kind: e.kind,
                });
            let pi = choose|pi: int|
                0 <= pi < pre.peers@.len() && (#[trigger] pre.peers@[pi]).uuid@ == e.dest_uuid@
                    && pre.peers@[pi].spec_output(e.kind) == Some(e.dest_track);
            assert(post.peers@[qi] == pre.peers@[qi]);
            assert(post.peers@[pi] == pre.peers@[pi]);
            assert(post.peers@[qi].published@[ti] == pre.peers@[qi].published@[ti]);
        } else {
            assert(join_edge_form(pre, newp, uuid, e));
            let (qi, ti): (int, int) = choose|qi: int, ti: int|
                0 <= qi < pre.peers@.len() && 0 <= ti < pre.peers@[qi].published@.len()
                    && pre.peers@[qi].uuid@ == e.source_uuid@ && (
                #[trigger] pre.peers@[qi].published@[ti]) == (RemoteTrack {
                    ssrc: e.source_ssrc,
                    kind: e.kind,
                });
            assert(post.peers@[qi] == pre.peers@[qi]);
            assert(post.peers@[qi].published@[ti] == pre.peers@[qi].published@[ti]);
            assert((#[trigger] post.peers@[newi]).uuid@ == e.dest_uuid@
                && post.peers@[newi].spec_output(e.kind) == Some(e.dest_track));
        }
    }
}

/// Full-mesh coverage after a join: old pairs by the old mesh, the new
/// peer by the join's own wiring, and the new peer publishes nothing yet.
#[verifier::spinoff_prover]
proof fn lemma_join_mesh(pre: SfuState, post: SfuState, uuid: Seq<char>, tx: u64)
    requires
        pre.mesh(),
        join_state(pre, post, uuid, tx),
    ensures
        post.mesh(),
{
    let newi = pre.peers@.len() as int;
    let newp = post.peers@.last();
    assert forall|qi: int, ti: int, pi: int|
        #![trigger post.peers@[qi].published@[ti], post.peers@[pi]]
        0 <= qi < post.peers@.len() && 0 <= ti < post.peers@[qi].published@.len() && 0 <= pi
            < post.peers@.len() implies {
        let t = post.peers@[qi].published@[ti];
        let p = post.peers@[pi];
        p.spec_output(t.kind) is Some && post.spec_has_edge(
            post.peers@[qi].uuid@,
            t.ssrc,
            p.uuid@,
            p.spec_output(t.kind)->Some_0,
        )
    } by {
        if qi == newi {
            // The newcomer publishes nothing yet.
            assert(post.peers@[qi].published@.len() == 0);
        } else {
            assert(post.peers@[qi] == pre.peers@[qi]);
            let t = post.peers@[qi].published@[ti];
            assert(pre.peers@[qi].published@[ti] == t);
            if pi == newi {
                assert(pre.spec_someone_publishes(t.kind));
                assert(newp.spec_output(t.kind) is Some);
                assert(join_covered(pre, post.forwards@, uuid, newp, pre.peers@.len() as int, 0));
                assert(seq_has_edge(
                    post.forwards@,
                    pre.peers@[qi].uuid@,
                    t.ssrc,
                    uuid,
                    newp.spec_output(t.kind)->Some_0,
                ));
            } else {
                assert(post.peers@[pi] == pre.peers@[pi]);
                let p = pre.peers@[pi];
                assert(p.spec_output(t.kind) is Some);
                assert(pre.spec_has_edge(
                    pre.peers@[qi].uuid@,
                    t.ssrc,
                    p.uuid@,
                    p.spec_output(t.kind)->Some_0,
                ));
                lemma_seq_has_edge_extend(
                    pre.forwards@,
                    post.forwards@,
                    pre.peers@[qi].uuid@,
                    t.ssrc,
                    p.uuid@,
                    p.spec_output(t.kind)->Some_0,
                );
            }
        }
    }
}

/// How a join transforms the table: the old peers stay put, the new entry is
/// appended with one fresh outbound track per kind already published by
/// anyone, and every published track is wired into the new entry.
pub open spec fn join_state(pre: SfuState, post: SfuState, uuid: Seq<char>, tx: u64) -> bool {
    let newp = post.peers@.last();
    &&& post.peers@.len() == pre.peers@.len() + 1
    &&& forall|j: int| 0 <= j < pre.peers@.len() ==> #[trigger] post.peers@[j] == pre.peers@[j]
    &&& newp.uuid@ == uuid
    &&& newp.tx == tx
    &&& newp.published@.len() == 0
    &&& (newp.spec_output(MediaKind::Audio) is Some <==> pre.spec_someone_publishes(
        MediaKind::Audio,
    ))
    &&& (newp.spec_output(MediaKind::Video) is Some <==> pre.spec_someone_publishes(
        MediaKind::Video,
    ))
    &&& forall|k: MediaKind|
        (#[trigger] newp.spec_output(k)) is Some ==> pre.next_track_id <= newp.spec_output(
            k,
        )->Some_0 < post.next_track_id
    &&& (newp.spec_output(MediaKind::Audio) is Some && newp.spec_output(MediaKind::Video) is Some
        ==> newp.spec_output(MediaKind::Audio)->Some_0 != newp.spec_output(
        MediaKind::Video,
    )->Some_0)
    &&& pre.next_track_id <= post.next_track_id <= pre.next_track_id + 2
    &&& pre.forwards@.len() <= post.forwards@.len()
    &&& forall|k: int|
        0 <= k < pre.forwards@.len() ==> #[trigger] post.forwards@[k] == pre.forwards@[k]
    &&& forall|k: int|
        pre.forwards@.len() <= k < post.forwards@.len() ==> join_edge_form(
            pre,
            newp,
            uuid,
            #[trigger] post.forwards@[k],
        )
    &&& join_covered(pre, post.forwards@, uuid, newp, pre.peers@.len() as int, 0)
}

/// A forwarding edge added at join: it feeds the new peer's outbound track
/// of the right kind from a track some existing peer publishes.
pub open spec fn join_edge_form(pre: SfuState, newp: Peer, uuid: Seq<char>, e: ForwardEdge) -> bool {
    &&& e.dest_uuid@ == uuid
    &&& newp.spec_output(e.kind) == Some(e.dest_track)
    &&& exists|qi: int, ti: int|
        0 <= qi < pre.peers@.len() && 0 <= ti < pre.peers@[qi].published@.len()
            && pre.peers@[qi].uuid@ == e.source_uuid@ && (
        #[trigger] pre.peers@[qi].published@[ti]) == (RemoteTrack {
            ssrc: e.source_ssrc,
            kind: e.kind,
        })
}

/// Every published track of the table's first `qmax` peers — and, in row
/// `qmax`, the first `tmax` tracks — is wired into the new peer.
pub open spec fn join_covered(
    pre: SfuState,
    fwds: Seq<ForwardEdge>,
    uuid: Seq<char>,
    newp: Peer,
    qmax: int,
    tmax: int,
) -> bool {
    forall|qj: int, tj: int|
        #![trigger pre.peers@[qj].published@[tj]]
        0 <= qj < pre.peers@.len() && 0 <= tj < pre.peers@[qj].published@.len() && (qj < qmax || (
        qj == qmax && tj < tmax)) ==> {
            let t = pre.peers@[qj].published@[tj];
            seq_has_edge(
                fwds,
                pre.peers@[qj].uuid@,
                t.ssrc,
                uuid,
                newp.spec_output(t.kind)->Some_0,
            )
        }
}

/// The actions a join emits, in order: create the connection, set the
/// remote offer, attach the new entry's outbound tracks, spawn one
/// forwarding worker per newly wired edge, and answer the client.
pub open spec fn join_actions(
    pre: SfuState,
    post: SfuState,
    uuid: Seq<char>,
    tx: u64,
    acts: Seq<Action>,
) -> bool {
    let newp = post.peers@.last();
    let na: int = (if newp.spec_output(MediaKind::Audio) is Some {
        1int
    } else {
        0int
    }) + (if newp.spec_output(MediaKind::Video) is Some {
        1int
    } else {
        0int
    });
    let ne = post.forwards@.len() - pre.forwards@.len();
    &&& acts.len() == 3 + na + ne
    &&& (acts[0] matches Action::NewPeerConnection { uuid: u } && u@ == uuid)
    &&& (acts[1] matches Action::SetRemoteOffer { uuid: u, .. } && u@ == uuid)
    &&& (newp.spec_output(MediaKind::Audio) matches Some(id) ==> (acts[2]
        matches Action::AttachOutputTrack { uuid: u, track, kind } && u@ == uuid && track == id
        && kind == MediaKind::Audio))
    &&& (newp.spec_output(MediaKind::Video) matches Some(id) ==> (acts[1 + na]
        matches Action::AttachOutputTrack { uuid: u, track, kind } && u@ == uuid && track == id
        && kind == MediaKind::Video))
    &&& forall|m: int|
        0 <= m < ne ==> spawn_matches(
            #[trigger] acts[2 + na + m],
            post.forwards@[pre.forwards@.len() + m],
        )
    &&& (acts[acts.len() - 1] matches Action::ProduceAnswer { uuid: u, tx: t } && u@ == uuid && t
        == tx)
}


} // verus!
