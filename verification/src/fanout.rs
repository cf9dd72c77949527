//! The fan-out of a newly published remote track: outbound tracks and
//! forwarding workers for every peer in the table.

use vstd::prelude::*;
use crate::coordinator::Action;
use crate::peer::{MediaKind, Peer, RemoteTrack};
use crate::coordinator::spawn_matches;
use crate::state::{
    edges_distinct, lemma_edges_distinct_push, lemma_seq_has_edge_extend, publishes_ssrc,
    seq_has_edge, ForwardEdge, SfuState,
};

verus! {

/// Whether some peer in the table carries this identifier and already
/// publishes a remote track with this source.
pub open spec fn publisher_has_ssrc(s: SfuState, uuid: Seq<char>, ssrc: u32) -> bool {
    exists|i: int|
        0 <= i < s.peers@.len() && (#[trigger] s.peers@[i]).uuid@ == uuid && s.peers@[i]
            .publishes_ssrc(ssrc)
}

/// How a track announcement transforms the table: the publisher at `pi`
/// records the track; every peer gets an outbound track of its kind (the
/// attached one is reused, a missing one is created fresh); and an edge
/// carries the new track into every peer's outbound track.
pub open spec fn on_track_state(pre: SfuState, post: SfuState, pi: int, t: RemoteTrack) -> bool {
    &&& 0 <= pi < pre.peers@.len()
    &&& post.peers@.len() == pre.peers@.len()
    &&& forall|j: int|
        0 <= j < post.peers@.len() ==> {
            let p0 = pre.peers@[j];
            let p1 = #[trigger] post.peers@[j];
            &&& p1.uuid@ == p0.uuid@
            &&& p1.tx == p0.tx
            &&& p1.published@ == if j == pi {
                p0.published@.push(t)
            } else {
                p0.published@
            }
            &&& p1.spec_output(t.kind) is Some
            &&& (p0.spec_output(t.kind) is Some ==> p1.spec_output(t.kind) == p0.spec_output(
                t.kind,
            ))
            &&& (p0.spec_output(t.kind) is None ==> pre.next_track_id <= p1.spec_output(
                t.kind,
            )->Some_0 < post.next_track_id)
            &&& forall|k: MediaKind|
                k != t.kind ==> #[trigger] p1.spec_output(k) == p0.spec_output(k)
        }
    &&& forall|j1: int, j2: int|
        0 <= j1 < post.peers@.len() && 0 <= j2 < post.peers@.len() && j1 != j2
            && pre.peers@[j1].spec_output(t.kind) is None && pre.peers@[j2].spec_output(
            t.kind,
        ) is None ==> (#[trigger] post.peers@[j1].spec_output(t.kind)) != (
        #[trigger] post.peers@[j2].spec_output(t.kind))
    &&& pre.next_track_id <= post.next_track_id
    &&& pre.forwards@.len() <= post.forwards@.len()
    &&& forall|k: int|
        0 <= k < pre.forwards@.len() ==> #[trigger] post.forwards@[k] == pre.forwards@[k]
    &&& forall|k: int|
        pre.forwards@.len() <= k < post.forwards@.len() ==> {
            let e = #[trigger] post.forwards@[k];
            &&& e.source_uuid@ == pre.peers@[pi].uuid@
            &&& e.source_ssrc == t.ssrc
            &&& e.kind == t.kind
            &&& exists|j: int|
                0 <= j < post.peers@.len() && (#[trigger] post.peers@[j]).uuid@ == e.dest_uuid@
                    && post.peers@[j].spec_output(t.kind) == Some(e.dest_track)
        }
    &&& forall|j: int|
        0 <= j < post.peers@.len() ==> seq_has_edge(
            post.forwards@,
            pre.peers@[pi].uuid@,
            t.ssrc,
            (#[trigger] post.peers@[j]).uuid@,
            post.peers@[j].spec_output(t.kind)->Some_0,
        )
}

/// The actions a track announcement emits: one attach per peer that lacked
/// an outbound track of the kind, one worker spawn per newly wired edge,
/// and nothing else.
pub open spec fn on_track_actions(
    pre: SfuState,
    post: SfuState,
    t: RemoteTrack,
    acts: Seq<Action>,
) -> bool {
    &&& forall|a: int|
        0 <= a < acts.len() ==> ((#[trigger] acts[a]) matches Action::AttachOutputTrack { .. }
            || acts[a] matches Action::SpawnForwarder { .. })
    &&& forall|a: int|
        0 <= a < acts.len() ==> ((#[trigger] acts[a]) matches Action::AttachOutputTrack {
            uuid: u,
            track: tr,
            kind: k,
        } ==> k == t.kind && exists|j: int|
            0 <= j < post.peers@.len() && pre.peers@[j].spec_output(t.kind) is None && (
            #[trigger] post.peers@[j]).uuid@ == u@ && post.peers@[j].spec_output(t.kind) == Some(
                tr,
            ))
    &&& forall|j: int|
        0 <= j < post.peers@.len() && (#[trigger] pre.peers@[j].spec_output(t.kind)) is None
            ==> exists|a: int|
            0 <= a < acts.len() && ((#[trigger] acts[a]) matches Action::AttachOutputTrack {
                uuid: u,
                track: tr,
                kind: k,
            } && u@ == post.peers@[j].uuid@ && Some(tr) == post.peers@[j].spec_output(t.kind) && k
                == t.kind)
    &&& forall|a: int|
        0 <= a < acts.len() ==> ((#[trigger] acts[a]) matches Action::SpawnForwarder { .. }
            ==> exists|k: int|
            pre.forwards@.len() <= k < post.forwards@.len() && spawn_matches(
                acts[a],
                #[trigger] post.forwards@[k],
            ))
    &&& forall|k: int|
        pre.forwards@.len() <= k < post.forwards@.len() ==> spawn_covered(
            acts,
            #[trigger] post.forwards@[k],
        )
}

impl SfuState {
    /// The peer `uuid` has begun publishing a new remote track. Record it;
    /// then, for every peer in the table, reuse its outbound track of that
    /// kind or create one, and spawn exactly one forwarding worker per newly
    /// wired (remote track, outbound track) pair. Re-announcing a track that
    /// is already wired is idempotent: nothing is attached and nothing
    /// spawned. An unknown publisher drops the command.
    #[verifier::spinoff_prover]
    pub fn on_track(&mut self, uuid: String, track: RemoteTrack) -> (acts: Vec<Action>)
        ensures
            !old(self).spec_has_peer(uuid@) ==> *final(self) == *old(self) && acts@.len() == 0,
            old(self).wf() && publisher_has_ssrc(*old(self), uuid@, track.ssrc) ==> *final(self)
                == *old(self) && acts@.len() == 0,
            old(self).wf() && old(self).spec_has_peer(uuid@) && !publisher_has_ssrc(
                *old(self),
                uuid@,
                track.ssrc,
            ) && old(self).next_track_id + old(self).peers@.len() > u64::MAX ==> *final(self)
                == *old(self) && acts@.len() == 0,
            old(self).wf() && old(self).spec_has_peer(uuid@) && !publisher_has_ssrc(
                *old(self),
                uuid@,
                track.ssrc,
            ) && old(self).next_track_id + old(self).peers@.len() <= u64::MAX ==> on_track_state(
                *old(self),
                *final(self),
                old(self).spec_peer_index(uuid@),
                track,
            ) && on_track_actions(*old(self), *final(self), track, acts@),
            old(self).wf() ==> final(self).wf(),
    {
        let pi = match self.find_peer(&uuid) {
            None => {
                return Vec::new();
            },
            Some(i) => i,
        };
        if publishes_ssrc(&self.peers[pi], track.ssrc) {
            // The pair is already wired; a re-announcement changes nothing.
            return Vec::new();
        }
        let n64 = self.peers.len() as u64;
        if self.next_track_id > u64::MAX - n64 {
            // No track-id headroom left for the fan-out.
            return Vec::new();
        }
        let ghost pre = *self;
        self.peers[pi].published.push(track);
        let ghost mid = *self;
        let kind = track.kind;
        let mut acts: Vec<Action> = Vec::new();
        let n = self.peers.len();
        for j in 0..n
            invariant
                n == pre.peers@.len(),
                0 <= pi < n,
                n == self.peers@.len(),
                mid.peers@.len() == n,
                mid.forwards@ == pre.forwards@,
                mid.next_track_id == pre.next_track_id,
                forall|j2: int|
                    0 <= j2 < n && j2 != pi ==> #[trigger] mid.peers@[j2] == pre.peers@[j2],
                mid.peers@[pi as int].published@ == pre.peers@[pi as int].published@.push(track),
                mid.peers@[pi as int].uuid@ == pre.peers@[pi as int].uuid@,
                mid.peers@[pi as int].tx == pre.peers@[pi as int].tx,
                mid.peers@[pi as int].output_tracks == pre.peers@[pi as int].output_tracks,
                kind == track.kind,
                pre.peers@[pi as int].uuid@ == uuid@,
                pre.next_track_id + n <= u64::MAX,
                pre.next_track_id <= self.next_track_id,
                self.next_track_id as int <= pre.next_track_id as int + j,
                pre.forwards@.len() <= self.forwards@.len(),
                forall|k: int|
                    0 <= k < pre.forwards@.len() ==> #[trigger] self.forwards@[k]
                        == pre.forwards@[k],
                edges_distinct(pre.forwards@) ==> edges_distinct(self.forwards@),
                forall|j2: int| j <= j2 < n ==> #[trigger] self.peers@[j2] == mid.peers@[j2],
                forall|j2: int|
                    0 <= j2 < j ==> processed_peer(mid, *self, j2, kind, uuid@, track.ssrc),
                forall|j1: int, j2: int|
                    0 <= j1 < j2 < j && mid.peers@[j1].spec_output(kind) is None
                        && mid.peers@[j2].spec_output(kind) is None ==> (
                    #[trigger] self.peers@[j1].spec_output(kind)) != (
                    #[trigger] self.peers@[j2].spec_output(kind)),
                forall|k: int|
                    pre.forwards@.len() <= k < self.forwards@.len() ==> new_edge_form(
                        *self,
                        #[trigger] self.forwards@[k],
                        uuid@,
                        track.ssrc,
                        kind,
                        j as int,
                    ),
                forall|a: int|
                    0 <= a < acts@.len() ==> ((#[trigger] acts@[a])
                        matches Action::AttachOutputTrack { .. } || acts@[a]
                        matches Action::SpawnForwarder { .. }),
                forall|a: int|
                    0 <= a < acts@.len() ==> attach_sound(
                        mid,
                        *self,
                        #[trigger] acts@[a],
                        kind,
                        j as int,
                    ),
                forall|j2: int|
                    0 <= j2 < j && (#[trigger] mid.peers@[j2].spec_output(kind)) is None
                        ==> attach_covered(*self, acts@, j2, kind),
                forall|a: int|
                    0 <= a < acts@.len() ==> spawn_sound(
                        pre.forwards@.len() as int,
                        *self,
                        #[trigger] acts@[a],
                    ),
                forall|k: int|
                    pre.forwards@.len() <= k < self.forwards@.len() ==> spawn_covered(
                        acts@,
                        #[trigger] self.forwards@[k],
                    ),
        {
            let ghost st0 = *self;
            let ghost acts0 = acts@;
            let out = self.peers[j].output_tracks.get(kind);
            let ghost attach_at: int = acts0.len() as int;
            let dest = match out {
                Some(d) => d,
                None => {
                    let id = self.next_track_id;
                    self.next_track_id = id + 1;
                    self.peers[j].output_tracks.set(kind, id);
                    acts.push(
                        Action::AttachOutputTrack {
                            uuid: self.peers[j].uuid.clone(),
                            track: id,
                            kind,
                        },
                    );
                    id
                },
            };
            proof {
                assert(self.peers@[j as int].uuid@ == st0.peers@[j as int].uuid@);
                assert(self.peers@[j as int].spec_output(kind) == Some(dest));
                assert(forall|j2: int|
                    0 <= j2 < n && j2 != j ==> #[trigger] self.peers@[j2] == st0.peers@[j2]);
            }
            let ghost spawn_at: int = acts@.len() as int;
            let ghost fwds1 = self.forwards@;
            let had_edge = self.edge_exists(&uuid, track.ssrc, &self.peers[j].uuid, dest);
            if !had_edge {
                let e = ForwardEdge {
                    source_uuid: uuid.clone(),
                    source_ssrc: track.ssrc,
                    dest_uuid: self.peers[j].uuid.clone(),
                    dest_track: dest,
                    kind,
                };
                proof {
                    if edges_distinct(pre.forwards@) {
                        lemma_edges_distinct_push(self.forwards@, e);
                    }
                }
                self.forwards.push(e);
                acts.push(
                    Action::SpawnForwarder {
                        source_uuid: uuid.clone(),
                        source_ssrc: track.ssrc,
                        dest_uuid: self.peers[j].uuid.clone(),
                        dest_track: dest,
                        kind,
                    },
                );
                proof {
                    assert(self.forwards@[self.forwards@.len() - 1] == e);
                    assert(e.source_uuid@ == uuid@ && e.dest_uuid@ == self.peers@[j as int].uuid@);
                }
            }
            proof {
                let jj = j as int;
                let cur = *self;
                // Nothing below this row's pushes moved.
                assert(forall|i: int| 0 <= i < acts0.len() ==> #[trigger] acts@[i] == acts0[i]);
                assert(forall|i: int|
                    0 <= i < st0.forwards@.len() ==> #[trigger] cur.forwards@[i]
                        == st0.forwards@[i]);
                assert(seq_has_edge(
                    cur.forwards@,
                    uuid@,
                    track.ssrc,
                    cur.peers@[jj].uuid@,
                    dest,
                ));
                // Row j is now accounted for.
                assert(processed_peer(mid, cur, jj, kind, uuid@, track.ssrc)) by {
                    reveal(processed_peer);
                    assert(st0.peers@[jj] == mid.peers@[jj]);
                }
                // Earlier rows keep their facts; only the edge set grew.
                assert forall|j2: int| 0 <= j2 < jj implies processed_peer(
                    mid,
                    cur,
                    j2,
                    kind,
                    uuid@,
                    track.ssrc,
                ) by {
                    reveal(processed_peer);
                    assert(processed_peer(mid, st0, j2, kind, uuid@, track.ssrc));
                    assert(cur.peers@[j2] == st0.peers@[j2]);
                    lemma_seq_has_edge_extend(
                        st0.forwards@,
                        cur.forwards@,
                        uuid@,
                        track.ssrc,
                        st0.peers@[j2].uuid@,
                        st0.peers@[j2].spec_output(kind)->Some_0,
                    );
                }
                // Fresh ids allocated in earlier rows are below this row's.
                assert forall|j1: int, j2: int|
                    0 <= j1 < j2 < jj + 1 && mid.peers@[j1].spec_output(kind) is None
                        && mid.peers@[j2].spec_output(kind) is None implies (
                #[trigger] cur.peers@[j1].spec_output(kind)) != (
                #[trigger] cur.peers@[j2].spec_output(kind)) by {
                    if j2 == jj {
                        reveal(processed_peer);
                        assert(processed_peer(mid, st0, j1, kind, uuid@, track.ssrc));
                        assert(st0.peers@[j1].spec_output(kind)->Some_0 < st0.next_track_id);
                        assert(cur.peers@[j1] == st0.peers@[j1]);
                    }
                }
                // Every wired edge still has the fan-out shape.
                assert forall|k: int|
                    pre.forwards@.len() <= k < cur.forwards@.len() implies new_edge_form(
                    cur,
                    #[trigger] cur.forwards@[k],
                    uuid@,
                    track.ssrc,
                    kind,
                    jj + 1,
                ) by {
                    reveal(new_edge_form);
                    if k < st0.forwards@.len() {
                        assert(new_edge_form(st0, st0.forwards@[k], uuid@, track.ssrc, kind, jj));
                        let e = st0.forwards@[k];
                        let j2 = choose|j2: int|
                            0 <= j2 < jj && (#[trigger] st0.peers@[j2]).uuid@ == e.dest_uuid@
                                && st0.peers@[j2].spec_output(kind) == Some(e.dest_track);
                        assert(cur.peers@[j2] == st0.peers@[j2]);
                        assert(cur.forwards@[k] == e);
                    } else {
                        assert((#[trigger] cur.peers@[jj]).uuid@ == cur.forwards@[k].dest_uuid@
                            && cur.peers@[jj].spec_output(kind) == Some(
                            cur.forwards@[k].dest_track,
                        ));
                    }
                }
                // Attach actions: the old ones still name their rows; a new
                // one names this row.
                assert forall|a: int| 0 <= a < acts@.len() implies attach_sound(
                    mid,
                    cur,
                    #[trigger] acts@[a],
                    kind,
                    jj + 1,
                ) by {
                    reveal(attach_sound);
                    if a < acts0.len() {
                        assert(attach_sound(mid, st0, acts0[a], kind, jj));
                        match acts0[a] {
                            Action::AttachOutputTrack { uuid: u, track: tr, .. } => {
                                let j2 = choose|j2: int|
                                    0 <= j2 < jj && mid.peers@[j2].spec_output(kind) is None && (
                                    #[trigger] st0.peers@[j2]).uuid@ == u@ && st0.peers@[
                                        j2
                                    ].spec_output(kind) == Some(tr);
                                assert(cur.peers@[j2] == st0.peers@[j2]);
                            },
                            _ => {},
                        }
                    } else if a == attach_at && acts@.len() > attach_at && st0.peers@[
                        jj
                    ].spec_output(kind) is None {
                        assert(mid.peers@[jj].spec_output(kind) is None);
                        assert((#[trigger] cur.peers@[jj]).spec_output(kind) == Some(dest));
                    }
                }
                assert forall|j2: int|
                    0 <= j2 < jj + 1 && (#[trigger] mid.peers@[j2].spec_output(
                        kind,
                    )) is None implies attach_covered(cur, acts@, j2, kind) by {
                    reveal(attach_covered);
                    if j2 < jj {
                        assert(attach_covered(st0, acts0, j2, kind));
                        let a = choose|a: int|
                            0 <= a < acts0.len() && ((#[trigger] acts0[a])
                                matches Action::AttachOutputTrack { uuid: u, track: tr, kind: k }
                                && u@ == st0.peers@[j2].uuid@ && Some(tr) == st0.peers@[
                                j2
                            ].spec_output(kind) && k == kind);
                        assert(acts@[a] == acts0[a]);
                        assert(cur.peers@[j2] == st0.peers@[j2]);
                    } else {
                        assert(st0.peers@[jj] == mid.peers@[jj]);
                        assert(acts@[attach_at] matches Action::AttachOutputTrack { .. });
                    }
                }
                // Spawn actions: the old ones still match their edges; a new
                // one matches the pushed edge.
                assert forall|a: int| 0 <= a < acts@.len() implies spawn_sound(
                    pre.forwards@.len() as int,
                    cur,
                    #[trigger] acts@[a],
                ) by {
                    reveal(spawn_sound);
                    if a < acts0.len() {
                        assert(spawn_sound(pre.forwards@.len() as int, st0, acts0[a]));
                        match acts0[a] {
                            Action::SpawnForwarder { .. } => {
                                let k = choose|k: int|
                                    pre.forwards@.len() <= k < st0.forwards@.len()
                                        && spawn_matches(acts0[a], #[trigger] st0.forwards@[k]);
                                assert(cur.forwards@[k] == st0.forwards@[k]);
                            },
                            _ => {},
                        }
                    } else if a >= spawn_at && acts@.len() > spawn_at {
                        assert(spawn_matches(acts@[a], cur.forwards@[cur.forwards@.len() - 1]));
                    }
                }
                assert forall|k: int|
                    pre.forwards@.len() <= k < cur.forwards@.len() implies spawn_covered(
                    acts@,
                    #[trigger] cur.forwards@[k],
                ) by {
                    reveal(spawn_covered);
                    if k < st0.forwards@.len() {
                        assert(spawn_covered(acts0, st0.forwards@[k]));
                        let a = choose|a: int|
                            0 <= a < acts0.len() && spawn_matches(
                                #[trigger] acts0[a],
                                st0.forwards@[k],
                            );
                        assert(acts@[a] == acts0[a]);
                        assert(cur.forwards@[k] == st0.forwards@[k]);
                    } else {
                        assert(spawn_matches(acts@[acts@.len() - 1], cur.forwards@[k]));
                    }
                }
            }
        }
        proof {
            lemma_on_track_finish_state(pre, mid, *self, uuid@, track, pi as int);
            lemma_on_track_finish_actions(pre, mid, *self, acts@, uuid@, track, pi as int);
            if pre.wf() {
                assert(pre.spec_peer_index(uuid@) == pi as int) by {
                    let ix = pre.spec_peer_index(uuid@);
                    assert(0 <= ix < pre.peers@.len() && pre.peers@[ix].uuid@ == uuid@);
                    if ix < pi as int {
                        assert(pre.peers@[ix].uuid@ != pre.peers@[pi as int].uuid@);
                    }
                    if ix > pi as int {
                        assert(pre.peers@[pi as int].uuid@ != pre.peers@[ix].uuid@);
                    }
                }
                assert(!pre.peers@[pi as int].publishes_ssrc(track.ssrc));
                lemma_on_track_wf(pre, *self, pi as int, track);
            }
        }
        acts
    }
}

/// What the fan-out loop leaves of peer `j2` once its row is done: identity
/// kept, this kind's slot filled (kept if it was there, fresh otherwise),
/// the other kind untouched, and the announced track wired into the slot.
#[verifier::opaque]
pub open spec fn processed_peer(
    mid: SfuState,
    cur: SfuState,
    j2: int,
    kind: MediaKind,
    uuid: Seq<char>,
    ssrc: u32,
) -> bool {
    let p0 = mid.peers@[j2];
    let p1 = cur.peers@[j2];
    &&& p1.uuid@ == p0.uuid@
    &&& p1.tx == p0.tx
    &&& p1.published@ == p0.published@
    &&& p1.spec_output(kind) is Some
    &&& (p0.spec_output(kind) is Some ==> p1.spec_output(kind) == p0.spec_output(kind))
    &&& (p0.spec_output(kind) is None ==> mid.next_track_id <= p1.spec_output(kind)->Some_0
        < cur.next_track_id)
    &&& forall|k: MediaKind| k != kind ==> #[trigger] p1.spec_output(k) == p0.spec_output(k)
    &&& seq_has_edge(cur.forwards@, uuid, ssrc, p1.uuid@, p1.spec_output(kind)->Some_0)
}

/// A freshly wired edge of the fan-out: it carries the announced track into
/// the outbound slot of one of the first `j` peers.
#[verifier::opaque]
pub open spec fn new_edge_form(
    cur: SfuState,
    e: ForwardEdge,
    uuid: Seq<char>,
    ssrc: u32,
    kind: MediaKind,
    j: int,
) -> bool {
    &&& e.source_uuid@ == uuid
    &&& e.source_ssrc == ssrc
    &&& e.kind == kind
    &&& exists|j2: int|
        0 <= j2 < j && (#[trigger] cur.peers@[j2]).uuid@ == e.dest_uuid@
            && cur.peers@[j2].spec_output(kind) == Some(e.dest_track)
}

/// An attach action of the fan-out names one of the first `j` peers, one
/// that lacked the kind, under the id now in its slot.
#[verifier::opaque]
pub open spec fn attach_sound(
    mid: SfuState,
    cur: SfuState,
    a: Action,
    kind: MediaKind,
    j: int,
) -> bool {
    a matches Action::AttachOutputTrack { uuid: u, track: tr, kind: k } ==> k == kind && exists|
        j2: int,
    |
        0 <= j2 < j && mid.peers@[j2].spec_output(kind) is None && (
        #[trigger] cur.peers@[j2]).uuid@ == u@ && cur.peers@[j2].spec_output(kind) == Some(tr)
}

/// Some action of the list attaches peer `j2`'s new outbound track.
#[verifier::opaque]
pub open spec fn attach_covered(
    cur: SfuState,
    acts: Seq<Action>,
    j2: int,
    kind: MediaKind,
) -> bool {
    exists|a: int|
        0 <= a < acts.len() && ((#[trigger] acts[a]) matches Action::AttachOutputTrack {
            uuid: u,
            track: tr,
            kind: k,
        } && u@ == cur.peers@[j2].uuid@ && Some(tr) == cur.peers@[j2].spec_output(kind) && k
            == kind)
}

/// A spawn action of the fan-out matches one of the newly wired edges.
#[verifier::opaque]
pub open spec fn spawn_sound(base: int, cur: SfuState, a: Action) -> bool {
    a matches Action::SpawnForwarder { .. } ==> exists|k: int|
        base <= k < cur.forwards@.len() && spawn_matches(a, #[trigger] cur.forwards@[k])
}

/// Some action of the list spawns the worker for this edge.
#[verifier::opaque]
pub open spec fn spawn_covered(acts: Seq<Action>, e: ForwardEdge) -> bool {
    exists|a: int| 0 <= a < acts.len() && spawn_matches(#[trigger] acts[a], e)
}

/// Once every row is done, the loop's facts amount to the command's
/// state transition.
#[verifier::rlimit(100)]
#[verifier::spinoff_prover]
proof fn lemma_on_track_finish_state(
    pre: SfuState,
    mid: SfuState,
    post: SfuState,
    uuid: Seq<char>,
    t: RemoteTrack,
    pi: int,
)
    requires
        0 <= pi < pre.peers@.len(),
        post.peers@.len() == pre.peers@.len(),
        mid.peers@.len() == pre.peers@.len(),
        mid.forwards@ == pre.forwards@,
        mid.next_track_id == pre.next_track_id,
        forall|j2: int|
            0 <= j2 < pre.peers@.len() && j2 != pi ==> #[trigger] mid.peers@[j2]
                == pre.peers@[j2],
        mid.peers@[pi].published@ == pre.peers@[pi].published@.push(t),
        mid.peers@[pi].uuid@ == pre.peers@[pi].uuid@,
        mid.peers@[pi].tx == pre.peers@[pi].tx,
        mid.peers@[pi].output_tracks == pre.peers@[pi].output_tracks,
        pre.peers@[pi].uuid@ == uuid,
        pre.next_track_id <= post.next_track_id,
        pre.forwards@.len() <= post.forwards@.len(),
        forall|k: int|
            0 <= k < pre.forwards@.len() ==> #[trigger] post.forwards@[k] == pre.forwards@[k],
        forall|j2: int|
            0 <= j2 < post.peers@.len() ==> processed_peer(mid, post, j2, t.kind, uuid, t.ssrc),
        forall|j1: int, j2: int|
            0 <= j1 < j2 < post.peers@.len() && mid.peers@[j1].spec_output(t.kind) is None
                && mid.peers@[j2].spec_output(t.kind) is None ==> (
            #[trigger] post.peers@[j1].spec_output(t.kind)) != (
            #[trigger] post.peers@[j2].spec_output(t.kind)),
        forall|k: int|
            pre.forwards@.len() <= k < post.forwards@.len() ==> new_edge_form(
                post,
                #[trigger] post.forwards@[k],
                uuid,
                t.ssrc,
                t.kind,
                post.peers@.len() as int,
            ),
    ensures
        on_track_state(pre, post, pi, t),
{
    let n = pre.peers@.len() as int;
    assert forall|j: int| 0 <= j < n implies {
        let p0 = pre.peers@[j];
        let p1 = #[trigger] post.peers@[j];
        &&& p1.uuid@ == p0.uuid@
        &&& p1.tx == p0.tx
        &&& p1.published@ == if j == pi {
            p0.published@.push(t)
        } else {
            p0.published@
        }
        &&& p1.spec_output(t.kind) is Some
        &&& (p0.spec_output(t.kind) is Some ==> p1.spec_output(t.kind) == p0.spec_output(t.kind))
        &&& (p0.spec_output(t.kind) is None ==> pre.next_track_id <= p1.spec_output(
            t.kind,
        )->Some_0 < post.next_track_id)
        &&& forall|k: MediaKind| k != t.kind ==> #[trigger] p1.spec_output(k) == p0.spec_output(k)
    } by {
        assert(processed_peer(mid, post, j, t.kind, uuid, t.ssrc));
        reveal(processed_peer);
        if j != pi {
            assert(mid.peers@[j] == pre.peers@[j]);
        }
    }
    assert forall|j1: int, j2: int|
        0 <= j1 < n && 0 <= j2 < n && j1 != j2 && pre.peers@[j1].spec_output(t.kind) is None
            && pre.peers@[j2].spec_output(t.kind) is None implies (
    #[trigger] post.peers@[j1].spec_output(t.kind)) != (
    #[trigger] post.peers@[j2].spec_output(t.kind)) by {
        assert(mid.peers@[j1].output_tracks == pre.peers@[j1].output_tracks);
        assert(mid.peers@[j2].output_tracks == pre.peers@[j2].output_tracks);
    }
    assert forall|k: int| pre.forwards@.len() <= k < post.forwards@.len() implies {
        let e = #[trigger] post.forwards@[k];
        &&& e.source_uuid@ == pre.peers@[pi].uuid@
        &&& e.source_ssrc == t.ssrc
        &&& e.kind == t.kind
        &&& exists|j: int|
            0 <= j < post.peers@.len() && (#[trigger] post.peers@[j]).uuid@ == e.dest_uuid@
                && post.peers@[j].spec_output(t.kind) == Some(e.dest_track)
    } by {
        assert(new_edge_form(post, post.forwards@[k], uuid, t.ssrc, t.kind, n));
        reveal(new_edge_form);
    }
    assert forall|j: int| 0 <= j < n implies seq_has_edge(
        post.forwards@,
        pre.peers@[pi].uuid@,
        t.ssrc,
        (#[trigger] post.peers@[j]).uuid@,
        post.peers@[j].spec_output(t.kind)->Some_0,
    ) by {
        assert(processed_peer(mid, post, j, t.kind, uuid, t.ssrc));
        reveal(processed_peer);
    }
}

/// Once every row is done, the loop's action facts amount to the command's
/// action contract.
#[verifier::rlimit(100)]
#[verifier::spinoff_prover]
proof fn lemma_on_track_finish_actions(
    pre: SfuState,
    mid: SfuState,
    post: SfuState,
    acts: Seq<Action>,
    uuid: Seq<char>,
    t: RemoteTrack,
    pi: int,
)
    requires
        0 <= pi < pre.peers@.len(),
        post.peers@.len() == pre.peers@.len(),
        mid.peers@.len() == pre.peers@.len(),
        forall|j2: int|
            0 <= j2 < pre.peers@.len() && j2 != pi ==> #[trigger] mid.peers@[j2]
                == pre.peers@[j2],
        mid.peers@[pi].output_tracks == pre.peers@[pi].output_tracks,
        pre.forwards@.len() <= post.forwards@.len(),
        forall|a: int|
            0 <= a < acts.len() ==> ((#[trigger] acts[a]) matches Action::AttachOutputTrack { .. }
                || acts[a] matches Action::SpawnForwarder { .. }),
        forall|a: int|
            0 <= a < acts.len() ==> attach_sound(
                mid,
                post,
                #[trigger] acts[a],
                t.kind,
                post.peers@.len() as int,
            ),
        forall|j2: int|
            0 <= j2 < post.peers@.len() && (#[trigger] mid.peers@[j2].spec_output(
                t.kind,
            )) is None ==> attach_covered(post, acts, j2, t.kind),
        forall|a: int|
            0 <= a < acts.len() ==> spawn_sound(
                pre.forwards@.len() as int,
                post,
                #[trigger] acts[a],
            ),
        forall|k: int|
            pre.forwards@.len() <= k < post.forwards@.len() ==> spawn_covered(
                acts,
                #[trigger] post.forwards@[k],
            ),
    ensures
        on_track_actions(pre, post, t, acts),
{
    let n = pre.peers@.len() as int;
    assert forall|a: int| 0 <= a < acts.len() implies ((#[trigger] acts[a])
        matches Action::AttachOutputTrack { uuid: u, track: tr, kind: k } ==> k == t.kind
        && exists|j: int|
            0 <= j < post.peers@.len() && pre.peers@[j].spec_output(t.kind) is None && (
            #[trigger] post.peers@[j]).uuid@ == u@ && post.peers@[j].spec_output(t.kind) == Some(
                tr,
            )) by {
        assert(attach_sound(mid, post, acts[a], t.kind, n));
        reveal(attach_sound);
        match acts[a] {
            Action::AttachOutputTrack { uuid: u, track: tr, .. } => {
                let j2 = choose|j2: int|
                    0 <= j2 < n && mid.peers@[j2].spec_output(t.kind) is None && (
                    #[trigger] post.peers@[j2]).uuid@ == u@ && post.peers@[j2].spec_output(t.kind)
                        == Some(tr);
                assert(mid.peers@[j2].output_tracks == pre.peers@[j2].output_tracks);
            },
            _ => {},
        }
    }
    assert forall|j: int|
        0 <= j < n && (#[trigger] pre.peers@[j].spec_output(t.kind)) is None implies exists|
        a: int,
    |
        0 <= a < acts.len() && ((#[trigger] acts[a]) matches Action::AttachOutputTrack {
            uuid: u,
            track: tr,
            kind: k,
        } && u@ == post.peers@[j].uuid@ && Some(tr) == post.peers@[j].spec_output(t.kind) && k
            == t.kind) by {
        assert(mid.peers@[j].output_tracks == pre.peers@[j].output_tracks);
        assert(mid.peers@[j].spec_output(t.kind) is None);
        assert(attach_covered(post, acts, j, t.kind));
        reveal(attach_covered);
    }
    assert forall|a: int| 0 <= a < acts.len() implies ((#[trigger] acts[a])
        matches Action::SpawnForwarder { .. } ==> exists|k: int|
        pre.forwards@.len() <= k < post.forwards@.len() && spawn_matches(
            acts[a],
            #[trigger] post.forwards@[k],
        )) by {
        assert(spawn_sound(pre.forwards@.len() as int, post, acts[a]));
        reveal(spawn_sound);
    }
}

/// A track announcement preserves the coordinator's invariant.
proof fn lemma_on_track_wf(pre: SfuState, post: SfuState, pi: int, t: RemoteTrack)
    requires
        pre.wf(),
        !pre.peers@[pi].publishes_ssrc(t.ssrc),
        on_track_state(pre, post, pi, t),
        edges_distinct(post.forwards@),
    ensures
        post.wf(),
{
    lemma_on_track_peers_wf(pre, post, pi, t);
    lemma_on_track_edges_wf(pre, post, pi, t);
    lemma_on_track_mesh(pre, post, pi, t);
}

/// The peer-table conjuncts of the invariant after a track announcement.
#[verifier::spinoff_prover]
proof fn lemma_on_track_peers_wf(pre: SfuState, post: SfuState, pi: int, t: RemoteTrack)
    requires
        pre.uuids_unique(),
        pre.tracks_bounded(),
        pre.tracks_unique(),
        pre.published_unique(),
        !pre.peers@[pi].publishes_ssrc(t.ssrc),
        0 <= pi < pre.peers@.len(),
        post.peers@.len() == pre.peers@.len(),
        pre.next_track_id <= post.next_track_id,
        forall|j: int|
            0 <= j < post.peers@.len() ==> {
                let p0 = pre.peers@[j];
                let p1 = #[trigger] post.peers@[j];
                &&& p1.uuid@ == p0.uuid@
                &&& p1.published@ == if j == pi {
                    p0.published@.push(t)
                } else {
                    p0.published@
                }
                &&& p1.spec_output(t.kind) is Some
                &&& (p0.spec_output(t.kind) is Some ==> p1.spec_output(t.kind) == p0.spec_output(
                    t.kind,
                ))
                &&& (p0.spec_output(t.kind) is None ==> pre.next_track_id <= p1.spec_output(
                    t.kind,
                )->Some_0 < post.next_track_id)
                &&& forall|k: MediaKind|
                    k != t.kind ==> #[trigger] p1.spec_output(k) == p0.spec_output(k)
            },
        forall|j1: int, j2: int|
            0 <= j1 < post.peers@.len() && 0 <= j2 < post.peers@.len() && j1 != j2
                && pre.peers@[j1].spec_output(t.kind) is None && pre.peers@[j2].spec_output(
                t.kind,
            ) is None ==> (#[trigger] post.peers@[j1].spec_output(t.kind)) != (
            #[trigger] post.peers@[j2].spec_output(t.kind)),
    ensures
        post.uuids_unique(),
        post.tracks_bounded(),
        post.tracks_unique(),
        post.published_unique(),
{
    assert(post.uuids_unique());
    assert forall|i: int, k: MediaKind|
        0 <= i < post.peers@.len() && (#[trigger] post.peers@[i].spec_output(k)) is Some implies
        post.peers@[i].spec_output(k)->Some_0 < post.next_track_id by {
        if k == t.kind {
            if pre.peers@[i].spec_output(k) is Some {
                assert(pre.peers@[i].spec_output(k)->Some_0 < pre.next_track_id);
            }
        } else {
            assert(post.peers@[i].spec_output(k) == pre.peers@[i].spec_output(k));
            if pre.peers@[i].spec_output(k) is Some {
                assert(pre.peers@[i].spec_output(k)->Some_0 < pre.next_track_id);
            }
        }
    }
    assert forall|i: int, j: int, k1: MediaKind, k2: MediaKind|
        0 <= i < post.peers@.len() && 0 <= j < post.peers@.len() && (i != j || k1 != k2) && (
        #[trigger] post.peers@[i].spec_output(k1)) is Some && (
        #[trigger] post.peers@[j].spec_output(k2)) is Some implies post.peers@[i].spec_output(
        k1,
    )->Some_0 != post.peers@[j].spec_output(k2)->Some_0 by {
        let o1 = post.peers@[i].spec_output(k1);
        let o2 = post.peers@[j].spec_output(k2);
        let fresh1 = k1 == t.kind && pre.peers@[i].spec_output(k1) is None;
        let fresh2 = k2 == t.kind && pre.peers@[j].spec_output(k2) is None;
        if !fresh1 && !fresh2 {
            assert(o1 == pre.peers@[i].spec_output(k1));
            assert(o2 == pre.peers@[j].spec_output(k2));
        } else if fresh1 && fresh2 {
            assert(k1 == k2 && i != j);
        } else if fresh1 {
            assert(o2 == pre.peers@[j].spec_output(k2));
            assert(o2->Some_0 < pre.next_track_id);
            assert(o1->Some_0 >= pre.next_track_id);
        } else {
            assert(o1 == pre.peers@[i].spec_output(k1));
            assert(o1->Some_0 < pre.next_track_id);
            assert(o2->Some_0 >= pre.next_track_id);
        }
    }
    assert forall|i: int, a: int, b: int|
        0 <= i < post.peers@.len() && 0 <= a < b < post.peers@[i].published@.len() implies (
    #[trigger] post.peers@[i].published@[a]).ssrc != (
    #[trigger] post.peers@[i].published@[b]).ssrc by {
        if i == pi {
            let old_pub = pre.peers@[pi].published@;
            if b < old_pub.len() {
                assert(post.peers@[i].published@[a] == old_pub[a]);
                assert(post.peers@[i].published@[b] == old_pub[b]);
            } else {
                assert(post.peers@[i].published@[b] == t);
                assert(post.peers@[i].published@[a] == old_pub[a]);
                assert(!pre.peers@[pi].publishes_ssrc(t.ssrc));
                assert(old_pub[a].ssrc != t.ssrc);
            }
        } else {
            assert(post.peers@[i].published@ == pre.peers@[i].published@);
        }
    }
}

/// Every edge after a track announcement is well-targeted.
#[verifier::spinoff_prover]
proof fn lemma_on_track_edges_wf(pre: SfuState, post: SfuState, pi: int, t: RemoteTrack)
    requires
        pre.edges_wf(),
        on_track_state(pre, post, pi, t),
    ensures
        post.edges_wf(),
{
    lemma_on_track_edges_src(pre, post, pi, t);
    lemma_on_track_edges_dst(pre, post, pi, t);
}

/// After a track announcement, every edge's source is still a published
/// track of a peer in the table.
#[verifier::spinoff_prover]
#[verifier::rlimit(100)]
proof fn lemma_on_track_edges_src(pre: SfuState, post: SfuState, pi: int, t: RemoteTrack)
    requires
        pre.edges_wf(),
        0 <= pi < pre.peers@.len(),
        post.peers@.len() == pre.peers@.len(),
        forall|j: int|
            0 <= j < post.peers@.len() ==> ((#[trigger] post.peers@[j]).uuid@
                == pre.peers@[j].uuid@ && post.peers@[j].published@ == if j == pi {
                pre.peers@[j].published@.push(t)
            } else {
                pre.peers@[j].published@
            }),
        forall|k: int|
            0 <= k < pre.forwards@.len() ==> #[trigger] post.forwards@[k] == pre.forwards@[k],
        pre.forwards@.len() <= post.forwards@.len(),
        forall|k: int|
            pre.forwards@.len() <= k < post.forwards@.len() ==> ((
            #[trigger] post.forwards@[k]).source_uuid@ == pre.peers@[pi].uuid@
                && post.forwards@[k].source_ssrc == t.ssrc && post.forwards@[k].kind == t.kind),
    ensures
        forall|k: int|
            0 <= k < post.forwards@.len() ==> exists|qi: int, ti: int|
                0 <= qi < post.peers@.len() && 0 <= ti < post.peers@[qi].published@.len()
                    && post.peers@[qi].uuid@ == (#[trigger] post.forwards@[k]).source_uuid@ && (
                #[trigger] post.peers@[qi].published@[ti]) == (RemoteTrack {
                    ssrc: post.forwards@[k].source_ssrc,
                    kind: post.forwards@[k].kind,
                }),
{
    assert forall|k: int| 0 <= k < post.forwards@.len() implies exists|qi: int, ti: int|
        0 <= qi < post.peers@.len() && 0 <= ti < post.peers@[qi].published@.len()
            && post.peers@[qi].uuid@ == (#[trigger] post.forwards@[k]).source_uuid@ && (
        #[trigger] post.peers@[qi].published@[ti]) == (RemoteTrack {
            ssrc: post.forwards@[k].source_ssrc,
            kind: post.forwards@[k].kind,
        }) by {
        let e = post.forwards@[k];
        if k < pre.forwards@.len() {
            assert(e == pre.forwards@[k]);
            let (qi, ti): (int, int) = choose|qi: int, ti: int|
                0 <= qi < pre.peers@.len() && 0 <= ti < pre.peers@[qi].published@.len()
                    && pre.peers@[qi].uuid@ == e.source_uuid@ && (
                #[trigger] pre.peers@[qi].published@[ti]) == (RemoteTrack {
                    ssrc: e.source_ssrc,
                    kind: e.kind,
                });
            // The publisher's list only grew, so the source index is intact.
            assert(post.peers@[qi].published@[ti] == pre.peers@[qi].published@[ti]);
            assert(post.peers@[qi].uuid@ == e.source_uuid@);
        } else {
            // A new edge: its source is the announced track on the publisher.
            assert(post.peers@[pi].published@.last() == t);
            let ti = post.peers@[pi].published@.len() - 1;
            assert(post.peers@[pi].published@[ti] == (RemoteTrack {
                ssrc: e.source_ssrc,
                kind: e.kind,
            }));
            assert(post.peers@[pi].uuid@ == e.source_uuid@);
        }
    }
}

/// After a track announcement, every edge's destination is still an
/// attached outbound track of a peer in the table.
#[verifier::spinoff_prover]
#[verifier::rlimit(100)]
proof fn lemma_on_track_edges_dst(pre: SfuState, post: SfuState, pi: int, t: RemoteTrack)
    requires
        pre.edges_wf(),
        post.peers@.len() == pre.peers@.len(),
        forall|j: int|
            0 <= j < post.peers@.len() ==> ((#[trigger] post.peers@[j]).uuid@
                == pre.peers@[j].uuid@ && (pre.peers@[j].spec_output(t.kind) is Some
                ==> post.peers@[j].spec_output(t.kind) == pre.peers@[j].spec_output(t.kind))
                && forall|k: MediaKind|
                k != t.kind ==> #[trigger] post.peers@[j].spec_output(k)
                    == pre.peers@[j].spec_output(k)),
        forall|k: int|
            0 <= k < pre.forwards@.len() ==> #[trigger] post.forwards@[k] == pre.forwards@[k],
        pre.forwards@.len() <= post.forwards@.len(),
        forall|k: int|
            pre.forwards@.len() <= k < post.forwards@.len() ==> ((#[trigger] post.forwards@[k]).kind
                == t.kind && exists|j: int|
                0 <= j < post.peers@.len() && (#[trigger] post.peers@[j]).uuid@
                    == post.forwards@[k].dest_uuid@ && post.peers@[j].spec_output(t.kind) == Some(
                    post.forwards@[k].dest_track,
                )),
    ensures
        forall|k: int|
            0 <= k < post.forwards@.len() ==> exists|pj: int|
                0 <= pj < post.peers@.len() && (#[trigger] post.peers@[pj]).uuid@ == (
                #[trigger] post.forwards@[k]).dest_uuid@ && post.peers@[pj].spec_output(
                    post.forwards@[k].kind,
                ) == Some(post.forwards@[k].dest_track),
{
    assert forall|k: int| 0 <= k < post.forwards@.len() implies exists|pj: int|
        0 <= pj < post.peers@.len() && (#[trigger] post.peers@[pj]).uuid@ == (
        #[trigger] post.forwards@[k]).dest_uuid@ && post.peers@[pj].spec_output(
        post.forwards@[k].kind,
    ) == Some(post.forwards@[k].dest_track) by {
        let e = post.forwards@[k];
        if k < pre.forwards@.len() {
            assert(e == pre.forwards@[k]);
            let pj = choose|pj: int|
                0 <= pj < pre.peers@.len() && (#[trigger] pre.peers@[pj]).uuid@ == e.dest_uuid@
                    && pre.peers@[pj].spec_output(e.kind) == Some(e.dest_track);
            // The destination slot was kept, whatever the kind.
            if e.kind == t.kind {
                assert(post.peers@[pj].spec_output(e.kind) == pre.peers@[pj].spec_output(e.kind));
            } else {
                assert(post.peers@[pj].spec_output(e.kind) == pre.peers@[pj].spec_output(e.kind));
            }
        }
    }
}

/// Full-mesh coverage after a track announcement.
#[verifier::spinoff_prover]
proof fn lemma_on_track_mesh(pre: SfuState, post: SfuState, pi: int, t: RemoteTrack)
    requires
        pre.mesh(),
        0 <= pi < pre.peers@.len(),
        post.peers@.len() == pre.peers@.len(),
        pre.forwards@.len() <= post.forwards@.len(),
        forall|k: int|
            0 <= k < pre.forwards@.len() ==> #[trigger] post.forwards@[k] == pre.forwards@[k],
        forall|j: int|
            0 <= j < post.peers@.len() ==> {
                let p0 = pre.peers@[j];
                let p1 = #[trigger] post.peers@[j];
                &&& p1.uuid@ == p0.uuid@
                &&& p1.published@ == if j == pi {
                    p0.published@.push(t)
                } else {
                    p0.published@
                }
                &&& p1.spec_output(t.kind) is Some
                &&& (p0.spec_output(t.kind) is Some ==> p1.spec_output(t.kind) == p0.spec_output(
                    t.kind,
                ))
                &&& forall|k: MediaKind|
                    k != t.kind ==> #[trigger] p1.spec_output(k) == p0.spec_output(k)
            },
        forall|j: int|
            0 <= j < post.peers@.len() ==> seq_has_edge(
                post.forwards@,
                pre.peers@[pi].uuid@,
                t.ssrc,
                (#[trigger] post.peers@[j]).uuid@,
                post.peers@[j].spec_output(t.kind)->Some_0,
            ),
    ensures
        post.mesh(),
{
    assert forall|qi: int, ti: int, pj: int|
        #![trigger post.peers@[qi].published@[ti], post.peers@[pj]]
        0 <= qi < post.peers@.len() && 0 <= ti < post.peers@[qi].published@.len() && 0 <= pj
            < post.peers@.len() implies {
        let tr = post.peers@[qi].published@[ti];
        let p = post.peers@[pj];
        p.spec_output(tr.kind) is Some && post.spec_has_edge(
            post.peers@[qi].uuid@,
            tr.ssrc,
            p.uuid@,
            p.spec_output(tr.kind)->Some_0,
        )
    } by {
        let tr = post.peers@[qi].published@[ti];
        let p = post.peers@[pj];
        if qi == pi && ti == pre.peers@[pi].published@.len() {
            // The announced track: wired by the fan-out itself.
            assert(tr == t);
            assert(p.spec_output(t.kind) is Some);
            assert(seq_has_edge(
                post.forwards@,
                pre.peers@[pi].uuid@,
                t.ssrc,
                p.uuid@,
                p.spec_output(t.kind)->Some_0,
            ));
            assert(post.peers@[qi].uuid@ == pre.peers@[pi].uuid@);
        } else {
            // An old track: its kind's outbound slots were all kept, and
            // the old edge still stands.
            assert(tr == pre.peers@[qi].published@[ti]);
            assert(pre.peers@[pj].spec_output(tr.kind) is Some);
            assert(p.spec_output(tr.kind) == pre.peers@[pj].spec_output(tr.kind));
            assert(pre.spec_has_edge(
                pre.peers@[qi].uuid@,
                tr.ssrc,
                pre.peers@[pj].uuid@,
                pre.peers@[pj].spec_output(tr.kind)->Some_0,
            ));
            lemma_seq_has_edge_extend(
                pre.forwards@,
                post.forwards@,
                pre.peers@[qi].uuid@,
                tr.ssrc,
                pre.peers@[pj].uuid@,
                pre.peers@[pj].spec_output(tr.kind)->Some_0,
            );
            assert(post.peers@[qi].uuid@ == pre.peers@[qi].uuid@);
        }
    }
}

} // verus!
