//! Peer teardown: removing an entry from the table and unwiring the
//! forwarding edges that touch it.

use vstd::prelude::*;
use crate::coordinator::Action;
use crate::peer::{MediaKind, Peer, RemoteTrack};
use crate::state::{edges_distinct, seq_has_edge, ForwardEdge, SfuState};

verus! {

impl SfuState {
    /// This peer's signaling channel closed, or its connection reached a
    /// terminal state: drop its entry, unwire every forwarding edge that
    /// reads from or writes to it, and close its connection. The workers on
    /// those edges observe the closed pipe and exit. An unknown peer drops
    /// the command.
    #[verifier::spinoff_prover]
    pub fn peer_leave(&mut self, uuid: String) -> (acts: Vec<Action>)
        ensures
            old(self).spec_has_peer(uuid@) ==> {
                &&& exists|i: int|
                    0 <= i < old(self).peers@.len() && (#[trigger] old(self).peers@[i]).uuid@
                        == uuid@ && final(self).peers@ == old(self).peers@.remove(i)
                &&& final(self).forwards@ == survives_filter(old(self).forwards@, uuid@)
                &&& forall|k: int|
                    0 <= k < final(self).forwards@.len() ==> edge_survives(
                        #[trigger] final(self).forwards@[k],
                        uuid@,
                    )
                &&& final(self).next_track_id == old(self).next_track_id
                &&& acts@.len() == 1 && (acts@[0] matches Action::ClosePeerConnection {
                    uuid: u,
                } && u@ == uuid@)
            },
            !old(self).spec_has_peer(uuid@) ==> *final(self) == *old(self) && acts@.len() == 0,
            old(self).wf() && old(self).spec_has_peer(uuid@) ==> !final(self).spec_has_peer(uuid@),
            old(self).wf() ==> final(self).wf(),
    {
        let ghost pre = *self;
        let idx = match self.find_peer(&uuid) {
            None => {
                return Vec::new();
            },
            Some(i) => i,
        };
        self.peers.remove(idx);
        let n = self.forwards.len();
        let mut kept: Vec<ForwardEdge> = Vec::new();
        for k in 0..n
            invariant
                n == self.forwards@.len(),
                self.forwards@ == pre.forwards@,
                kept@ == survives_filter(pre.forwards@.take(k as int), uuid@),
        {
            let e = &self.forwards[k];
            proof {
                lemma_survives_filter_step(pre.forwards@, uuid@, k as int);
            }
            if !(e.source_uuid == uuid || e.dest_uuid == uuid) {
                kept.push(clone_edge(e));
            }
        }
        proof {
            assert(pre.forwards@.take(n as int) =~= pre.forwards@);
        }
        self.forwards = kept;
        proof {
            if pre.wf() {
                lemma_peer_leave_wf(pre, *self, uuid@, idx as int);
            }
        }
        let mut acts: Vec<Action> = Vec::new();
        acts.push(Action::ClosePeerConnection { uuid });
        acts
    }
}

/// The new peer table is the old one with slot `i` taken out: every
/// remaining slot holds the old peer at the shifted index.
pub open spec fn removed_from(newps: Seq<Peer>, oldps: Seq<Peer>, i: int) -> bool {
    &&& 0 <= i < oldps.len()
    &&& newps.len() == oldps.len() - 1
    &&& forall|j: int| 0 <= j < i ==> #[trigger] newps[j] == oldps[j]
    &&& forall|j: int| i <= j < newps.len() ==> #[trigger] newps[j] == oldps[j + 1]
}

proof fn lemma_remove_is_removed_from(newps: Seq<Peer>, oldps: Seq<Peer>, i: int)
    requires
        0 <= i < oldps.len(),
        newps == oldps.remove(i),
    ensures
        removed_from(newps, oldps, i),
{
}

/// Removing a peer and the edges that touch it preserves the coordinator's
/// invariant.
proof fn lemma_peer_leave_wf(pre: SfuState, post: SfuState, uuid: Seq<char>, i: int)
    requires
        pre.wf(),
        0 <= i < pre.peers@.len(),
        pre.peers@[i].uuid@ == uuid,
        post.peers@ == pre.peers@.remove(i),
        post.forwards@ == survives_filter(pre.forwards@, uuid),
        post.next_track_id == pre.next_track_id,
    ensures
        post.wf(),
        !post.spec_has_peer(uuid),
{
    lemma_remove_is_removed_from(post.peers@, pre.peers@, i);
    lemma_leave_peers_wf(pre, post, uuid, i);
    lemma_leave_edges_unique(pre, post, uuid);
    lemma_leave_edges_wf(pre, post, uuid, i);
    lemma_leave_mesh(pre, post, uuid, i);
}

/// The peer-table conjuncts of the invariant survive the removal.
#[verifier::spinoff_prover]
proof fn lemma_leave_peers_wf(pre: SfuState, post: SfuState, uuid: Seq<char>, i: int)
    requires
        pre.uuids_unique(),
        pre.tracks_bounded(),
        pre.tracks_unique(),
        pre.published_unique(),
        pre.peers@[i].uuid@ == uuid,
        removed_from(post.peers@, pre.peers@, i),
        post.next_track_id == pre.next_track_id,
    ensures
        post.uuids_unique(),
        post.tracks_bounded(),
        post.tracks_unique(),
        post.published_unique(),
        !post.spec_has_peer(uuid),
{
    let oldps = pre.peers@;
    let newps = post.peers@;
    assert forall|j: int| 0 <= j < newps.len() implies (#[trigger] newps[j]).uuid@ != uuid by {
        let jm: int = if j < i {
            j
        } else {
            j + 1
        };
        assert(newps[j] == oldps[jm]);
        assert(jm != i);
        if jm < i {
            assert(oldps[jm].uuid@ != oldps[i].uuid@);
        } else {
            assert(oldps[i].uuid@ != oldps[jm].uuid@);
        }
    }
    assert(post.uuids_unique());
    assert(post.tracks_bounded());
    assert(post.tracks_unique());
    assert(post.published_unique());
}

/// The kept edges stay pairwise distinct.
proof fn lemma_leave_edges_unique(pre: SfuState, post: SfuState, uuid: Seq<char>)
    requires
        pre.edges_unique(),
        post.forwards@ == survives_filter(pre.forwards@, uuid),
    ensures
        post.edges_unique(),
{
    assert forall|a: int, b: int| 0 <= a < b < post.forwards@.len() implies !((
    #[trigger] post.forwards@[a]).source_uuid@ == (#[trigger] post.forwards@[b]).source_uuid@
        && post.forwards@[a].source_ssrc == post.forwards@[b].source_ssrc
        && post.forwards@[a].dest_uuid@ == post.forwards@[b].dest_uuid@
        && post.forwards@[a].dest_track == post.forwards@[b].dest_track) by {
        lemma_survives_filter_distinct(pre, uuid, a, b);
    }
}

/// Every kept edge still reads from a published track and writes to an
/// attached outbound track of peers that are still in the table.
#[verifier::spinoff_prover]
proof fn lemma_leave_edges_wf(pre: SfuState, post: SfuState, uuid: Seq<char>, i: int)
    requires
        pre.edges_wf(),
        pre.peers@[i].uuid@ == uuid,
        removed_from(post.peers@, pre.peers@, i),
        post.forwards@ == survives_filter(pre.forwards@, uuid),
    ensures
        post.edges_wf(),
{
    let oldps = pre.peers@;
    let newps = post.peers@;
    assert forall|k: int| 0 <= k < post.forwards@.len() implies {
        let e = #[trigger] post.forwards@[k];
        (exists|qi: int, ti: int|
            0 <= qi < newps.len() && 0 <= ti < newps[qi].published@.len() && newps[qi].uuid@
                == e.source_uuid@ && (#[trigger] newps[qi].published@[ti]) == (RemoteTrack {
                ssrc: e.source_ssrc,
                kind: e.kind,
            })) && (exists|pi: int|
            0 <= pi < newps.len() && (#[trigger] newps[pi]).uuid@ == e.dest_uuid@
                && newps[pi].spec_output(e.kind) == Some(e.dest_track))
    } by {
        lemma_survives_filter_elem(pre.forwards@, uuid, k);
        let e = post.forwards@[k];
        let j = choose|j: int| 0 <= j < pre.forwards@.len() && pre.forwards@[j] == e;
        assert(pre.edges_wf());
        let (qi, ti): (int, int) = choose|qi: int, ti: int|
            0 <= qi < oldps.len() && 0 <= ti < oldps[qi].published@.len() && oldps[qi].uuid@
                == e.source_uuid@ && (#[trigger] oldps[qi].published@[ti]) == (RemoteTrack {
                ssrc: e.source_ssrc,
                kind: e.kind,
            });
        let pi = choose|pi: int|
            0 <= pi < oldps.len() && (#[trigger] oldps[pi]).uuid@ == e.dest_uuid@
                && oldps[pi].spec_output(e.kind) == Some(e.dest_track);
        // The surviving edge cannot name the removed peer, so both
        // witnesses shift into the new table.
        assert(qi != i && pi != i);
        let qi2 = if qi < i {
            qi
        } else {
            qi - 1
        };
        let pi2 = if pi < i {
            pi
        } else {
            pi - 1
        };
        assert(newps[qi2] == oldps[qi]);
        assert(newps[pi2] == oldps[pi]);
        assert(0 <= ti < newps[qi2].published@.len() && (newps[qi2].published@[ti])
            == (RemoteTrack { ssrc: e.source_ssrc, kind: e.kind }));
    }
}

/// Full-mesh coverage holds of the peers that remain: the witnesses of the
/// old mesh survive the filter.
#[verifier::spinoff_prover]
proof fn lemma_leave_mesh(pre: SfuState, post: SfuState, uuid: Seq<char>, i: int)
    requires
        pre.uuids_unique(),
        pre.mesh(),
        pre.peers@[i].uuid@ == uuid,
        removed_from(post.peers@, pre.peers@, i),
        post.forwards@ == survives_filter(pre.forwards@, uuid),
    ensures
        post.mesh(),
{
    let oldps = pre.peers@;
    let newps = post.peers@;
    assert forall|qi: int, ti: int, pi: int|
        #![trigger newps[qi].published@[ti], newps[pi]]
        0 <= qi < newps.len() && 0 <= ti < newps[qi].published@.len() && 0 <= pi
            < newps.len() implies {
        let t = newps[qi].published@[ti];
        let p = newps[pi];
        p.spec_output(t.kind) is Some && post.spec_has_edge(
            newps[qi].uuid@,
            t.ssrc,
            p.uuid@,
            p.spec_output(t.kind)->Some_0,
        )
    } by {
        let qi1 = if qi < i {
            qi
        } else {
            qi + 1
        };
        let pi1 = if pi < i {
            pi
        } else {
            pi + 1
        };
        assert(newps[qi] == oldps[qi1]);
        assert(newps[pi] == oldps[pi1]);
        let t = newps[qi].published@[ti];
        let p = newps[pi];
        assert(oldps[qi1].published@[ti] == t);
        assert(pre.mesh());
        assert(p.spec_output(t.kind) is Some);
        let dest = p.spec_output(t.kind)->Some_0;
        assert(pre.spec_has_edge(oldps[qi1].uuid@, t.ssrc, p.uuid@, dest));
        let j = choose|j: int|
            0 <= j < pre.forwards@.len() && (#[trigger] pre.forwards@[j]).source_uuid@
                == oldps[qi1].uuid@ && pre.forwards@[j].source_ssrc == t.ssrc
                && pre.forwards@[j].dest_uuid@ == p.uuid@ && pre.forwards@[j].dest_track == dest;
        // Neither endpoint is the removed peer, so the edge survives.
        assert(qi1 != i && pi1 != i);
        if qi1 < i {
            assert(oldps[qi1].uuid@ != oldps[i].uuid@);
        } else {
            assert(oldps[i].uuid@ != oldps[qi1].uuid@);
        }
        if pi1 < i {
            assert(oldps[pi1].uuid@ != oldps[i].uuid@);
        } else {
            assert(oldps[i].uuid@ != oldps[pi1].uuid@);
        }
        assert(edge_survives(pre.forwards@[j], uuid));
        lemma_survives_filter_member(pre.forwards@, uuid, j);
    }
}

/// Filtering keeps the forwarding edges pairwise distinct.
proof fn lemma_survives_filter_distinct(pre: SfuState, uuid: Seq<char>, a: int, b: int)
    requires
        pre.edges_unique(),
        0 <= a < b < survives_filter(pre.forwards@, uuid).len(),
    ensures
        !({
            let f = survives_filter(pre.forwards@, uuid);
            f[a].source_uuid@ == f[b].source_uuid@ && f[a].source_ssrc == f[b].source_ssrc
                && f[a].dest_uuid@ == f[b].dest_uuid@ && f[a].dest_track == f[b].dest_track
        }),
{
    lemma_survives_filter_index_map(pre.forwards@, uuid, a, b);
    let s = pre.forwards@;
    let f = survives_filter(s, uuid);
    let (ja, jb): (int, int) = choose|ja: int, jb: int|
        0 <= ja < jb < s.len() && s[ja] == f[a] && s[jb] == f[b];
    assert(pre.forwards@[ja] == f[a] && pre.forwards@[jb] == f[b]);
}

/// Two positions of the filtered sequence come from two distinct positions
/// of the original, in order.
proof fn lemma_survives_filter_index_map(s: Seq<ForwardEdge>, uuid: Seq<char>, a: int, b: int)
    requires
        0 <= a < b < survives_filter(s, uuid).len(),
    ensures
        exists|ja: int, jb: int|
            0 <= ja < jb < s.len() && s[ja] == survives_filter(s, uuid)[a] && s[jb]
                == survives_filter(s, uuid)[b],
    decreases s.len(),
{
    reveal_with_fuel(Seq::filter, 2);
    let f = survives_filter(s, uuid);
    let sub = survives_filter(s.drop_last(), uuid);
    if b < sub.len() {
        lemma_survives_filter_index_map(s.drop_last(), uuid, a, b);
        let (ja, jb): (int, int) = choose|ja: int, jb: int|
            0 <= ja < jb < s.drop_last().len() && s.drop_last()[ja] == survives_filter(
                s.drop_last(),
                uuid,
            )[a] && s.drop_last()[jb] == survives_filter(s.drop_last(), uuid)[b];
        assert(s[ja] == f[a] && s[jb] == f[b]);
    } else {
        // b is the appended last element.
        assert(f[b] == s[s.len() - 1]);
        lemma_survives_filter_elem_index(s.drop_last(), uuid, a);
        let ja = choose|ja: int|
            0 <= ja < s.drop_last().len() && s.drop_last()[ja] == survives_filter(
                s.drop_last(),
                uuid,
            )[a];
        assert(s[ja] == f[a]);
        assert(ja < s.len() - 1);
    }
}

/// Like [`lemma_survives_filter_elem`], but yielding the index.
proof fn lemma_survives_filter_elem_index(s: Seq<ForwardEdge>, uuid: Seq<char>, a: int)
    requires
        0 <= a < survives_filter(s, uuid).len(),
    ensures
        exists|j: int| 0 <= j < s.len() && s[j] == survives_filter(s, uuid)[a],
    decreases s.len(),
{
    lemma_survives_filter_elem(s, uuid, a);
}

/// Whether a forwarding edge neither reads from nor writes to the peer with
/// this identifier.
pub open spec fn edge_survives(e: ForwardEdge, uuid: Seq<char>) -> bool {
    e.source_uuid@ != uuid && e.dest_uuid@ != uuid
}

/// The forwarding edges that remain when this peer goes: those that neither
/// read from it nor write to it, in order.
pub open spec fn survives_filter(s: Seq<ForwardEdge>, uuid: Seq<char>) -> Seq<ForwardEdge> {
    s.filter(|e: ForwardEdge| edge_survives(e, uuid))
}

proof fn lemma_survives_filter_step(s: Seq<ForwardEdge>, uuid: Seq<char>, k: int)
    requires
        0 <= k < s.len(),
    ensures
        survives_filter(s.take(k + 1), uuid) == if edge_survives(s[k], uuid) {
            survives_filter(s.take(k), uuid).push(s[k])
        } else {
            survives_filter(s.take(k), uuid)
        },
{
    assert(s.take(k + 1).drop_last() =~= s.take(k));
    assert(s.take(k + 1).last() == s[k]);
    reveal_with_fuel(Seq::filter, 2);
}

/// Every element of the filtered sequence occurs in the original one.
proof fn lemma_survives_filter_elem(s: Seq<ForwardEdge>, uuid: Seq<char>, a: int)
    requires
        0 <= a < survives_filter(s, uuid).len(),
    ensures
        exists|j: int| 0 <= j < s.len() && s[j] == survives_filter(s, uuid)[a],
        edge_survives(survives_filter(s, uuid)[a], uuid),
    decreases s.len(),
{
    reveal_with_fuel(Seq::filter, 2);
    if s.len() == 0 {
    } else {
        let sub = survives_filter(s.drop_last(), uuid);
        if a < sub.len() {
            lemma_survives_filter_elem(s.drop_last(), uuid, a);
            let j = choose|j: int|
                0 <= j < s.drop_last().len() && s.drop_last()[j] == survives_filter(
                    s.drop_last(),
                    uuid,
                )[a];
            assert(s[j] == survives_filter(s, uuid)[a]);
        } else {
            assert(edge_survives(s.last(), uuid));
            assert(s[s.len() - 1] == survives_filter(s, uuid)[a]);
        }
    }
}

/// An element of the original sequence that survives occurs in the filtered
/// one.
proof fn lemma_survives_filter_member(s: Seq<ForwardEdge>, uuid: Seq<char>, j: int)
    requires
        0 <= j < s.len(),
        edge_survives(s[j], uuid),
    ensures
        exists|a: int|
            0 <= a < survives_filter(s, uuid).len() && survives_filter(s, uuid)[a] == s[j],
    decreases s.len(),
{
    reveal_with_fuel(Seq::filter, 2);
    if j == s.len() - 1 {
        let f = survives_filter(s, uuid);
        assert(f[f.len() - 1] == s[j]);
    } else {
        lemma_survives_filter_member(s.drop_last(), uuid, j);
        let a = choose|a: int|
            0 <= a < survives_filter(s.drop_last(), uuid).len() && survives_filter(
                s.drop_last(),
                uuid,
            )[a] == s.drop_last()[j];
        assert(survives_filter(s, uuid)[a] == s[j]);
    }
}

/// An exact copy of a forwarding edge.
fn clone_edge(e: &ForwardEdge) -> (r: ForwardEdge)
    ensures
        r == *e,
{
    ForwardEdge {
        source_uuid: e.source_uuid.clone(),
        source_ssrc: e.source_ssrc,
        dest_uuid: e.dest_uuid.clone(),
        dest_track: e.dest_track,
        kind: e.kind,
    }
}

} // verus!
