//! The coordinator's state: the peer table, the forwarding edges, and the
//! well-formedness invariant that every command preserves.

use vstd::prelude::*;
use crate::peer::{MediaKind, Peer, RemoteTrack};

verus! {

/// One media-forwarding edge: a worker copies RTP from the remote track
/// `(source_uuid, source_ssrc)` into the outbound track `dest_track` attached
/// to `dest_uuid`'s connection.
#[derive(Debug, Clone)]
pub struct ForwardEdge {
    pub source_uuid: String,
    pub source_ssrc: u32,
    pub dest_uuid: String,
    pub dest_track: u64,
    pub kind: MediaKind,
}

/// Everything the session coordinator owns: the peer table, the set of
/// forwarding edges already wired, and the next fresh outbound-track id.
#[derive(Debug)]
pub struct SfuState {
    pub peers: Vec<Peer>,
    pub forwards: Vec<ForwardEdge>,
    pub next_track_id: u64,
}

impl SfuState {
    /// Whether some peer in the table carries this identifier.
    pub open spec fn spec_has_peer(self, uuid: Seq<char>) -> bool {
        exists|i: int| 0 <= i < self.peers@.len() && self.peers@[i].uuid@ == uuid
    }

    /// The index of the peer with this identifier (meaningful only when
    /// `spec_has_peer` holds and identifiers are unique).
    pub open spec fn spec_peer_index(self, uuid: Seq<char>) -> int {
        choose|i: int| 0 <= i < self.peers@.len() && self.peers@[i].uuid@ == uuid
    }

    /// Whether a forwarding edge from `(source_uuid, source_ssrc)` into
    /// `dest_track` on `dest_uuid`'s connection is already wired.
    pub open spec fn spec_has_edge(
        self,
        source_uuid: Seq<char>,
        source_ssrc: u32,
        dest_uuid: Seq<char>,
        dest_track: u64,
    ) -> bool {
        seq_has_edge(self.forwards@, source_uuid, source_ssrc, dest_uuid, dest_track)
    }

    /// Whether any peer in the table publishes a track of this kind.
    pub open spec fn spec_someone_publishes(self, kind: MediaKind) -> bool {
        exists|qi: int, ti: int|
            0 <= qi < self.peers@.len() && 0 <= ti < self.peers@[qi].published@.len() && (
            #[trigger] self.peers@[qi].published@[ti]).kind == kind
    }

    /// Peer identifiers are unique within the table.
    pub open spec fn uuids_unique(self) -> bool {
        forall|i: int, j: int|
            0 <= i < j < self.peers@.len() ==> (#[trigger] self.peers@[i]).uuid@ != (
            #[trigger] self.peers@[j]).uuid@
    }

    /// Every attached outbound-track id was allocated before `next_track_id`.
    pub open spec fn tracks_bounded(self) -> bool {
        forall|i: int, k: MediaKind|
            0 <= i < self.peers@.len() && (#[trigger] self.peers@[i].spec_output(k)) is Some
                ==> self.peers@[i].spec_output(k)->Some_0 < self.next_track_id
    }

    /// No outbound-track id is attached twice, across all peers and kinds.
    pub open spec fn tracks_unique(self) -> bool {
        forall|i: int, j: int, k1: MediaKind, k2: MediaKind|
            0 <= i < self.peers@.len() && 0 <= j < self.peers@.len() && (i != j || k1 != k2) && (
            #[trigger] self.peers@[i].spec_output(k1)) is Some && (
            #[trigger] self.peers@[j].spec_output(k2)) is Some ==> self.peers@[i].spec_output(
                k1,
            )->Some_0 != self.peers@[j].spec_output(k2)->Some_0
    }

    /// Within one peer, published remote tracks have distinct sources.
    pub open spec fn published_unique(self) -> bool {
        forall|i: int, a: int, b: int|
            0 <= i < self.peers@.len() && 0 <= a < b < self.peers@[i].published@.len() ==> (
            #[trigger] self.peers@[i].published@[a]).ssrc != (
            #[trigger] self.peers@[i].published@[b]).ssrc
    }

    /// No forwarding edge is wired twice.
    pub open spec fn edges_unique(self) -> bool {
        edges_distinct(self.forwards@)
    }

    /// Every edge reads from a track some peer publishes and writes to the
    /// matching outbound track of a peer in the table.
    pub open spec fn edges_wf(self) -> bool {
        forall|k: int|
            0 <= k < self.forwards@.len() ==> {
                let e = #[trigger] self.forwards@[k];
                (exists|qi: int, ti: int|
                    0 <= qi < self.peers@.len() && 0 <= ti < self.peers@[qi].published@.len()
                        && self.peers@[qi].uuid@ == e.source_uuid@ && (
                    #[trigger] self.peers@[qi].published@[ti]) == (RemoteTrack {
                        ssrc: e.source_ssrc,
                        kind: e.kind,
                    })) && (exists|pi: int|
                    0 <= pi < self.peers@.len() && (#[trigger] self.peers@[pi]).uuid@
                        == e.dest_uuid@ && self.peers@[pi].spec_output(e.kind) == Some(
                        e.dest_track,
                    ))
            }
    }

    /// Full-mesh coverage: for every published remote track and every peer in
    /// the table, the peer has an outbound track of that kind and an edge
    /// carries the publisher's media into it.
    pub open spec fn mesh(self) -> bool {
        forall|qi: int, ti: int, pi: int|
            #![trigger self.peers@[qi].published@[ti], self.peers@[pi]]
            0 <= qi < self.peers@.len() && 0 <= ti < self.peers@[qi].published@.len() && 0 <= pi
                < self.peers@.len() ==> {
                let t = self.peers@[qi].published@[ti];
                let p = self.peers@[pi];
                p.spec_output(t.kind) is Some && self.spec_has_edge(
                    self.peers@[qi].uuid@,
                    t.ssrc,
                    p.uuid@,
                    p.spec_output(t.kind)->Some_0,
                )
            }
    }

    /// The coordinator's invariant, established by [`SfuState::new`] and
    /// preserved by every command.
    pub open spec fn wf(self) -> bool {
        &&& self.uuids_unique()
        &&& self.tracks_bounded()
        &&& self.tracks_unique()
        &&& self.published_unique()
        &&& self.edges_unique()
        &&& self.edges_wf()
        &&& self.mesh()
    }

    /// The state the coordinator starts from: no peers, no edges.
    pub fn new() -> (s: SfuState)
        ensures
            s.wf(),
            s.peers@ =~= Seq::<Peer>::empty(),
            s.forwards@ =~= Seq::<ForwardEdge>::empty(),
            s.next_track_id == 0,
    {
        SfuState { peers: Vec::new(), forwards: Vec::new(), next_track_id: 0 }
    }

    /// Looks the peer with this identifier up in the table.
    pub fn find_peer(&self, uuid: &String) -> (r: Option<usize>)
        ensures
            match r {
                Some(i) => 0 <= i < self.peers@.len() && self.peers@[i as int].uuid@ == uuid@,
                None => !self.spec_has_peer(uuid@),
            },
    {
        let n = self.peers.len();
        for i in 0..n
            invariant
                n == self.peers@.len(),
                forall|j: int| 0 <= j < i ==> (#[trigger] self.peers@[j]).uuid@ != uuid@,
        {
            if self.peers[i].uuid == *uuid {
                return Some(i);
            }
        }
        None
    }

    /// Whether the edge is already wired, as an executable check.
    pub fn edge_exists(
        &self,
        source_uuid: &String,
        source_ssrc: u32,
        dest_uuid: &String,
        dest_track: u64,
    ) -> (r: bool)
        ensures
            r == self.spec_has_edge(source_uuid@, source_ssrc, dest_uuid@, dest_track),
    {
        let n = self.forwards.len();
        for k in 0..n
            invariant
                n == self.forwards@.len(),
                forall|j: int|
                    0 <= j < k ==> !((#[trigger] self.forwards@[j]).source_uuid@ == source_uuid@
                        && self.forwards@[j].source_ssrc == source_ssrc
                        && self.forwards@[j].dest_uuid@ == dest_uuid@
                        && self.forwards@[j].dest_track == dest_track),
        {
            let e = &self.forwards[k];
            if e.source_ssrc == source_ssrc && e.dest_track == dest_track && e.source_uuid
                == *source_uuid && e.dest_uuid == *dest_uuid {
                return true;
            }
        }
        false
    }
}

/// Whether a forwarding edge from `(source_uuid, source_ssrc)` into
/// `dest_track` on `dest_uuid`'s connection occurs in this sequence.
pub open spec fn seq_has_edge(
    s: Seq<ForwardEdge>,
    source_uuid: Seq<char>,
    source_ssrc: u32,
    dest_uuid: Seq<char>,
    dest_track: u64,
) -> bool {
    exists|k: int|
        0 <= k < s.len() && (#[trigger] s[k]).source_uuid@ == source_uuid && s[k].source_ssrc
            == source_ssrc && s[k].dest_uuid@ == dest_uuid && s[k].dest_track == dest_track
}

/// No two positions of this sequence hold the same edge.
pub open spec fn edges_distinct(s: Seq<ForwardEdge>) -> bool {
    forall|a: int, b: int|
        0 <= a < b < s.len() ==> !((#[trigger] s[a]).source_uuid@ == (#[trigger] s[b]).source_uuid@
            && s[a].source_ssrc == s[b].source_ssrc && s[a].dest_uuid@ == s[b].dest_uuid@
            && s[a].dest_track == s[b].dest_track)
}

/// A sequence of pairwise distinct edges stays pairwise distinct when an
/// edge not yet in it is appended.
pub proof fn lemma_edges_distinct_push(s: Seq<ForwardEdge>, e: ForwardEdge)
    requires
        edges_distinct(s),
        !seq_has_edge(s, e.source_uuid@, e.source_ssrc, e.dest_uuid@, e.dest_track),
    ensures
        edges_distinct(s.push(e)),
{
    let s2 = s.push(e);
    assert forall|a: int, b: int| 0 <= a < b < s2.len() implies !((#[trigger] s2[a]).source_uuid@
        == (#[trigger] s2[b]).source_uuid@ && s2[a].source_ssrc == s2[b].source_ssrc
        && s2[a].dest_uuid@ == s2[b].dest_uuid@ && s2[a].dest_track == s2[b].dest_track) by {
        if b == s.len() {
            assert(s2[a] == s[a]);
            assert(s2[b] == e);
        } else {
            assert(s2[a] == s[a] && s2[b] == s[b]);
        }
    }
}

/// Whether this peer already publishes a remote track with the given source.
pub fn publishes_ssrc(p: &Peer, ssrc: u32) -> (r: bool)
    ensures
        r == p.publishes_ssrc(ssrc),
{
    let n = p.published.len();
    for i in 0..n
        invariant
            n == p.published@.len(),
            forall|j: int| 0 <= j < i ==> (#[trigger] p.published@[j]).ssrc != ssrc,
    {
        if p.published[i].ssrc == ssrc {
            return true;
        }
    }
    false
}

/// Whether this peer publishes a remote track of the given kind.
pub fn publishes_kind(p: &Peer, kind: MediaKind) -> (r: bool)
    ensures
        r == exists|i: int| 0 <= i < p.published@.len() && (#[trigger] p.published@[i]).kind
            == kind,
{
    let n = p.published.len();
    for i in 0..n
        invariant
            n == p.published@.len(),
            forall|j: int| 0 <= j < i ==> (#[trigger] p.published@[j]).kind != kind,
    {
        if p.published[i].kind == kind {
            return true;
        }
    }
    false
}

/// An edge of a sequence is still there when the sequence grows at the end.
pub proof fn lemma_seq_has_edge_extend(
    s1: Seq<ForwardEdge>,
    s2: Seq<ForwardEdge>,
    su: Seq<char>,
    ssrc: u32,
    du: Seq<char>,
    dt: u64,
)
    requires
        seq_has_edge(s1, su, ssrc, du, dt),
        s1.len() <= s2.len(),
        forall|k: int| 0 <= k < s1.len() ==> #[trigger] s2[k] == s1[k],
    ensures
        seq_has_edge(s2, su, ssrc, du, dt),
{
    let k = choose|k: int|
        0 <= k < s1.len() && (#[trigger] s1[k]).source_uuid@ == su && s1[k].source_ssrc == ssrc
            && s1[k].dest_uuid@ == du && s1[k].dest_track == dt;
    assert(s2[k] == s1[k]);
}

} // verus!
