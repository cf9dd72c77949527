//! The crate's global guarantees, stated once and proved from the
//! coordinator's invariant and the command contracts.

use vstd::prelude::*;
use crate::fanout::{on_track_state, publisher_has_ssrc};
use crate::peer::RemoteTrack;
use crate::state::SfuState;

verus! {

/// Full-mesh coverage: in any well-formed state, every remote track that
/// any peer publishes is carried into every peer in the table — the peer
/// has an outbound track of the right kind, and exactly one forwarding
/// edge feeds that track from the publisher's.
pub proof fn lemma_full_mesh(s: SfuState, qi: int, ti: int, pi: int)
    requires
        s.wf(),
        0 <= qi < s.peers@.len(),
        0 <= ti < s.peers@[qi].published@.len(),
        0 <= pi < s.peers@.len(),
    ensures
        s.peers@[pi].spec_output(s.peers@[qi].published@[ti].kind) is Some,
        s.spec_has_edge(
            s.peers@[qi].uuid@,
            s.peers@[qi].published@[ti].ssrc,
            s.peers@[pi].uuid@,
            s.peers@[pi].spec_output(s.peers@[qi].published@[ti].kind)->Some_0,
        ),
        forall|k1: int, k2: int|
            0 <= k1 < s.forwards@.len() && 0 <= k2 < s.forwards@.len() && (
            #[trigger] s.forwards@[k1]).source_uuid@ == (#[trigger] s.forwards@[k2]).source_uuid@
                && s.forwards@[k1].source_ssrc == s.forwards@[k2].source_ssrc
                && s.forwards@[k1].dest_uuid@ == s.forwards@[k2].dest_uuid@
                && s.forwards@[k1].dest_track == s.forwards@[k2].dest_track ==> k1 == k2,
{
    assert(s.mesh());
    assert forall|k1: int, k2: int|
        0 <= k1 < s.forwards@.len() && 0 <= k2 < s.forwards@.len() && (
        #[trigger] s.forwards@[k1]).source_uuid@ == (#[trigger] s.forwards@[k2]).source_uuid@
            && s.forwards@[k1].source_ssrc == s.forwards@[k2].source_ssrc
            && s.forwards@[k1].dest_uuid@ == s.forwards@[k2].dest_uuid@
            && s.forwards@[k1].dest_track == s.forwards@[k2].dest_track implies k1 == k2 by {
        if k1 < k2 {
            assert(false);
        }
        if k2 < k1 {
            assert(false);
        }
    }
}

/// Outbound-track idempotence: a successful fan-out records the announced
/// track with its publisher, so the coordinator recognizes — and drops —
/// any repetition of the same announcement. Together with the fan-out's
/// own contract this means the same (remote track, outbound track) pair is
/// never wired twice.
pub proof fn lemma_on_track_idempotent(pre: SfuState, post: SfuState, pi: int, t: RemoteTrack)
    requires
        0 <= pi < pre.peers@.len(),
        on_track_state(pre, post, pi, t),
    ensures
        publisher_has_ssrc(post, pre.peers@[pi].uuid@, t.ssrc),
{
    let pub2 = post.peers@[pi].published@;
    assert(pub2 == pre.peers@[pi].published@.push(t));
    assert(pub2[pub2.len() - 1] == t);
    assert(post.peers@[pi].publishes_ssrc(t.ssrc));
    assert(post.peers@[pi].uuid@ == pre.peers@[pi].uuid@);
}

} // verus!
