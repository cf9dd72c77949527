use sfu::callbacks::{connection_state_event, ice_candidate_event, PeerConnectionState};
use sfu::command::PeerChanCommand;
use sfu::coordinator::Action;
use sfu::peer::{MediaKind, RemoteTrack};
use sfu::state::SfuState;

fn valid_sdp() -> String {
    "v=0\r\no=- 0 0 IN IP4 127.0.0.1\r\ns=-\r\nt=0 0\r\n".to_string()
}

fn valid_candidate() -> String {
    r#"{"candidate":"candidate:abc123","sdpMid":"0","sdpMLineIndex":0,"usernameFragment":"def"}"#
        .to_string()
}

fn join(s: &mut SfuState, uuid: &str, tx: u64) -> Vec<Action> {
    s.step(PeerChanCommand::ReceiveOffer { uuid: uuid.to_string(), sdp: valid_sdp(), tx })
}

fn publish(s: &mut SfuState, uuid: &str, ssrc: u32, kind: MediaKind) -> Vec<Action> {
    s.step(PeerChanCommand::OnTrack { uuid: uuid.to_string(), track: RemoteTrack { ssrc, kind } })
}

#[test]
fn first_join_answers_without_tracks() {
    let mut s = SfuState::new();
    let acts = join(&mut s, "a", 1);
    // No one publishes yet: connection, remote offer, answer — nothing else.
    assert_eq!(acts.len(), 3);
    assert!(matches!(&acts[0], Action::NewPeerConnection { uuid } if uuid == "a"));
    assert!(matches!(&acts[1], Action::SetRemoteOffer { uuid, .. } if uuid == "a"));
    assert!(matches!(&acts[2], Action::ProduceAnswer { uuid, tx } if uuid == "a" && *tx == 1));
    assert_eq!(s.peers.len(), 1);
    assert_eq!(s.peers[0].uuid, "a");
    assert_eq!(s.peers[0].tx, 1);
}

#[test]
fn malformed_offer_is_dropped_and_recoverable() {
    let mut s = SfuState::new();
    let acts = s.step(PeerChanCommand::ReceiveOffer {
        uuid: "a".to_string(),
        sdp: "not-sdp".to_string(),
        tx: 1,
    });
    // Logged and dropped: no actions, no entry created.
    assert!(acts.is_empty());
    assert_eq!(s.peers.len(), 0);
    // A subsequent well-formed offer from the same uuid succeeds.
    let acts = join(&mut s, "a", 1);
    assert_eq!(acts.len(), 3);
    assert_eq!(s.peers.len(), 1);
}

#[test]
fn second_offer_from_known_peer_only_sets_remote() {
    let mut s = SfuState::new();
    join(&mut s, "a", 1);
    let acts = join(&mut s, "a", 1);
    assert_eq!(acts.len(), 1);
    assert!(matches!(&acts[0], Action::SetRemoteOffer { uuid, .. } if uuid == "a"));
    assert_eq!(s.peers.len(), 1);
}

#[test]
fn video_publish_fans_out_to_every_peer() {
    let mut s = SfuState::new();
    join(&mut s, "a", 1);
    join(&mut s, "b", 2);
    let acts = publish(&mut s, "a", 0x11111111, MediaKind::Video);
    // Both peers lacked a video outbound track: two attaches, two workers.
    let attaches: Vec<&Action> =
        acts.iter().filter(|a| matches!(a, Action::AttachOutputTrack { .. })).collect();
    let spawns: Vec<&Action> =
        acts.iter().filter(|a| matches!(a, Action::SpawnForwarder { .. })).collect();
    assert_eq!(attaches.len(), 2);
    assert_eq!(spawns.len(), 2);
    assert_eq!(acts.len(), 4);
    for sp in &spawns {
        match sp {
            Action::SpawnForwarder { source_uuid, source_ssrc, kind, .. } => {
                assert_eq!(source_uuid, "a");
                assert_eq!(*source_ssrc, 0x11111111);
                assert_eq!(*kind, MediaKind::Video);
            },
            _ => unreachable!(),
        }
    }
    // One forwarding edge per destination peer, each into its own track.
    assert_eq!(s.forwards.len(), 2);
    assert_ne!(s.forwards[0].dest_track, s.forwards[1].dest_track);
}

#[test]
fn repeated_track_announcement_is_idempotent() {
    let mut s = SfuState::new();
    join(&mut s, "a", 1);
    join(&mut s, "b", 2);
    publish(&mut s, "a", 0x11111111, MediaKind::Video);
    let edges = s.forwards.len();
    let acts = publish(&mut s, "a", 0x11111111, MediaKind::Video);
    // Re-sending the announcement wires nothing: no attach, no spawn.
    assert!(acts.is_empty());
    assert_eq!(s.forwards.len(), edges);
}

#[test]
fn late_joiner_receives_all_published_tracks() {
    let mut s = SfuState::new();
    join(&mut s, "a", 1);
    join(&mut s, "b", 2);
    publish(&mut s, "a", 0x11, MediaKind::Video);
    publish(&mut s, "b", 0x22, MediaKind::Video);
    let acts = join(&mut s, "c", 3);
    // One video outbound track for the newcomer, one worker per publisher,
    // framed by the join actions.
    assert_eq!(acts.len(), 6);
    assert!(matches!(&acts[0], Action::NewPeerConnection { uuid } if uuid == "c"));
    assert!(matches!(&acts[1], Action::SetRemoteOffer { uuid, .. } if uuid == "c"));
    assert!(matches!(
        &acts[2],
        Action::AttachOutputTrack { uuid, kind: MediaKind::Video, .. } if uuid == "c"
    ));
    let mut sources: Vec<String> = Vec::new();
    for a in &acts[3..5] {
        match a {
            Action::SpawnForwarder { source_uuid, dest_uuid, .. } => {
                assert_eq!(dest_uuid, "c");
                sources.push(source_uuid.clone());
            },
            other => panic!("expected SpawnForwarder, got {:?}", other),
        }
    }
    sources.sort();
    assert_eq!(sources, vec!["a".to_string(), "b".to_string()]);
    assert!(matches!(&acts[5], Action::ProduceAnswer { uuid, tx } if uuid == "c" && *tx == 3));
}

#[test]
fn audio_and_video_use_separate_outbound_tracks() {
    let mut s = SfuState::new();
    join(&mut s, "a", 1);
    join(&mut s, "b", 2);
    publish(&mut s, "a", 0x1, MediaKind::Audio);
    publish(&mut s, "a", 0x2, MediaKind::Video);
    let b = &s.peers[1];
    let audio = b.output_tracks.audio.expect("audio track");
    let video = b.output_tracks.video.expect("video track");
    assert_ne!(audio, video);
    // Four edges: a's audio and video into both a's and b's tracks.
    assert_eq!(s.forwards.len(), 4);
}

#[test]
fn candidates_are_applied_in_enqueue_order() {
    let mut s = SfuState::new();
    let cmds = vec![
        PeerChanCommand::ReceiveOffer { uuid: "a".to_string(), sdp: valid_sdp(), tx: 1 },
        PeerChanCommand::ReceiveIceCandidate { uuid: "a".to_string(), candidate: valid_candidate() },
        PeerChanCommand::ReceiveIceCandidate { uuid: "a".to_string(), candidate: valid_candidate() },
        PeerChanCommand::ReceiveIceCandidate { uuid: "a".to_string(), candidate: valid_candidate() },
    ];
    let acts = s.handle_peer_connection_commands(cmds);
    // The join's three actions, then one apply per candidate, in order.
    assert_eq!(acts.len(), 6);
    for a in &acts[3..] {
        assert!(matches!(a, Action::ApplyIceCandidate { uuid, .. } if uuid == "a"));
    }
}

#[test]
fn malformed_candidate_is_dropped() {
    let mut s = SfuState::new();
    join(&mut s, "a", 1);
    let acts = s.step(PeerChanCommand::ReceiveIceCandidate {
        uuid: "a".to_string(),
        candidate: "not-json".to_string(),
    });
    assert!(acts.is_empty());
}

#[test]
fn candidate_for_unknown_peer_is_dropped() {
    let mut s = SfuState::new();
    let acts = s.step(PeerChanCommand::ReceiveIceCandidate {
        uuid: "ghost".to_string(),
        candidate: valid_candidate(),
    });
    assert!(acts.is_empty());
}

#[test]
fn local_candidate_is_forwarded_on_the_peers_channel() {
    let mut s = SfuState::new();
    join(&mut s, "a", 41);
    let acts = s.step(PeerChanCommand::SendIceCandidate {
        uuid: "a".to_string(),
        candidate: "cand-json".to_string(),
    });
    assert_eq!(acts.len(), 1);
    match &acts[0] {
        Action::Send { tx, msg } => {
            assert_eq!(*tx, 41);
            assert_eq!(msg.event, "candidate");
            assert_eq!(msg.data, "cand-json");
            assert_eq!(msg.uuid, "a");
        },
        other => panic!("expected Send, got {:?}", other),
    }
}

#[test]
fn negotiation_needed_produces_one_offer() {
    let mut s = SfuState::new();
    join(&mut s, "a", 9);
    let cmd = sfu::callbacks::negotiation_needed_event("a".to_string());
    let acts = s.step(cmd);
    assert_eq!(acts.len(), 1);
    assert!(matches!(&acts[0], Action::ProduceOffer { uuid, tx } if uuid == "a" && *tx == 9));
}

#[test]
fn offer_for_unknown_peer_is_dropped() {
    let mut s = SfuState::new();
    let acts = s.step(PeerChanCommand::SendOffer { uuid: "ghost".to_string() });
    assert!(acts.is_empty());
}

#[test]
fn answer_is_set_as_remote_description() {
    let mut s = SfuState::new();
    join(&mut s, "a", 1);
    let acts = s.step(PeerChanCommand::ReceiveAnswer { uuid: "a".to_string(), sdp: valid_sdp() });
    assert_eq!(acts.len(), 1);
    assert!(matches!(&acts[0], Action::SetRemoteAnswer { uuid, .. } if uuid == "a"));
    let acts = s.step(PeerChanCommand::ReceiveAnswer {
        uuid: "a".to_string(),
        sdp: "not-sdp".to_string(),
    });
    assert!(acts.is_empty());
}

#[test]
fn leaving_peer_is_unwired_everywhere() {
    let mut s = SfuState::new();
    join(&mut s, "a", 1);
    join(&mut s, "b", 2);
    publish(&mut s, "a", 0x11, MediaKind::Video);
    publish(&mut s, "b", 0x22, MediaKind::Video);
    let acts = s.step(PeerChanCommand::PeerLeave { uuid: "a".to_string() });
    assert_eq!(acts.len(), 1);
    assert!(matches!(&acts[0], Action::ClosePeerConnection { uuid } if uuid == "a"));
    // The entry is gone; b stays up; no edge reads from or writes to a.
    assert_eq!(s.peers.len(), 1);
    assert_eq!(s.peers[0].uuid, "b");
    for e in &s.forwards {
        assert_ne!(e.source_uuid, "a");
        assert_ne!(e.dest_uuid, "a");
    }
    // What remains is b's own loopback edge.
    assert_eq!(s.forwards.len(), 1);
    assert_eq!(s.forwards[0].source_uuid, "b");
}

#[test]
fn leave_of_unknown_peer_changes_nothing() {
    let mut s = SfuState::new();
    join(&mut s, "a", 1);
    let acts = s.step(PeerChanCommand::PeerLeave { uuid: "ghost".to_string() });
    assert!(acts.is_empty());
    assert_eq!(s.peers.len(), 1);
}

#[test]
fn terminal_connection_states_remove_the_peer() {
    let mut s = SfuState::new();
    join(&mut s, "a", 1);
    assert!(connection_state_event("a".to_string(), PeerConnectionState::Connected).is_none());
    let cmd = connection_state_event("a".to_string(), PeerConnectionState::Failed)
        .expect("terminal state enqueues a leave");
    let acts = s.step(cmd);
    assert_eq!(acts.len(), 1);
    assert!(matches!(&acts[0], Action::ClosePeerConnection { uuid } if uuid == "a"));
    assert!(s.peers.is_empty());
}

#[test]
fn ice_candidate_callback_drops_the_end_sentinel() {
    assert!(ice_candidate_event("a".to_string(), None).is_none());
    match ice_candidate_event("a".to_string(), Some("ser".to_string())) {
        Some(PeerChanCommand::SendIceCandidate { uuid, candidate }) => {
            assert_eq!(uuid, "a");
            assert_eq!(candidate, "ser");
        },
        other => panic!("expected SendIceCandidate, got {:?}", other),
    }
}

#[test]
fn full_session_drains_in_fifo_order() {
    let mut s = SfuState::new();
    let cmds = vec![
        PeerChanCommand::ReceiveOffer { uuid: "a".to_string(), sdp: valid_sdp(), tx: 1 },
        PeerChanCommand::ReceiveOffer { uuid: "b".to_string(), sdp: valid_sdp(), tx: 2 },
        PeerChanCommand::OnTrack {
            uuid: "a".to_string(),
            track: RemoteTrack { ssrc: 0x11111111, kind: MediaKind::Video },
        },
        PeerChanCommand::SendOffer { uuid: "b".to_string() },
        PeerChanCommand::PeerLeave { uuid: "a".to_string() },
    ];
    let acts = s.handle_peer_connection_commands(cmds);
    // Two joins (3 actions each), the fan-out (2 attaches + 2 spawns), the
    // renegotiation offer, and the teardown close.
    assert_eq!(acts.len(), 12);
    assert!(matches!(&acts[6], Action::AttachOutputTrack { .. }));
    assert!(matches!(&acts[10], Action::ProduceOffer { uuid, tx } if uuid == "b" && *tx == 2));
    assert!(matches!(&acts[11], Action::ClosePeerConnection { uuid } if uuid == "a"));
    // Only b is left, still holding its video outbound track; a's media is
    // unwired.
    assert_eq!(s.peers.len(), 1);
    assert_eq!(s.peers[0].uuid, "b");
    assert!(s.forwards.is_empty());
}
