use sfu::command::PeerChanCommand;
use sfu::signal::{answer_message, candidate_message, command_of_message, offer_message, SocketMessage};

fn msg(event: &str, data: &str, uuid: &str) -> SocketMessage {
    SocketMessage { event: event.to_string(), data: data.to_string(), uuid: uuid.to_string() }
}

#[test]
fn offer_message_becomes_receive_offer() {
    let c = command_of_message(msg("offer", "<sdp_a>", "a"), 7);
    match c {
        Some(PeerChanCommand::ReceiveOffer { uuid, sdp, tx }) => {
            assert_eq!(uuid, "a");
            assert_eq!(sdp, "<sdp_a>");
            assert_eq!(tx, 7);
        },
        other => panic!("expected ReceiveOffer, got {:?}", other),
    }
}

#[test]
fn answer_message_becomes_receive_answer() {
    let c = command_of_message(msg("answer", "<sdp>", "b"), 1);
    match c {
        Some(PeerChanCommand::ReceiveAnswer { uuid, sdp }) => {
            assert_eq!(uuid, "b");
            assert_eq!(sdp, "<sdp>");
        },
        other => panic!("expected ReceiveAnswer, got {:?}", other),
    }
}

#[test]
fn candidate_message_becomes_receive_ice_candidate() {
    let c = command_of_message(msg("candidate", "{}", "a"), 1);
    match c {
        Some(PeerChanCommand::ReceiveIceCandidate { uuid, candidate }) => {
            assert_eq!(uuid, "a");
            assert_eq!(candidate, "{}");
        },
        other => panic!("expected ReceiveIceCandidate, got {:?}", other),
    }
}

#[test]
fn unknown_event_is_dropped_silently() {
    assert!(command_of_message(msg("ping", "x", "a"), 1).is_none());
    assert!(command_of_message(msg("", "x", "a"), 1).is_none());
    assert!(command_of_message(msg("OFFER", "x", "a"), 1).is_none());
}

#[test]
fn outbound_envelopes_echo_the_peer_uuid() {
    let a = answer_message(&"a".to_string(), "sdp-a".to_string());
    assert_eq!(a.event, "answer");
    assert_eq!(a.data, "sdp-a");
    assert_eq!(a.uuid, "a");

    let o = offer_message(&"b".to_string(), "sdp-b".to_string());
    assert_eq!(o.event, "offer");
    assert_eq!(o.data, "sdp-b");
    assert_eq!(o.uuid, "b");

    let c = candidate_message(&"c".to_string(), "cand".to_string());
    assert_eq!(c.event, "candidate");
    assert_eq!(c.data, "cand");
    assert_eq!(c.uuid, "c");
}
