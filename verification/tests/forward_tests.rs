use rtc::rtp::packet::Packet;
use sfu::forward::{
    forward_continues, forward_step, needs_pli_ticker, pli_for, pli_ticker_continues,
    write_error_is_expected, ForwardStep, ReadEvent, WriteOutcome, PLI_INTERVAL_SECS,
};
use sfu::peer::{mime_type_for, stream_id, track_label_for, MediaKind};

#[test]
fn packets_are_delivered_exactly_as_read() {
    let mut p = Packet::default();
    p.header.ssrc = 0x11111111;
    p.header.sequence_number = 7;
    p.payload = vec![1u8, 2, 3, 4].into();
    let expected = p.clone();
    match forward_step(ReadEvent::Rtp(p)) {
        ForwardStep::Deliver(out) => assert_eq!(out, expected),
        _ => panic!("a packet must be delivered"),
    }
}

#[test]
fn forwarder_stops_at_end_of_track() {
    assert!(matches!(forward_step(ReadEvent::Closed), ForwardStep::Stop));
    assert!(matches!(forward_step(ReadEvent::Other), ForwardStep::Skip));
}

#[test]
fn forwarder_stops_on_any_write_error() {
    assert!(forward_continues(WriteOutcome::Accepted));
    assert!(!forward_continues(WriteOutcome::ClosedPipe));
    assert!(!forward_continues(WriteOutcome::Failed));
    // Only the closed pipe is the expected, quiet end.
    assert!(write_error_is_expected(WriteOutcome::ClosedPipe));
    assert!(!write_error_is_expected(WriteOutcome::Failed));
    assert!(!write_error_is_expected(WriteOutcome::Accepted));
}

#[test]
fn pli_addresses_the_track_with_zero_sender() {
    let p = pli_for(0x11111111);
    assert_eq!(p.sender_ssrc, 0);
    assert_eq!(p.media_ssrc, 0x11111111);
    assert_eq!(PLI_INTERVAL_SECS, 3);
}

#[test]
fn only_video_gets_a_pli_ticker() {
    assert!(needs_pli_ticker(MediaKind::Video));
    assert!(!needs_pli_ticker(MediaKind::Audio));
    assert!(pli_ticker_continues(true, true));
    assert!(!pli_ticker_continues(false, true));
    assert!(!pli_ticker_continues(true, false));
}

#[test]
fn outbound_tracks_use_the_fixed_codecs() {
    assert_eq!(mime_type_for(MediaKind::Video), "video/VP8");
    assert_eq!(mime_type_for(MediaKind::Audio), "audio/opus");
    assert_eq!(track_label_for(MediaKind::Video), "track-video");
    assert_eq!(track_label_for(MediaKind::Audio), "track-audio");
    assert_eq!(stream_id(), "webrtc-rs");
}
