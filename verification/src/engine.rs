//! The crate's window onto the WebRTC engine's data types.
//!
//! The coordinator validates what clients send — SDP texts and ICE candidate
//! records — with the engine's own parsers, so that what it accepts is
//! exactly what the engine accepts. The parsed values are opaque here; they
//! are carried inside actions for the runtime to hand back to the engine.

use vstd::prelude::*;
use webrtc::peer_connection::{RTCIceCandidateInit, RTCSessionDescription};

verus! {

#[verifier::external_type_specification]
#[verifier::external_body]
pub struct ExRTCSessionDescription(RTCSessionDescription);

#[verifier::external_type_specification]
#[verifier::external_body]
pub struct ExRTCIceCandidateInit(RTCIceCandidateInit);

#[verifier::external_type_specification]
#[verifier::external_body]
pub struct ExRtpPacket(rtc::rtp::packet::Packet);

/// Whether the engine's SDP parser accepts this text as an offer. Parsing
/// depends on the text alone.
pub uninterp spec fn sdp_offer_parses(sdp: Seq<char>) -> bool;

/// Whether the engine's SDP parser accepts this text as an answer. Parsing
/// depends on the text alone.
pub uninterp spec fn sdp_answer_parses(sdp: Seq<char>) -> bool;

/// Whether this text is a JSON ICE candidate-init record. Parsing depends on
/// the text alone.
pub uninterp spec fn ice_candidate_parses(json: Seq<char>) -> bool;

/// Relies on `RTCSessionDescription::offer`: it parses the SDP text eagerly
/// and returns `Ok` exactly when the text is valid SDP.
#[verifier::external_body]
pub(crate) fn parse_offer(sdp: String) -> (r: Option<RTCSessionDescription>)
    ensures
        r is Some == sdp_offer_parses(sdp@),
{
    RTCSessionDescription::offer(sdp).ok()
}

/// Relies on `RTCSessionDescription::answer`: it parses the SDP text eagerly
/// and returns `Ok` exactly when the text is valid SDP.
#[verifier::external_body]
pub(crate) fn parse_answer(sdp: String) -> (r: Option<RTCSessionDescription>)
    ensures
        r is Some == sdp_answer_parses(sdp@),
{
    RTCSessionDescription::answer(sdp).ok()
}

/// Relies on `serde_json::from_str::<RTCIceCandidateInit>`: it returns `Ok`
/// exactly when the text is a JSON record with the candidate-init fields.
#[verifier::external_body]
pub(crate) fn parse_ice_candidate(json: &String) -> (r: Option<RTCIceCandidateInit>)
    ensures
        r is Some == ice_candidate_parses(json@),
{
    serde_json::from_str::<RTCIceCandidateInit>(json).ok()
}

} // verus!
