//! Decisions of the media forwarding workers and the keyframe-request loop.
//!
//! A forwarding worker reads RTP packets from one remote track and writes
//! them, unchanged and in order, to one outbound track. The reading and
//! writing are the runtime's; every decision in between is here.

use vstd::prelude::*;
use crate::peer::MediaKind;
use rtc::rtp::packet::Packet;

verus! {

/// What one read from the remote track produced: an RTP packet, some other
/// track event, or the end of the track.
pub enum ReadEvent {
    Rtp(Packet),
    Other,
    Closed,
}

/// What the worker does with one read: deliver a packet to the outbound
/// track, skip the event, or stop.
pub enum ForwardStep {
    Deliver(Packet),
    Skip,
    Stop,
}

/// How one write to the outbound track ended. `ClosedPipe` is the expected
/// end on peer teardown; `Failed` is any other write error.
#[derive(Debug, Clone, Copy, PartialEq, Eq, Structural)]
pub enum WriteOutcome {
    Accepted,
    ClosedPipe,
    Failed,
}

/// What the worker does with one read, as a function: a packet is delivered
/// exactly as it was read, any other event is skipped, the end of the track
/// stops the worker.
pub open spec fn spec_forward_step(ev: ReadEvent) -> ForwardStep {
    match ev {
        ReadEvent::Rtp(p) => ForwardStep::Deliver(p),
        ReadEvent::Other => ForwardStep::Skip,
        ReadEvent::Closed => ForwardStep::Stop,
    }
}

/// One step of the forwarding worker: a packet read from the remote track is
/// delivered to the outbound track exactly as it was read; any other event
/// is skipped; the end of the track stops the worker.
pub fn forward_step(ev: ReadEvent) -> (s: ForwardStep)
    ensures
        s == spec_forward_step(ev),
        ev matches ReadEvent::Rtp(p) ==> s == ForwardStep::Deliver(p),
{
    match ev {
        ReadEvent::Rtp(p) => ForwardStep::Deliver(p),
        ReadEvent::Other => ForwardStep::Skip,
        ReadEvent::Closed => ForwardStep::Stop,
    }
}

/// The RTP packets among a sequence of reads, in reading order.
pub open spec fn packets_read(evs: Seq<ReadEvent>) -> Seq<Packet>
    decreases evs.len(),
{
    if evs.len() == 0 {
        Seq::empty()
    } else {
        let rest = packets_read(evs.drop_last());
        match evs.last() {
            ReadEvent::Rtp(p) => rest.push(p),
            _ => rest,
        }
    }
}

/// The packets the worker's per-read decisions deliver, in decision order.
pub open spec fn packets_delivered(evs: Seq<ReadEvent>) -> Seq<Packet>
    decreases evs.len(),
{
    if evs.len() == 0 {
        Seq::empty()
    } else {
        let rest = packets_delivered(evs.drop_last());
        match spec_forward_step(evs.last()) {
            ForwardStep::Deliver(p) => rest.push(p),
            _ => rest,
        }
    }
}

/// Forward fidelity: across any sequence of reads from a remote track, the
/// packet sequence the worker delivers to its outbound track is exactly the
/// packet sequence it read — unchanged, and in order.
pub proof fn lemma_forward_fidelity(evs: Seq<ReadEvent>)
    ensures
        packets_delivered(evs) == packets_read(evs),
    decreases evs.len(),
{
    if evs.len() > 0 {
        lemma_forward_fidelity(evs.drop_last());
    }
}

/// Whether the worker keeps running after a write: only while writes are
/// accepted. A closed pipe ends it cleanly; any other error ends it too
/// (after logging).
pub fn forward_continues(outcome: WriteOutcome) -> (c: bool)
    ensures
        c == (outcome is Accepted),
{
    match outcome {
        WriteOutcome::Accepted => true,
        WriteOutcome::ClosedPipe => false,
        WriteOutcome::Failed => false,
    }
}

/// Whether a write error is the expected end of the pipe, as opposed to one
/// worth logging as a fault.
pub fn write_error_is_expected(outcome: WriteOutcome) -> (r: bool)
    ensures
        r == (outcome is ClosedPipe),
{
    outcome == WriteOutcome::ClosedPipe
}

/// A Picture Loss Indication request: ask the publisher of `media_ssrc` for
/// a keyframe.
#[derive(Debug, Clone, Copy, PartialEq, Eq, Structural)]
pub struct Pli {
    pub sender_ssrc: u32,
    pub media_ssrc: u32,
}

/// Seconds between two keyframe requests for one inbound video track.
pub const PLI_INTERVAL_SECS: u64 = 3;

/// The keyframe request sent for an inbound track: addressed to the track's
/// source, with the sender left as zero.
pub fn pli_for(media_ssrc: u32) -> (p: Pli)
    ensures
        p.sender_ssrc == 0,
        p.media_ssrc == media_ssrc,
{
    Pli { sender_ssrc: 0, media_ssrc }
}

/// Whether an inbound track gets a keyframe-request ticker: only video does.
pub fn needs_pli_ticker(kind: MediaKind) -> (r: bool)
    ensures
        r == (kind is Video),
{
    match kind {
        MediaKind::Video => true,
        MediaKind::Audio => false,
    }
}

/// Whether the ticker keeps running: only while the peer connection is still
/// alive (its weak handle upgrades) and the last request went through.
pub fn pli_ticker_continues(connection_alive: bool, last_write_ok: bool) -> (c: bool)
    ensures
        c == (connection_alive && last_write_ok),
{
    connection_alive && last_write_ok
}

} // verus!
