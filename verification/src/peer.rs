//! The peer table's entries and the plain records that describe media tracks.

use vstd::prelude::*;
use vstd::string::*;

verus! {

/// The two media kinds a peer can publish or receive.
#[derive(Debug, Clone, Copy, PartialEq, Eq, Structural)]
pub enum MediaKind {
    Audio,
    Video,
}

/// What the coordinator records of an inbound remote track: its RTP
/// synchronization source and its media kind.
#[derive(Debug, Clone, Copy, PartialEq, Eq, Structural)]
pub struct RemoteTrack {
    pub ssrc: u32,
    pub kind: MediaKind,
}

/// The outbound tracks attached to one peer's connection, at most one per
/// media kind. A slot holds the identifier under which the runtime keeps the
/// engine's track handle.
#[derive(Debug, Clone, Copy, PartialEq, Eq, Structural)]
pub struct OutputTracks {
    pub audio: Option<u64>,
    pub video: Option<u64>,
}

impl OutputTracks {
    /// The slot for the given media kind.
    pub open spec fn spec_get(self, kind: MediaKind) -> Option<u64> {
        match kind {
            MediaKind::Audio => self.audio,
            MediaKind::Video => self.video,
        }
    }

    /// No outbound track of either kind yet.
    pub fn none() -> (r: OutputTracks)
        ensures
            r.audio is None,
            r.video is None,
    {
        OutputTracks { audio: None, video: None }
    }

    /// Reads the slot for the given media kind.
    pub fn get(&self, kind: MediaKind) -> (r: Option<u64>)
        ensures
            r == self.spec_get(kind),
    {
        match kind {
            MediaKind::Audio => self.audio,
            MediaKind::Video => self.video,
        }
    }

    /// Fills the slot for the given media kind, leaving the other one alone.
    pub fn set(&mut self, kind: MediaKind, track: u64)
        ensures
            final(self).spec_get(kind) == Some(track),
            forall|k: MediaKind| k != kind ==> final(self).spec_get(k) == old(self).spec_get(k),
    {
        match kind {
            MediaKind::Audio => {
                self.audio = Some(track);
            },
            MediaKind::Video => {
                self.video = Some(track);
            },
        }
    }
}

/// The MIME type an outbound track of this kind is created with: VP8 for
/// video, Opus for audio.
pub fn mime_type_for(kind: MediaKind) -> (s: String)
    ensures
        kind is Video ==> s@ == "video/VP8"@,
        kind is Audio ==> s@ == "audio/opus"@,
{
    match kind {
        MediaKind::Video => String::from_str("video/VP8"),
        MediaKind::Audio => String::from_str("audio/opus"),
    }
}

/// The label an outbound track of this kind is created under.
pub fn track_label_for(kind: MediaKind) -> (s: String)
    ensures
        kind is Video ==> s@ == "track-video"@,
        kind is Audio ==> s@ == "track-audio"@,
{
    match kind {
        MediaKind::Video => String::from_str("track-video"),
        MediaKind::Audio => String::from_str("track-audio"),
    }
}

/// The stream id every outbound track is created under.
pub fn stream_id() -> (s: String)
    ensures
        s@ == "webrtc-rs"@,
{
    String::from_str("webrtc-rs")
}

/// One connected participant, as the coordinator sees it: its identifier, the
/// handle of its signaling channel, the outbound tracks attached to its
/// connection, and the remote tracks it publishes.
#[derive(Debug, Clone)]
pub struct Peer {
    /// The id for this peer in the call.
    pub uuid: String,
    /// Handle of the socket to transmit back on; the runtime maps it to the
    /// sender half of the peer's signaling channel.
    pub tx: u64,
    /// At most one outbound track per media kind.
    pub output_tracks: OutputTracks,
    /// The remote tracks this peer has begun publishing.
    pub published: Vec<RemoteTrack>,
}

impl Peer {
    /// The outbound track of the given kind, if one is attached.
    pub open spec fn spec_output(self, kind: MediaKind) -> Option<u64> {
        self.output_tracks.spec_get(kind)
    }

    /// Whether this peer publishes a remote track with the given source id.
    pub open spec fn publishes_ssrc(self, ssrc: u32) -> bool {
        exists|i: int| 0 <= i < self.published@.len() && self.published@[i].ssrc == ssrc
    }

    /// A fresh entry: no outbound tracks, nothing published.
    pub fn new(uuid: String, tx: u64) -> (p: Peer)
        ensures
            p.uuid@ == uuid@,
            p.tx == tx,
            p.output_tracks.audio is None,
            p.output_tracks.video is None,
            p.published@ =~= Seq::<RemoteTrack>::empty(),
    {
        Peer { uuid, tx, output_tracks: OutputTracks::none(), published: Vec::new() }
    }
}

} // verus!
