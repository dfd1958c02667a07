//! Plain data carried between the platform edge and the core logic.
//!
//! Host-side values (session handles, timeline snapshots, playback info)
//! are opaque to this crate; each is mirrored here by a struct of plain
//! fields holding exactly what the logic reads. Times of the host's
//! timeline are kept in its own unit, 100-nanosecond ticks; computed
//! positions and lengths are in milliseconds.

use vstd::prelude::*;

verus! {

/// Transport state of one session, as last reported by the host.
#[derive(Clone, Copy, Debug, PartialEq, Eq, Structural)]
pub enum PlaybackStatus {
    Playing,
    Paused,
    Stopped,
    Changing,
    Closed,
    Opened,
    Unknown,
}

/// Auto-repeat mode of one session. `Off` stands for the host's "no
/// repeat" value.
#[derive(Clone, Copy, Debug, PartialEq, Eq, Structural)]
pub enum RepeatMode {
    Off,
    List,
    Track,
}

/// What the session's transport controls allow right now.
#[derive(Clone, Copy, Debug, PartialEq, Eq, Structural)]
pub struct Capabilities {
    pub can_control: bool,
    pub can_play_pause: bool,
    pub can_go_next: bool,
    pub can_go_previous: bool,
    pub can_seek: bool,
}

/// The per-control flags of the host's playback-controls object, read at
/// the platform edge and handed in as plain booleans.
#[derive(Clone, Copy, Debug, PartialEq, Eq, Structural)]
pub struct ControlsSnapshot {
    pub is_play_enabled: bool,
    pub is_pause_enabled: bool,
    pub is_next_enabled: bool,
    pub is_previous_enabled: bool,
    pub is_playback_position_enabled: bool,
}

/// Cover art bytes with their MIME type.
pub struct ArtData {
    pub data: Vec<u8>,
    pub mimetype: String,
}

/// The text fields of the host's media-properties object, read at the
/// platform edge. A field the host failed to report arrives as its
/// default (empty string) or `None`, as the edge chooses.
pub struct MediaProperties {
    pub title: String,
    pub artist: String,
    pub album: Option<String>,
    pub album_artist: Option<String>,
}

/// Track metadata assembled from a media-properties snapshot.
pub struct Metadata {
    pub album: Option<String>,
    pub album_artist: Option<String>,
    pub album_artists: Option<Vec<String>>,
    pub artist: String,
    pub artists: Vec<String>,
    pub art_data: Option<ArtData>,
    pub id: Option<String>,
    /// Track length, `end_time - start_time` of the timeline, in milliseconds.
    pub length_ms: i64,
    pub title: String,
}

/// One timeline snapshot of a session. `position_ticks`, `start_time_ticks`
/// and `end_time_ticks` are durations in 100-nanosecond ticks;
/// `last_updated_ticks` is an instant in the host's epoch (100-nanosecond
/// ticks since its calendar origin).
#[derive(Clone, Copy, Debug, PartialEq, Eq, Structural)]
pub struct Timeline {
    pub position_ticks: i64,
    pub start_time_ticks: i64,
    pub end_time_ticks: i64,
    pub last_updated_ticks: i64,
}

impl Timeline {
    /// Durations reported by the host are non-negative.
    pub open spec fn wf(self) -> bool {
        0 <= self.position_ticks && 0 <= self.start_time_ticks && 0 <= self.end_time_ticks
    }
}

/// One playback-info snapshot of a session. `repeat` and `shuffle` are
/// `None` when the host did not report them.
#[derive(Clone, Copy, Debug, PartialEq, Eq, Structural)]
pub struct PlaybackInfo {
    pub status: PlaybackStatus,
    pub repeat: Option<RepeatMode>,
    pub shuffle: Option<bool>,
}

/// A playback-offset measurement: `how_much_ms` milliseconds into the
/// track, valid as of the wall-clock instant `when_ms` (UNIX milliseconds).
#[derive(Clone, Copy, Debug, PartialEq, Eq, Structural)]
pub struct Position {
    pub how_much_ms: i64,
    pub when_ms: i64,
}

/// Full status of one session, assembled from the snapshots above.
pub struct Status {
    pub metadata: Option<Metadata>,
    pub capabilities: Capabilities,
    pub status: String,
    pub is_loop: String,
    pub shuffle: bool,
    pub elapsed: Option<Position>,
    pub app: Option<String>,
}

/// One entry of a session enumeration: the session's application identity
/// string and its transport state at the moment of the scan.
pub struct SessionSnapshot {
    pub aumid: String,
    pub status: PlaybackStatus,
}

} // verus!
