//! One discovered playback source: its identity, its cached friendly
//! name, and its outbox of change events.
//!
//! The platform edge subscribes to the host's change notifications and
//! forwards each one through [`Player::notify_event`]; a consumer drains
//! them in order through [`Player::poll_next_event`]. Transport commands
//! and reads happen at the edge; what they return is handed in here as
//! the plain snapshots of [`crate::types`].

use crate::types::{
    ArtData, ControlsSnapshot, MediaProperties, PlaybackInfo, Position, Status, Timeline,
};
use crate::util::{
    autorepeat_str, autorepeat_to_string, capabilities_of, compute_position,
    get_session_capabilities, get_session_metadata, metadata_matches, no_capabilities,
    playback_status_str, playback_status_to_string, raw_offset_ms, reported_when_ms,
};
use vstd::prelude::*;

verus! {

/// Per-session change notification, delivered in order through the
/// session's outbox.
#[derive(Clone, Copy, Debug, PartialEq, Eq, Structural)]
pub enum PlayerEvent {
    PlaybackInfoChanged,
    MediaPropertiesChanged,
    TimelinePropertiesChanged,
}

/// The transport-state line of a status report; a session whose
/// playback info cannot be read shows as "Unknown".
pub open spec fn status_display_str(playback_info: Option<&PlaybackInfo>) -> Seq<char> {
    match playback_info {
        Some(p) => playback_status_str(p.status),
        None => "Unknown"@,
    }
}

/// The repeat-mode line of a status report; an unreported mode shows as
/// "None".
pub open spec fn loop_display_str(playback_info: Option<&PlaybackInfo>) -> Seq<char> {
    match playback_info {
        Some(p) => match p.repeat {
            Some(m) => autorepeat_str(m),
            None => "None"@,
        },
        None => "None"@,
    }
}

/// The shuffle flag of a status report; unreported means off.
pub open spec fn shuffle_display(playback_info: Option<&PlaybackInfo>) -> bool {
    match playback_info {
        Some(p) => match p.shuffle {
            Some(b) => b,
            None => false,
        },
        None => false,
    }
}

/// One playback source. The `aumid` is the host-supplied application
/// identity that keys the registry; `friendly_name` is resolved lazily
/// and cached once present; `events` is the outbox of pending change
/// notifications, oldest first.
pub struct Player {
    pub aumid: String,
    pub friendly_name: Option<String>,
    pub events: Vec<PlayerEvent>,
}

impl Player {
    /// A freshly discovered session: no cached name, empty outbox.
    pub fn new(aumid: String) -> (p: Player)
        ensures
            p.aumid == aumid,
            p.friendly_name is None,
            p.events@ == Seq::<PlayerEvent>::empty(),
    {
        Player { aumid, friendly_name: None, events: Vec::new() }
    }

    pub fn get_aumid(&self) -> (r: String)
        ensures
            r == self.aumid,
    {
        self.aumid.clone()
    }

    /// Appends one change notification to the outbox; called by the
    /// platform edge when the host fires a notification for this
    /// session.
    pub fn notify_event(&mut self, event: PlayerEvent)
        ensures
            final(self).events@ == old(self).events@.push(event),
            final(self).aumid == old(self).aumid,
            final(self).friendly_name == old(self).friendly_name,
    {
        self.events.push(event);
    }

    /// Takes the oldest pending notification out of the outbox, or
    /// returns `None` when there is none.
    pub fn poll_next_event(&mut self) -> (r: Option<PlayerEvent>)
        ensures
            old(self).events@.len() == 0 ==> (r is None && *final(self) == *old(self)),
            old(self).events@.len() > 0 ==> (r == Some(old(self).events@[0])
                && final(self).events@ == old(self).events@.drop_first()),
            final(self).aumid == old(self).aumid,
            final(self).friendly_name == old(self).friendly_name,
    {
        if self.events.len() == 0 {
            None
        } else {
            let e = self.events.remove(0);
            assert(final(self).events@ =~= old(self).events@.drop_first());
            Some(e)
        }
    }

    /// Caches the resolved display name: a name already present stays,
    /// a fresh resolution (even a failed one, `None`) is recorded
    /// otherwise.
    pub fn populate_friendly_name(&mut self, resolved: Option<String>)
        ensures
            final(self).friendly_name == (if old(self).friendly_name is Some {
                old(self).friendly_name
            } else {
                resolved
            }),
            final(self).aumid == old(self).aumid,
            final(self).events == old(self).events,
    {
        if self.friendly_name.is_none() {
            self.friendly_name = resolved;
        }
    }

    /// Assembles the session's full status from the snapshots the
    /// platform edge read: metadata and capabilities as
    /// [`get_session_metadata`] and [`get_session_capabilities`] build
    /// them, the display strings of the playback info, and the raw
    /// (uncompensated) position.
    pub fn get_status(
        &self,
        playback_info: Option<&PlaybackInfo>,
        timeline: Option<&Timeline>,
        props: Option<&MediaProperties>,
        art_data: Option<ArtData>,
        controls: Option<&ControlsSnapshot>,
    ) -> (r: Status)
        requires
            timeline matches Some(t) ==> t.wf(),
        ensures
            metadata_matches(r.metadata, props, timeline, art_data),
            r.capabilities == (match controls {
                Some(c) => capabilities_of(
                    *c,
                    match timeline {
                        Some(t) => t.end_time_ticks,
                        None => 0,
                    },
                ),
                None => no_capabilities(),
            }),
            r.status@ == status_display_str(playback_info),
            r.is_loop@ == loop_display_str(playback_info),
            r.shuffle == shuffle_display(playback_info),
            r.elapsed is Some <==> (timeline matches Some(t) && t.end_time_ticks != 0),
            r.elapsed matches Some(pos) ==> (timeline matches Some(t) && pos.how_much_ms
                == raw_offset_ms(*t) && pos.when_ms == reported_when_ms(*t)),
            r.app == Some(self.aumid),
    {
        let end_time_ticks: i64 = match timeline {
            Some(t) => t.end_time_ticks,
            None => 0,
        };
        let status = match playback_info {
            Some(p) => playback_status_to_string(p.status),
            None => String::from_str("Unknown"),
        };
        let is_loop = match playback_info {
            Some(p) => match p.repeat {
                Some(m) => autorepeat_to_string(m),
                None => String::from_str("None"),
            },
            None => String::from_str("None"),
        };
        let shuffle = match playback_info {
            Some(p) => match p.shuffle {
                Some(b) => b,
                None => false,
            },
            None => false,
        };
        Status {
            metadata: get_session_metadata(props, timeline, art_data),
            capabilities: get_session_capabilities(controls, end_time_ticks),
            status,
            is_loop,
            shuffle,
            elapsed: compute_position(timeline, playback_info, false),
            app: Some(self.aumid.clone()),
        }
    }
}

} // verus!
