//! Pure helpers: host-epoch conversion, status strings, capabilities,
//! metadata assembly and the position reconciler.

use crate::types::{
    ArtData, Capabilities, ControlsSnapshot, MediaProperties, Metadata, PlaybackInfo,
    PlaybackStatus, Position, RepeatMode, Timeline,
};
use vstd::arithmetic::div_mod::{lemma_div_is_ordered, lemma_div_pos_is_pos};
use vstd::prelude::*;

verus! {

/// 100-nanosecond ticks per millisecond.
pub const TICKS_PER_MILLISECOND: i64 = 10000;

/// Ticks between the host's calendar origin and the UNIX epoch.
pub const UNIX_TIMESTAMP_DIFFERENCE: i64 = 0x019DB1DED53E8000;

/// A host-epoch instant (100-nanosecond ticks since the host's calendar
/// origin) as UNIX milliseconds, rounded toward zero.
pub open spec fn unix_ms_of_host_ticks(ticks: int) -> int {
    if ticks >= UNIX_TIMESTAMP_DIFFERENCE {
        (ticks - UNIX_TIMESTAMP_DIFFERENCE) / (TICKS_PER_MILLISECOND as int)
    } else {
        -((UNIX_TIMESTAMP_DIFFERENCE - ticks) / (TICKS_PER_MILLISECOND as int))
    }
}

/// Converts a host-epoch instant to UNIX milliseconds, exactly, in integer
/// arithmetic.
pub fn shitty_windows_epoch_to_actually_usable_unix_timestamp(shitty_time: i64) -> (r: i64)
    ensures
        r == unix_ms_of_host_ticks(shitty_time as int),
{
    if shitty_time >= UNIX_TIMESTAMP_DIFFERENCE {
        let d: u64 = (shitty_time - UNIX_TIMESTAMP_DIFFERENCE) as u64;
        (d / (TICKS_PER_MILLISECOND as u64)) as i64
    } else {
        // `UNIX_TIMESTAMP_DIFFERENCE - shitty_time` can exceed `i64::MAX`,
        // so the distance is assembled in `u64`.
        let d: u64 = if shitty_time >= 0 {
            (UNIX_TIMESTAMP_DIFFERENCE - shitty_time) as u64
        } else {
            let neg_part: u64 = (-(shitty_time + 1)) as u64;
            (UNIX_TIMESTAMP_DIFFERENCE as u64) + neg_part + 1
        };
        assert(d == UNIX_TIMESTAMP_DIFFERENCE - shitty_time);
        let q: u64 = d / (TICKS_PER_MILLISECOND as u64);
        proof {
            lemma_div_is_ordered(
                d as int,
                UNIX_TIMESTAMP_DIFFERENCE + 0x8000000000000000,
                TICKS_PER_MILLISECOND as int,
            );
        }
        -(q as i64)
    }
}

/// Any `i64` tick count converts to well under 2^50 milliseconds in
/// magnitude.
pub proof fn lemma_unix_ms_of_host_ticks_bounds(ticks: int)
    requires
        -0x8000000000000000 <= ticks <= 0x7fffffffffffffff,
    ensures
        -0x4000000000000 < unix_ms_of_host_ticks(ticks) < 0x4000000000000,
{
    if ticks >= UNIX_TIMESTAMP_DIFFERENCE {
        lemma_div_pos_is_pos(ticks - UNIX_TIMESTAMP_DIFFERENCE, TICKS_PER_MILLISECOND as int);
        lemma_div_is_ordered(
            ticks - UNIX_TIMESTAMP_DIFFERENCE,
            0x7fffffffffffffff,
            TICKS_PER_MILLISECOND as int,
        );
    } else {
        lemma_div_pos_is_pos(UNIX_TIMESTAMP_DIFFERENCE - ticks, TICKS_PER_MILLISECOND as int);
        lemma_div_is_ordered(
            UNIX_TIMESTAMP_DIFFERENCE - ticks,
            UNIX_TIMESTAMP_DIFFERENCE + 0x8000000000000000,
            TICKS_PER_MILLISECOND as int,
        );
    }
}

/// The name under which a transport state is reported to callers.
pub open spec fn playback_status_str(status: PlaybackStatus) -> Seq<char> {
    match status {
        PlaybackStatus::Playing => "Playing"@,
        PlaybackStatus::Paused => "Paused"@,
        PlaybackStatus::Stopped => "Stopped"@,
        PlaybackStatus::Changing => "Changing"@,
        PlaybackStatus::Closed => "Closed"@,
        PlaybackStatus::Opened => "Opened"@,
        PlaybackStatus::Unknown => "Unknown"@,
    }
}

pub fn playback_status_to_string(status: PlaybackStatus) -> (r: String)
    ensures
        r@ == playback_status_str(status),
{
    match status {
        PlaybackStatus::Playing => String::from_str("Playing"),
        PlaybackStatus::Paused => String::from_str("Paused"),
        PlaybackStatus::Stopped => String::from_str("Stopped"),
        PlaybackStatus::Changing => String::from_str("Changing"),
        PlaybackStatus::Closed => String::from_str("Closed"),
        PlaybackStatus::Opened => String::from_str("Opened"),
        PlaybackStatus::Unknown => String::from_str("Unknown"),
    }
}

/// The name under which an auto-repeat mode is reported to callers;
/// `Off` is reported under the host's name for it, "None".
pub open spec fn autorepeat_str(autorepeat: RepeatMode) -> Seq<char> {
    match autorepeat {
        RepeatMode::List => "List"@,
        RepeatMode::Track => "Track"@,
        RepeatMode::Off => "None"@,
    }
}

pub fn autorepeat_to_string(autorepeat: RepeatMode) -> (r: String)
    ensures
        r@ == autorepeat_str(autorepeat),
{
    match autorepeat {
        RepeatMode::List => String::from_str("List"),
        RepeatMode::Track => String::from_str("Track"),
        RepeatMode::Off => String::from_str("None"),
    }
}

/// The repeat-mode cycle a toggle command steps through: off, list,
/// track, off again; an unreadable current mode restarts at off.
pub fn next_repeat_mode(current: Option<RepeatMode>) -> (r: RepeatMode)
    ensures
        r == (match current {
            Some(RepeatMode::Off) => RepeatMode::List,
            Some(RepeatMode::List) => RepeatMode::Track,
            Some(RepeatMode::Track) => RepeatMode::Off,
            None => RepeatMode::Off,
        }),
{
    match current {
        Some(RepeatMode::Off) => RepeatMode::List,
        Some(RepeatMode::List) => RepeatMode::Track,
        Some(RepeatMode::Track) => RepeatMode::Off,
        None => RepeatMode::Off,
    }
}

/// Capabilities of a session whose playback controls could not be read:
/// nothing is allowed.
pub open spec fn no_capabilities() -> Capabilities {
    Capabilities {
        can_control: false,
        can_play_pause: false,
        can_go_next: false,
        can_go_previous: false,
        can_seek: false,
    }
}

/// Capabilities derived from a controls snapshot: play/pause is one
/// ability, seeking needs both the control and a non-empty timeline, and
/// `can_control` holds when any transport control does.
pub open spec fn capabilities_of(controls: ControlsSnapshot, end_time_ticks: i64) -> Capabilities {
    let can_play_pause = controls.is_play_enabled || controls.is_pause_enabled;
    let can_go_next = controls.is_next_enabled;
    let can_go_previous = controls.is_previous_enabled;
    let can_seek = controls.is_playback_position_enabled && end_time_ticks != 0;
    Capabilities {
        can_control: can_play_pause || can_go_next || can_go_previous || can_seek,
        can_play_pause,
        can_go_next,
        can_go_previous,
        can_seek,
    }
}

/// Maps a session's playback-controls snapshot, together with the
/// timeline's end time, to its capabilities. `controls` is `None` when
/// the playback info or its controls could not be read; `end_time_ticks`
/// is `0` when the timeline could not be.
pub fn get_session_capabilities(controls: Option<&ControlsSnapshot>, end_time_ticks: i64) -> (r:
    Capabilities)
    ensures
        r == match controls {
            Some(c) => capabilities_of(*c, end_time_ticks),
            None => no_capabilities(),
        },
{
    if let Some(c) = controls {
        let can_play_pause = c.is_play_enabled || c.is_pause_enabled;
        let can_go_next = c.is_next_enabled;
        let can_go_previous = c.is_previous_enabled;
        let can_seek = c.is_playback_position_enabled && end_time_ticks != 0;
        Capabilities {
            can_control: can_play_pause || can_go_next || can_go_previous || can_seek,
            can_play_pause,
            can_go_next,
            can_go_previous,
            can_seek,
        }
    } else {
        Capabilities {
            can_control: false,
            can_play_pause: false,
            can_go_next: false,
            can_go_previous: false,
            can_seek: false,
        }
    }
}

/// The transport state a position reading goes by; a missing playback
/// info counts as stopped.
pub open spec fn status_of(playback_info: Option<&PlaybackInfo>) -> PlaybackStatus {
    match playback_info {
        Some(p) => p.status,
        None => PlaybackStatus::Stopped,
    }
}

/// The wall-clock instant a timeline snapshot was valid as of, in UNIX
/// milliseconds.
pub open spec fn reported_when_ms(t: Timeline) -> int {
    unix_ms_of_host_ticks(t.last_updated_ticks as int)
}

/// Offset into the track as the snapshot reports it: position minus
/// start time, in milliseconds.
pub open spec fn raw_offset_ms(t: Timeline) -> int {
    t.position_ticks as int / (TICKS_PER_MILLISECOND as int) - t.start_time_ticks as int / (
    TICKS_PER_MILLISECOND as int)
}

/// The snapshot's offset extrapolated to the instant `now_ms`: the raw
/// offset plus the wall-clock time elapsed since the snapshot was taken.
pub open spec fn compensated_offset_ms(t: Timeline, now_ms: int) -> int {
    raw_offset_ms(t) + (now_ms - reported_when_ms(t))
}

/// Largest wall-clock magnitude (in UNIX milliseconds) the reconciler
/// accepts; 2^53 ms is roughly 285,000 years either side of the epoch.
pub const MAX_CLOCK_MS: i64 = 0x20000000000000;

/// Position reconciliation against a given clock reading. Returns `None`
/// exactly when there is no timeline or its end time is zero (nothing
/// loaded). Otherwise the returned offset is the snapshot's raw offset,
/// extrapolated to `now_ms` when `account_for_time_skew` is set and the
/// transport is playing.
pub fn compute_position_with_now(
    timeline: Option<&Timeline>,
    playback_info: Option<&PlaybackInfo>,
    account_for_time_skew: bool,
    now_ms: i64,
) -> (r: Option<Position>)
    requires
        timeline matches Some(t) ==> t.wf(),
        -MAX_CLOCK_MS <= now_ms <= MAX_CLOCK_MS,
    ensures
        r is Some <==> (timeline matches Some(t) && t.end_time_ticks != 0),
        r matches Some(p) ==> (timeline matches Some(t) && (if account_for_time_skew && status_of(
            playback_info,
        ) is Playing {
            p.how_much_ms == compensated_offset_ms(*t, now_ms as int) && p.when_ms == now_ms
        } else {
            p.how_much_ms == raw_offset_ms(*t) && p.when_ms == reported_when_ms(*t)
        })),
{
    match timeline {
        None => None,
        Some(t) => {
            if t.end_time_ticks == 0 {
                None
            } else {
                let status = match playback_info {
                    Some(p) => p.status,
                    None => PlaybackStatus::Stopped,
                };
                let when: i64 = shitty_windows_epoch_to_actually_usable_unix_timestamp(
                    t.last_updated_ticks,
                );
                proof {
                    lemma_unix_ms_of_host_ticks_bounds(t.last_updated_ticks as int);
                    lemma_div_is_ordered(
                        t.position_ticks as int,
                        0x7fffffffffffffff,
                        TICKS_PER_MILLISECOND as int,
                    );
                    lemma_div_is_ordered(
                        t.start_time_ticks as int,
                        0x7fffffffffffffff,
                        TICKS_PER_MILLISECOND as int,
                    );
                }
                let position_ms: i64 = ((t.position_ticks as u64) / (TICKS_PER_MILLISECOND
                    as u64)) as i64;
                let start_ms: i64 = ((t.start_time_ticks as u64) / (TICKS_PER_MILLISECOND
                    as u64)) as i64;
                let raw: i64 = position_ms - start_ms;
                if account_for_time_skew && matches!(status, PlaybackStatus::Playing) {
                    Some(Position { how_much_ms: raw + (now_ms - when), when_ms: now_ms })
                } else {
                    Some(Position { how_much_ms: raw, when_ms: when })
                }
            }
        },
    }
}

/// With compensation on and the transport playing, reading the same
/// snapshot at two instants moves the offset forward by exactly the time
/// between the instants: the compensated position tracks the wall clock.
pub proof fn lemma_skew_compensation_monotonic(t: Timeline, t0_ms: int, t1_ms: int)
    ensures
        compensated_offset_ms(t, t1_ms) - compensated_offset_ms(t, t0_ms) == t1_ms - t0_ms,
{
}

/// Position reconciliation as callers use it: reads the wall clock only
/// when `account_for_time_skew` is set and the transport is playing. In
/// every other case the result is exactly the snapshot's raw offset and
/// reported instant; in that one case the difference `how_much_ms -
/// when_ms` is pinned, while `when_ms` itself is the clock reading.
pub fn compute_position(
    timeline: Option<&Timeline>,
    playback_info: Option<&PlaybackInfo>,
    account_for_time_skew: bool,
) -> (r: Option<Position>)
    requires
        timeline matches Some(t) ==> t.wf(),
    ensures
        r is Some <==> (timeline matches Some(t) && t.end_time_ticks != 0),
        r matches Some(p) ==> (timeline matches Some(t) && (if account_for_time_skew && status_of(
            playback_info,
        ) is Playing {
            p.how_much_ms - p.when_ms == raw_offset_ms(*t) - reported_when_ms(*t) && 0 <= p.when_ms
                <= MAX_CLOCK_MS
        } else {
            p.how_much_ms == raw_offset_ms(*t) && p.when_ms == reported_when_ms(*t)
        })),
{
    let playing = match playback_info {
        Some(p) => matches!(p.status, PlaybackStatus::Playing),
        None => false,
    };
    if account_for_time_skew && playing {
        let now_ms = now_unix_ms();
        compute_position_with_now(timeline, playback_info, true, now_ms)
    } else {
        compute_position_with_now(timeline, playback_info, false, 0)
    }
}

/// The 32-digit lower-case hex form of the MD5 digest of a text's UTF-8
/// bytes; named, not spelled out, since the digest itself is the
/// outside crate's business.
pub uninterp spec fn md5_hex_of(text: Seq<char>) -> Seq<char>;

/// Relies on `md5::compute` and the `LowerHex` impl of `md5::Digest`:
/// the digest of the text's UTF-8 bytes, a function of the text alone,
/// written as two lower-case hex digits for each of its 16 bytes.
#[verifier::external_body]
fn md5_hex(text: &String) -> (r: String)
    ensures
        r@ == md5_hex_of(text@),
        r@.len() == 32,
{
    format!("{:x}", md5::compute(text.as_bytes()))
}

/// The view of an optional text, the empty sequence when absent.
pub open spec fn opt_str_view(s: Option<String>) -> Seq<char> {
    match s {
        Some(t) => t@,
        None => Seq::empty(),
    }
}

/// The text a track's identity hash is computed over: album artist,
/// artist, album and title, concatenated, absent fields contributing
/// nothing.
pub open spec fn metadata_id_source(props: MediaProperties) -> Seq<char> {
    opt_str_view(props.album_artist) + props.artist@ + opt_str_view(props.album) + props.title@
}

/// Track length: the timeline's end time minus its start time, in
/// milliseconds.
pub open spec fn timeline_length_ms(t: Timeline) -> int {
    t.end_time_ticks as int / (TICKS_PER_MILLISECOND as int) - t.start_time_ticks as int / (
    TICKS_PER_MILLISECOND as int)
}

fn clone_opt_string(s: &Option<String>) -> (r: Option<String>)
    ensures
        r == *s,
{
    match s {
        Some(t) => Some(t.clone()),
        None => None,
    }
}

/// What [`get_session_metadata`] returns: metadata exists exactly when
/// both snapshots do, its text fields are the snapshot's, its identity
/// hash is the MD5 of album artist, artist, album and title run together
/// (absent when all four are empty), and its length is the timeline's.
pub open spec fn metadata_matches(
    r: Option<Metadata>,
    props: Option<&MediaProperties>,
    timeline: Option<&Timeline>,
    art_data: Option<ArtData>,
) -> bool {
    &&& (r is Some <==> (props is Some && timeline is Some))
    &&& (r matches Some(m) ==> (props matches Some(p) && timeline matches Some(t) && {
        &&& m.album == p.album
        &&& m.album_artist == p.album_artist
        &&& match p.album_artist {
            Some(a) => m.album_artists matches Some(v) && v@ == seq![a],
            None => m.album_artists is None,
        }
        &&& m.artist == p.artist
        &&& m.artists@ == seq![p.artist]
        &&& (if metadata_id_source(*p).len() == 0 {
            m.id is None
        } else {
            m.id matches Some(id) && id@ == md5_hex_of(metadata_id_source(*p))
        })
        &&& m.length_ms == timeline_length_ms(*t)
        &&& m.title == p.title
        &&& m.art_data == art_data
    }))
}

/// Assembles track metadata from a media-properties snapshot and a
/// timeline snapshot; see [`metadata_matches`] for the exact result.
pub fn get_session_metadata(
    props: Option<&MediaProperties>,
    timeline: Option<&Timeline>,
    art_data: Option<ArtData>,
) -> (r: Option<Metadata>)
    requires
        timeline matches Some(t) ==> t.wf(),
    ensures
        metadata_matches(r, props, timeline, art_data),
{
    let (p, t) = match (props, timeline) {
        (Some(p), Some(t)) => (p, t),
        _ => {
            return None;
        },
    };
    let mut id_src = String::new();
    if let Some(aa) = &p.album_artist {
        id_src.append(aa.as_str());
    }
    id_src.append(p.artist.as_str());
    if let Some(al) = &p.album {
        id_src.append(al.as_str());
    }
    id_src.append(p.title.as_str());
    assert(id_src@ =~= metadata_id_source(*p));
    let id = if id_src.as_str().is_empty() {
        None
    } else {
        Some(md5_hex(&id_src))
    };
    let album_artists = match &p.album_artist {
        Some(a) => {
            let mut v: Vec<String> = Vec::new();
            v.push(a.clone());
            Some(v)
        },
        None => None,
    };
    let mut artists: Vec<String> = Vec::new();
    artists.push(p.artist.clone());
    proof {
        lemma_div_pos_is_pos(t.end_time_ticks as int, TICKS_PER_MILLISECOND as int);
        lemma_div_pos_is_pos(t.start_time_ticks as int, TICKS_PER_MILLISECOND as int);
        lemma_div_is_ordered(
            t.end_time_ticks as int,
            0x7fffffffffffffff,
            TICKS_PER_MILLISECOND as int,
        );
        lemma_div_is_ordered(
            t.start_time_ticks as int,
            0x7fffffffffffffff,
            TICKS_PER_MILLISECOND as int,
        );
    }
    let end_ms: i64 = ((t.end_time_ticks as u64) / (TICKS_PER_MILLISECOND as u64)) as i64;
    let start_ms: i64 = ((t.start_time_ticks as u64) / (TICKS_PER_MILLISECOND as u64)) as i64;
    Some(
        Metadata {
            album: clone_opt_string(&p.album),
            album_artist: clone_opt_string(&p.album_artist),
            album_artists,
            artist: p.artist.clone(),
            artists,
            art_data,
            id,
            length_ms: end_ms - start_ms,
            title: p.title.clone(),
        },
    )
}

/// How a session's human-friendly display name is derived from what the
/// host reports: when the host merely echoes the application identity
/// back and that identity names an executable, the trailing ".exe" is
/// trimmed; otherwise the reported name stands.
pub open spec fn trimmed_player_name(name: Seq<char>, aumid: Seq<char>) -> Seq<char> {
    if name == aumid && name.len() >= 4 && name[name.len() - 4] == '.' && name[name.len() - 3]
        == 'e' && name[name.len() - 2] == 'x' && name[name.len() - 1] == 'e' {
        name.subrange(0, name.len() - 4)
    } else {
        name
    }
}

/// Applies [`trimmed_player_name`] to a display name the platform
/// resolved for the given application identity.
pub fn trim_session_player_name(player_name: &String, aumid: &String) -> (r: String)
    ensures
        r@ == trimmed_player_name(player_name@, aumid@),
{
    if player_name.eq(aumid) {
        let s = player_name.as_str();
        let len = s.unicode_len();
        if len >= 4 {
            if s.get_char(len - 4) == '.' && s.get_char(len - 3) == 'e' && s.get_char(len - 2)
                == 'x' && s.get_char(len - 1) == 'e' {
                let trimmed = s.substring_char(0, len - 4);
                return trimmed.to_owned();
            }
        }
    }
    player_name.clone()
}

/// Relies on `chrono::Utc::now` and `chrono::DateTime::timestamp_millis`:
/// the current wall-clock instant as non-leap UNIX milliseconds. `now`
/// only returns instants at or after the UNIX epoch, and `chrono` keeps
/// every date within about 262,000 years of it, well under 2^53
/// milliseconds. The call aborts if the system clock reads before the
/// epoch.
#[verifier::external_body]
fn now_unix_ms() -> (r: i64)
    ensures
        0 <= r <= MAX_CLOCK_MS,
{
    chrono::Utc::now().timestamp_millis()
}

} // verus!
