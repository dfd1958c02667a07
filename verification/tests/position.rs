use smtc_core::types::{
    Capabilities, ControlsSnapshot, MediaProperties, PlaybackInfo, PlaybackStatus, RepeatMode,
    Timeline,
};
use smtc_core::util::{
    autorepeat_to_string, compute_position, compute_position_with_now, get_session_capabilities,
    get_session_metadata, next_repeat_mode, playback_status_to_string,
    shitty_windows_epoch_to_actually_usable_unix_timestamp, trim_session_player_name,
    TICKS_PER_MILLISECOND, UNIX_TIMESTAMP_DIFFERENCE,
};

fn timeline(position: i64, start: i64, end: i64, last_updated: i64) -> Timeline {
    Timeline {
        position_ticks: position,
        start_time_ticks: start,
        end_time_ticks: end,
        last_updated_ticks: last_updated,
    }
}

fn playing_info() -> PlaybackInfo {
    PlaybackInfo { status: PlaybackStatus::Playing, repeat: None, shuffle: None }
}

fn paused_info() -> PlaybackInfo {
    PlaybackInfo { status: PlaybackStatus::Paused, repeat: None, shuffle: None }
}

#[test]
fn epoch_conversion_fixed_point() {
    // 2022-01-01 00:00:00 UTC in host ticks and in UNIX milliseconds.
    assert_eq!(
        shitty_windows_epoch_to_actually_usable_unix_timestamp(132854688000000000),
        1640995200000
    );
}

#[test]
fn epoch_conversion_origin_and_truncation() {
    let d = UNIX_TIMESTAMP_DIFFERENCE;
    assert_eq!(shitty_windows_epoch_to_actually_usable_unix_timestamp(d), 0);
    assert_eq!(shitty_windows_epoch_to_actually_usable_unix_timestamp(d + 5000), 0);
    assert_eq!(shitty_windows_epoch_to_actually_usable_unix_timestamp(d + 15000), 1);
    assert_eq!(shitty_windows_epoch_to_actually_usable_unix_timestamp(d - 5000), 0);
    assert_eq!(shitty_windows_epoch_to_actually_usable_unix_timestamp(d - 15000), -1);
    assert_eq!(shitty_windows_epoch_to_actually_usable_unix_timestamp(0), -11644473600000);
}

#[test]
fn position_none_without_timeline() {
    assert!(compute_position(None, Some(&playing_info()), true).is_none());
    assert!(compute_position(None, None, false).is_none());
}

#[test]
fn position_none_on_zero_length() {
    // A zero end time means "nothing loaded", whatever the other fields say.
    let t = timeline(50000, 10000, 0, UNIX_TIMESTAMP_DIFFERENCE);
    assert!(compute_position(Some(&t), Some(&playing_info()), true).is_none());
    assert!(compute_position(Some(&t), Some(&paused_info()), false).is_none());
    let t2 = timeline(0, 0, 0, 0);
    assert!(compute_position(Some(&t2), None, false).is_none());
}

#[test]
fn position_raw_when_not_compensating() {
    let t = timeline(50000, 10000, 100000, UNIX_TIMESTAMP_DIFFERENCE + 20000);
    let p = compute_position(Some(&t), Some(&playing_info()), false).unwrap();
    assert_eq!(p.how_much_ms, 4);
    assert_eq!(p.when_ms, 2);
}

#[test]
fn position_raw_when_not_playing() {
    let t = timeline(50000, 10000, 100000, UNIX_TIMESTAMP_DIFFERENCE);
    let p = compute_position(Some(&t), Some(&paused_info()), true).unwrap();
    assert_eq!(p.how_much_ms, 4);
    assert_eq!(p.when_ms, 0);
    // Missing playback info counts as stopped: no compensation either.
    let q = compute_position(Some(&t), None, true).unwrap();
    assert_eq!(q.how_much_ms, 4);
    assert_eq!(q.when_ms, 0);
}

#[test]
fn position_compensation_extrapolates() {
    // Snapshot taken at 2 ms after the epoch, raw offset 4 ms; read at 1000 ms.
    let t = timeline(50000, 10000, 100000, UNIX_TIMESTAMP_DIFFERENCE + 20000);
    let p = compute_position_with_now(Some(&t), Some(&playing_info()), true, 1000).unwrap();
    assert_eq!(p.when_ms, 1000);
    assert_eq!(p.how_much_ms, 4 + (1000 - 2));
}

#[test]
fn position_compensation_monotonic() {
    // The same snapshot read at two instants advances by exactly the
    // wall-clock time between them.
    let t = timeline(770000000, 0, 2400000000, UNIX_TIMESTAMP_DIFFERENCE + 30000000);
    let p0 = compute_position_with_now(Some(&t), Some(&playing_info()), true, 5000).unwrap();
    let p1 = compute_position_with_now(Some(&t), Some(&playing_info()), true, 9500).unwrap();
    assert_eq!(p1.how_much_ms - p0.how_much_ms, 9500 - 5000);
}

#[test]
fn position_compensation_against_clock() {
    // Through the real clock the exact offset is unknown, but the
    // compensated reading must preserve `how_much - when`.
    let t = timeline(770000000, 10000000, 2400000000, UNIX_TIMESTAMP_DIFFERENCE + 30000000);
    let raw_ms = 77000 - 1000;
    let when_ms = 3000;
    let p = compute_position(Some(&t), Some(&playing_info()), true).unwrap();
    assert_eq!(p.how_much_ms - p.when_ms, raw_ms - when_ms);
    assert!(p.when_ms >= 0);
}

#[test]
fn status_strings() {
    assert_eq!(playback_status_to_string(PlaybackStatus::Playing), "Playing");
    assert_eq!(playback_status_to_string(PlaybackStatus::Paused), "Paused");
    assert_eq!(playback_status_to_string(PlaybackStatus::Stopped), "Stopped");
    assert_eq!(playback_status_to_string(PlaybackStatus::Changing), "Changing");
    assert_eq!(playback_status_to_string(PlaybackStatus::Closed), "Closed");
    assert_eq!(playback_status_to_string(PlaybackStatus::Opened), "Opened");
    assert_eq!(playback_status_to_string(PlaybackStatus::Unknown), "Unknown");
    assert_eq!(autorepeat_to_string(RepeatMode::Off), "None");
    assert_eq!(autorepeat_to_string(RepeatMode::List), "List");
    assert_eq!(autorepeat_to_string(RepeatMode::Track), "Track");
}

#[test]
fn capabilities_default_to_nothing() {
    let c = get_session_capabilities(None, 100000);
    assert_eq!(
        c,
        Capabilities {
            can_control: false,
            can_play_pause: false,
            can_go_next: false,
            can_go_previous: false,
            can_seek: false,
        }
    );
}

#[test]
fn capabilities_derived_from_controls() {
    let controls = ControlsSnapshot {
        is_play_enabled: false,
        is_pause_enabled: true,
        is_next_enabled: false,
        is_previous_enabled: false,
        is_playback_position_enabled: true,
    };
    let c = get_session_capabilities(Some(&controls), 100000);
    assert!(c.can_play_pause);
    assert!(!c.can_go_next);
    assert!(!c.can_go_previous);
    assert!(c.can_seek);
    assert!(c.can_control);
    // Seeking needs a non-empty timeline.
    let c0 = get_session_capabilities(Some(&controls), 0);
    assert!(!c0.can_seek);
    assert!(c0.can_play_pause);
    assert!(c0.can_control);
}

#[test]
fn capabilities_nothing_enabled_means_no_control() {
    let controls = ControlsSnapshot {
        is_play_enabled: false,
        is_pause_enabled: false,
        is_next_enabled: false,
        is_previous_enabled: false,
        is_playback_position_enabled: false,
    };
    let c = get_session_capabilities(Some(&controls), 100000);
    assert!(!c.can_control);
}

fn props(
    title: &str,
    artist: &str,
    album: Option<&str>,
    album_artist: Option<&str>,
) -> MediaProperties {
    MediaProperties {
        title: title.to_string(),
        artist: artist.to_string(),
        album: album.map(|s| s.to_string()),
        album_artist: album_artist.map(|s| s.to_string()),
    }
}

#[test]
fn metadata_needs_both_snapshots() {
    let t = timeline(0, 0, 100000, 0);
    assert!(get_session_metadata(None, Some(&t), None).is_none());
    assert!(get_session_metadata(Some(&props("a", "b", None, None)), None, None).is_none());
}

#[test]
fn metadata_id_is_md5_of_fields() {
    let t = timeline(0, 0, 100000, 0);
    let m = get_session_metadata(Some(&props("", "abc", None, None)), Some(&t), None).unwrap();
    // MD5 of "abc".
    assert_eq!(m.id.as_deref(), Some("900150983cd24fb0d6963f7d28e17f72"));
    assert_eq!(m.artist, "abc");
    assert_eq!(m.artists, vec!["abc".to_string()]);
    assert!(m.album_artists.is_none());
    assert_eq!(m.length_ms, 10);
}

#[test]
fn metadata_id_absent_when_all_fields_empty() {
    let t = timeline(0, 0, 100000, 0);
    let m = get_session_metadata(Some(&props("", "", None, None)), Some(&t), None).unwrap();
    assert!(m.id.is_none());
}

#[test]
fn metadata_album_artist_populates_lists() {
    let t = timeline(0, 50000, 3600 * 10000000, 0);
    let m = get_session_metadata(
        Some(&props("Song", "Artist", Some("Album"), Some("Albumist"))),
        Some(&t),
        None,
    )
    .unwrap();
    assert_eq!(m.album.as_deref(), Some("Album"));
    assert_eq!(m.album_artist.as_deref(), Some("Albumist"));
    assert_eq!(m.album_artists, Some(vec!["Albumist".to_string()]));
    assert_eq!(m.title, "Song");
    assert_eq!(m.length_ms, 3600 * 1000 - 5);
    // MD5 of "AlbumistArtistAlbumSong".
    assert_eq!(m.id.as_deref(), Some("da15368e242d3f4b812494627c45fb66"));
}

#[test]
fn player_name_trims_exe_when_echoed() {
    let name = "Spotify.exe".to_string();
    let aumid = "Spotify.exe".to_string();
    assert_eq!(trim_session_player_name(&name, &aumid), "Spotify");
}

#[test]
fn player_name_kept_when_resolved() {
    let name = "Spotify".to_string();
    let aumid = "Spotify.exe".to_string();
    assert_eq!(trim_session_player_name(&name, &aumid), "Spotify");
    let other = "app.exe".to_string();
    let different = "other.exe".to_string();
    assert_eq!(trim_session_player_name(&other, &different), "app.exe");
    let short = ".ex".to_string();
    assert_eq!(trim_session_player_name(&short, &short), ".ex");
}

#[test]
fn repeat_mode_cycle() {
    assert_eq!(next_repeat_mode(None), RepeatMode::Off);
    assert_eq!(next_repeat_mode(Some(RepeatMode::Off)), RepeatMode::List);
    assert_eq!(next_repeat_mode(Some(RepeatMode::List)), RepeatMode::Track);
    assert_eq!(next_repeat_mode(Some(RepeatMode::Track)), RepeatMode::Off);
}

#[test]
fn ticks_per_millisecond_is_fixed() {
    assert_eq!(TICKS_PER_MILLISECOND, 10000);
    assert_eq!(UNIX_TIMESTAMP_DIFFERENCE, 0x019DB1DED53E8000);
}
