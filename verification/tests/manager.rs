use smtc_core::player::{Player, PlayerEvent};
use smtc_core::playermanager::{ManagerEvent, PlayerManager};
use smtc_core::types::{PlaybackInfo, PlaybackStatus, SessionSnapshot, Timeline};

fn snap(aumid: &str, status: PlaybackStatus) -> SessionSnapshot {
    SessionSnapshot { aumid: aumid.to_string(), status }
}

fn drain(m: &mut PlayerManager) -> Vec<ManagerEvent> {
    let mut out = Vec::new();
    while let Some(e) = m.poll_next_event() {
        out.push(e);
    }
    out
}

fn active(m: &PlayerManager) -> Option<&str> {
    m.active_player_key.as_deref()
}

#[test]
fn new_manager_queues_initial_enumeration() {
    let mut m = PlayerManager::new();
    assert_eq!(m.poll_next_event(), Some(ManagerEvent::SessionsChanged));
    assert_eq!(m.poll_next_event(), None);
    assert!(m.active_player_key.is_none());
    assert!(m.system_player_key.is_none());
    assert!(m.get_sessions_keys().is_empty());
}

#[test]
fn manager_outbox_is_fifo() {
    let mut m = PlayerManager::new();
    drain(&mut m);
    m.notify_sessions_changed();
    m.notify_system_session_changed();
    m.notify_sessions_changed();
    assert_eq!(
        drain(&mut m),
        vec![
            ManagerEvent::SessionsChanged,
            ManagerEvent::SystemSessionChanged,
            ManagerEvent::SessionsChanged,
        ]
    );
}

#[test]
fn system_session_designation() {
    let mut m = PlayerManager::new();
    m.update_system_session(Some("spotify".to_string()));
    assert_eq!(m.system_player_key.as_deref(), Some("spotify"));
    // An empty identity clears the designation.
    m.update_system_session(Some(String::new()));
    assert!(m.system_player_key.is_none());
    m.update_system_session(Some("vlc".to_string()));
    m.update_system_session(None);
    assert!(m.system_player_key.is_none());
}

#[test]
fn refresh_materializes_endpoints_in_order() {
    let mut m = PlayerManager::new();
    let sessions = vec![
        snap("b", PlaybackStatus::Paused),
        snap("a", PlaybackStatus::Paused),
        snap("", PlaybackStatus::Playing),
        snap("b", PlaybackStatus::Playing),
    ];
    m.update_sessions(&sessions, None);
    // Empty keys are skipped and repeats collapse onto the first occurrence.
    assert_eq!(m.get_sessions_keys(), vec!["b".to_string(), "a".to_string()]);
    assert!(m.get_session(&"a".to_string()).is_some());
    assert!(m.get_session(&"".to_string()).is_none());
    assert!(m.get_session(&"c".to_string()).is_none());
}

#[test]
fn refresh_removes_vanished_endpoints() {
    let mut m = PlayerManager::new();
    m.update_sessions(
        &vec![snap("a", PlaybackStatus::Paused), snap("b", PlaybackStatus::Paused)],
        None,
    );
    m.update_sessions(&vec![snap("b", PlaybackStatus::Paused)], None);
    assert_eq!(m.get_sessions_keys(), vec!["b".to_string()]);
}

#[test]
fn sticky_active_key_survives_refresh() {
    let mut m = PlayerManager::new();
    m.update_sessions(&vec![snap("a", PlaybackStatus::Paused)], None);
    assert_eq!(active(&m), Some("a"));
    // Another session starts playing; the sticky choice still wins.
    m.update_sessions(
        &vec![snap("b", PlaybackStatus::Playing), snap("a", PlaybackStatus::Paused)],
        None,
    );
    assert_eq!(active(&m), Some("a"));
}

#[test]
fn system_key_wins_when_nothing_sticks_or_plays() {
    let mut m = PlayerManager::new();
    m.update_system_session(Some("s".to_string()));
    m.update_sessions(
        &vec![snap("x", PlaybackStatus::Paused), snap("s", PlaybackStatus::Paused)],
        None,
    );
    assert_eq!(active(&m), Some("s"));
    assert_eq!(m.get_system_session().unwrap().get_aumid(), "s");
}

#[test]
fn system_key_needs_membership() {
    // A designation the registry filtered out does not win selection.
    let mut m = PlayerManager::new();
    m.update_system_session(Some("gone".to_string()));
    m.update_sessions(&vec![snap("x", PlaybackStatus::Paused)], None);
    assert_eq!(active(&m), Some("x"));
    assert!(m.get_system_session().is_none());
}

#[test]
fn playing_candidate_wins_without_sticky_or_system() {
    let mut m = PlayerManager::new();
    m.update_sessions(
        &vec![
            snap("x", PlaybackStatus::Paused),
            snap("y", PlaybackStatus::Playing),
            snap("z", PlaybackStatus::Paused),
        ],
        None,
    );
    assert_eq!(active(&m), Some("y"));
}

#[test]
fn denylisted_key_never_active() {
    let mut m = PlayerManager::new();
    m.update_sessions(&vec![snap("a", PlaybackStatus::Playing)], None);
    assert_eq!(active(&m), Some("a"));
    // Denying the previously active key evicts it entirely.
    let deny = vec!["a".to_string()];
    m.update_sessions(
        &vec![snap("a", PlaybackStatus::Playing), snap("b", PlaybackStatus::Paused)],
        Some(&deny),
    );
    assert_eq!(active(&m), Some("b"));
    assert_eq!(m.get_sessions_keys(), vec!["b".to_string()]);
    assert!(m.get_session(&"a".to_string()).is_none());
}

#[test]
fn refresh_twice_emits_one_change() {
    let mut m = PlayerManager::new();
    drain(&mut m);
    let sessions = vec![snap("x", PlaybackStatus::Paused), snap("y", PlaybackStatus::Playing)];
    m.update_sessions(&sessions, None);
    assert_eq!(drain(&mut m), vec![ManagerEvent::ActiveSessionChanged]);
    // Unchanged enumeration: same selection, no further event.
    m.update_sessions(&sessions, None);
    assert_eq!(drain(&mut m), vec![]);
}

#[test]
fn two_sessions_end_to_end() {
    let mut m = PlayerManager::new();
    drain(&mut m);
    m.update_sessions(
        &vec![snap("x", PlaybackStatus::Paused), snap("y", PlaybackStatus::Playing)],
        None,
    );
    assert_eq!(active(&m), Some("y"));
    assert_eq!(m.get_active_session().unwrap().get_aumid(), "y");
    assert_eq!(drain(&mut m), vec![ManagerEvent::ActiveSessionChanged]);
    // `y` stops being enumerated; `x`, though paused and neither system
    // nor sticky, is the deterministic last resort.
    m.update_sessions(&vec![snap("x", PlaybackStatus::Paused)], None);
    assert_eq!(active(&m), Some("x"));
    assert_eq!(drain(&mut m), vec![ManagerEvent::ActiveSessionChanged]);
    // An empty enumeration clears the selection and still reports it.
    m.update_sessions(&vec![], None);
    assert_eq!(active(&m), None);
    assert!(m.get_active_session().is_none());
    assert_eq!(drain(&mut m), vec![ManagerEvent::ActiveSessionChanged]);
}

#[test]
fn rediscovered_endpoint_is_kept_not_rebuilt() {
    let mut m = PlayerManager::new();
    m.update_sessions(&vec![snap("a", PlaybackStatus::Paused)], None);
    let key = "a".to_string();
    m.populate_player_friendly_name(&key, Some("App".to_string()));
    assert!(m.notify_player_event(&key, PlayerEvent::MediaPropertiesChanged));
    // The same key re-observed keeps its endpoint: cached name and
    // queued notification survive the refresh.
    m.update_sessions(
        &vec![snap("a", PlaybackStatus::Paused), snap("b", PlaybackStatus::Playing)],
        None,
    );
    assert_eq!(m.get_session(&key).unwrap().friendly_name.as_deref(), Some("App"));
    assert_eq!(m.poll_player_event(&key), Some(PlayerEvent::MediaPropertiesChanged));
    assert_eq!(m.poll_player_event(&key), None);
    // A key the registry does not hold takes no deliveries.
    let other = "zz".to_string();
    assert!(!m.notify_player_event(&other, PlayerEvent::PlaybackInfoChanged));
    assert_eq!(m.poll_player_event(&other), None);
}

#[test]
fn player_outbox_is_fifo() {
    let mut p = Player::new("a".to_string());
    assert_eq!(p.poll_next_event(), None);
    p.notify_event(PlayerEvent::PlaybackInfoChanged);
    p.notify_event(PlayerEvent::TimelinePropertiesChanged);
    assert_eq!(p.poll_next_event(), Some(PlayerEvent::PlaybackInfoChanged));
    p.notify_event(PlayerEvent::MediaPropertiesChanged);
    assert_eq!(p.poll_next_event(), Some(PlayerEvent::TimelinePropertiesChanged));
    assert_eq!(p.poll_next_event(), Some(PlayerEvent::MediaPropertiesChanged));
    assert_eq!(p.poll_next_event(), None);
    assert_eq!(p.get_aumid(), "a");
}

#[test]
fn friendly_name_cached_once_present() {
    let mut p = Player::new("app.exe".to_string());
    assert!(p.friendly_name.is_none());
    p.populate_friendly_name(None);
    assert!(p.friendly_name.is_none());
    p.populate_friendly_name(Some("App".to_string()));
    assert_eq!(p.friendly_name.as_deref(), Some("App"));
    p.populate_friendly_name(Some("Other".to_string()));
    assert_eq!(p.friendly_name.as_deref(), Some("App"));
}

#[test]
fn status_assembly() {
    let p = Player::new("app".to_string());
    let info = PlaybackInfo {
        status: PlaybackStatus::Playing,
        repeat: Some(smtc_core::types::RepeatMode::Track),
        shuffle: Some(true),
    };
    let t = Timeline {
        position_ticks: 50000,
        start_time_ticks: 10000,
        end_time_ticks: 100000,
        last_updated_ticks: smtc_core::util::UNIX_TIMESTAMP_DIFFERENCE,
    };
    let status = p.get_status(Some(&info), Some(&t), None, None, None);
    assert_eq!(status.status, "Playing");
    assert_eq!(status.is_loop, "Track");
    assert!(status.shuffle);
    assert!(status.metadata.is_none());
    assert!(!status.capabilities.can_control);
    let elapsed = status.elapsed.unwrap();
    assert_eq!(elapsed.how_much_ms, 4);
    assert_eq!(elapsed.when_ms, 0);
    assert_eq!(status.app.as_deref(), Some("app"));
}

#[test]
fn status_defaults_without_playback_info() {
    let p = Player::new("app".to_string());
    let status = p.get_status(None, None, None, None, None);
    assert_eq!(status.status, "Unknown");
    assert_eq!(status.is_loop, "None");
    assert!(!status.shuffle);
    assert!(status.elapsed.is_none());
    assert!(status.metadata.is_none());
}
