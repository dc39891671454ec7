use mtga_stats::settings::{
    is_user_configurable, legacy_rescue_allowed, most_recent_user, player_name, setting_flag,
    setting_value, settings_snapshot, StoredSettings,
};

#[test]
fn empty_setting_counts_as_unset() {
    assert_eq!(setting_value(Some(String::new())), None);
    assert_eq!(setting_value(None), None);
    assert_eq!(setting_value(Some("abc".to_string())), Some("abc".to_string()));
}

#[test]
fn flags_are_true_only_for_true() {
    assert!(setting_flag(&Some("true".to_string()), false));
    assert!(!setting_flag(&Some("false".to_string()), true));
    assert!(!setting_flag(&Some("TRUE".to_string()), true));
    assert!(setting_flag(&None, true));
    assert!(!setting_flag(&None, false));
}

#[test]
fn only_three_settings_are_user_configurable() {
    assert!(is_user_configurable("track_deck_history"));
    assert!(is_user_configurable("backup_on_launch"));
    assert!(is_user_configurable("developer_mode"));
    assert!(!is_user_configurable("player_id"));
    assert!(!is_user_configurable("track_play_draw"));
}

fn recent() -> Vec<(String, String)> {
    vec![
        ("u1".to_string(), "Alice".to_string()),
        ("u2".to_string(), "Bob".to_string()),
    ]
}

#[test]
fn player_name_from_recent_players() {
    assert_eq!(player_name("u2", &recent()), Some("Bob".to_string()));
    assert_eq!(player_name("u3", &recent()), None);
}

#[test]
fn snapshot_with_active_user() {
    let stored = StoredSettings {
        recent_players: recent(),
        track_deck_history: Some("false".to_string()),
        backup_on_launch: None,
        developer_mode: Some("true".to_string()),
    };
    let s = settings_snapshot(Some("u1".to_string()), Some(stored));
    assert_eq!(s.player_id, Some("u1".to_string()));
    assert_eq!(s.player_name, Some("Alice".to_string()));
    assert!(!s.track_deck_history);
    assert!(s.backup_on_launch);
    assert!(s.developer_mode);
}

#[test]
fn snapshot_without_database_uses_defaults() {
    let s = settings_snapshot(None, None);
    assert_eq!(s.player_id, None);
    assert_eq!(s.player_name, None);
    assert!(s.track_deck_history);
    assert!(s.backup_on_launch);
    assert!(!s.developer_mode);
}

#[test]
fn legacy_database_rescued_only_for_its_player() {
    assert!(legacy_rescue_allowed(&None, "u1"));
    assert!(legacy_rescue_allowed(&Some("u1".to_string()), "u1"));
    assert!(!legacy_rescue_allowed(&Some("u2".to_string()), "u1"));
}

#[test]
fn most_recent_user_is_newest_first_on_ties() {
    let entries = vec![
        (10i128, "a".to_string()),
        (30i128, "b".to_string()),
        (30i128, "c".to_string()),
        (20i128, "d".to_string()),
    ];
    assert_eq!(most_recent_user(&entries), Some("b".to_string()));
    assert_eq!(most_recent_user(&vec![]), None);
}
