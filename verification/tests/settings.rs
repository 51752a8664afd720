use coding_env::services::claude_code_service::{ClaudeCodeService, ClaudeSettings};

fn settings_with(entries: &[(&str, &str)]) -> ClaudeSettings {
    ClaudeSettings::from_entries(
        entries.iter().map(|(k, v)| (k.to_string(), v.to_string())).collect(),
        Some(vec![("p".to_string(), true)]),
    )
}

#[test]
fn sync_then_read_back() {
    let mut s = settings_with(&[("OTHER", "1")]);
    assert!(ClaudeCodeService::get_current_config(&s).is_none());
    ClaudeCodeService::sync_api_config(&mut s, "sk-key", "https://x");
    assert_eq!(
        ClaudeCodeService::get_current_config(&s),
        Some(("sk-key".to_string(), "https://x".to_string()))
    );
    assert_eq!(s.get_env("OTHER"), Some("1".to_string()));
    assert_eq!(s.env_entries().len(), 3);
    ClaudeCodeService::sync_api_config(&mut s, "sk-2", "https://y");
    assert_eq!(s.env_entries().len(), 3);
    assert_eq!(s.get_api_config(), Some(("sk-2".to_string(), "https://y".to_string())));
    assert_eq!(s.plugin_entries(), Some(vec![("p".to_string(), true)]));
}

#[test]
fn clear_then_nothing_reported() {
    let mut s = settings_with(&[("ANTHROPIC_AUTH_TOKEN", "k"), ("A", "b"), ("ANTHROPIC_BASE_URL", "u")]);
    assert_eq!(s.get_api_config(), Some(("k".to_string(), "u".to_string())));
    ClaudeCodeService::clear_config(&mut s);
    assert!(s.get_api_config().is_none());
    assert_eq!(s.env_entries(), vec![("A".to_string(), "b".to_string())]);
}

#[test]
fn half_set_config_reads_as_none() {
    let mut s = settings_with(&[("ANTHROPIC_AUTH_TOKEN", "k")]);
    assert!(s.get_api_config().is_none());
    s.set_env("ANTHROPIC_BASE_URL", "u");
    assert!(s.get_api_config().is_some());
    s.remove_env("ANTHROPIC_AUTH_TOKEN");
    assert!(s.get_api_config().is_none());
}

#[test]
fn default_settings_are_empty() {
    let s = ClaudeSettings::default();
    assert!(s.env_entries().is_empty());
    assert!(s.plugin_entries().is_none());
}

#[test]
fn settings_path_under_home() {
    assert_eq!(ClaudeCodeService::get_settings_path("/home/me"), "/home/me/.code-assistant/settings.json");
    assert_eq!(ClaudeCodeService::get_settings_path("/home/me/"), "/home/me/.code-assistant/settings.json");
}

#[test]
fn later_entry_for_a_name_stands() {
    let s = ClaudeSettings::from_entries(
        vec![
            ("A".to_string(), "1".to_string()),
            ("B".to_string(), "2".to_string()),
            ("A".to_string(), "3".to_string()),
        ],
        Some(vec![("p".to_string(), true), ("p".to_string(), false), ("q".to_string(), true)]),
    );
    assert_eq!(
        s.env_entries(),
        vec![("A".to_string(), "3".to_string()), ("B".to_string(), "2".to_string())]
    );
    assert_eq!(s.get_env("A"), Some("3".to_string()));
    assert_eq!(
        s.plugin_entries(),
        Some(vec![("p".to_string(), false), ("q".to_string(), true)])
    );
}
