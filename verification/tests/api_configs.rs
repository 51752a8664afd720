use coding_env::clock::Timestamp;
use coding_env::models::api_config::{ApiConfig, ApiConfigs};
use coding_env::services::api_service::{ApiError, ApiService, SettingsSync};

fn at(seconds: i64) -> Timestamp {
    Timestamp { seconds, nanos: 0 }
}

fn config(id: &str, name: &str, key: &str, active: bool) -> ApiConfig {
    ApiConfig {
        id: id.to_string(),
        name: name.to_string(),
        api_key: key.to_string(),
        base_url: "https://api.example.com".to_string(),
        model: None,
        is_active: active,
        created_at: at(1),
        updated_at: at(1),
    }
}

fn active_ids(configs: &ApiConfigs) -> Vec<String> {
    configs.configs.iter().filter(|c| c.is_active).map(|c| c.id.clone()).collect()
}

#[test]
fn first_config_becomes_active_and_is_synced() {
    let mut configs = ApiConfigs::new();
    let (c, sync) = match ApiService::add_config(&mut configs, "Production Key", "sk-1", "https://a") {
        Ok(r) => r,
        Err(_) => panic!("add refused"),
    };
    assert_eq!(c.id, "production");
    assert_eq!(c.name, "Production Key");
    assert!(c.is_active);
    assert!(c.model.is_none());
    match sync {
        SettingsSync::Apply { api_key, base_url } => {
            assert_eq!(api_key, "sk-1");
            assert_eq!(base_url, "https://a");
        }
        _ => panic!("first config not synced"),
    }
    let (c2, sync2) = match ApiService::add_config(&mut configs, "staging", "sk-2", "https://b") {
        Ok(r) => r,
        Err(_) => panic!("add refused"),
    };
    assert!(!c2.is_active);
    assert!(matches!(sync2, SettingsSync::Unchanged));
    assert_eq!(configs.configs.len(), 2);
    assert_eq!(active_ids(&configs), vec!["production".to_string()]);
}

#[test]
fn config_id_is_lowercase_first_word_or_default() {
    let mut configs = ApiConfigs::new();
    let (c, _) = ApiService::add_config(&mut configs, "  Work   Laptop ", "k", "u").ok().unwrap();
    assert_eq!(c.id, "work");
    let (d, _) = ApiService::add_config(&mut configs, "   ", "k", "u").ok().unwrap();
    assert_eq!(d.id, "default");
    let (e, _) = ApiService::add_config(&mut configs, "ÄBC\u{3000}x", "k", "u").ok().unwrap();
    assert_eq!(e.id, "äbc");
    assert_eq!(ApiService::config_id_source("\tTab Sep"), "Tab");
}

#[test]
fn duplicate_name_is_refused_and_nothing_changes() {
    let mut configs = ApiConfigs::new();
    ApiService::add_config(&mut configs, "work", "k1", "u").ok().unwrap();
    match ApiService::add_config(&mut configs, "work", "k2", "u") {
        Err(ApiError::NameExists(n)) => assert_eq!(n, "work"),
        _ => panic!("duplicate accepted"),
    }
    assert_eq!(configs.configs.len(), 1);
    assert_eq!(configs.configs[0].api_key, "k1");
}

#[test]
fn get_config_by_id_and_active() {
    let mut configs = ApiConfigs::new();
    configs.add_config(config("a", "A", "ka", false));
    configs.add_config(config("b", "B", "kb", true));
    assert_eq!(ApiService::get_config(&configs, Some("a")).ok().unwrap().api_key, "ka");
    assert_eq!(ApiService::get_config(&configs, None).ok().unwrap().id, "b");
    match ApiService::get_config(&configs, Some("zz")) {
        Err(ApiError::NotFound(e)) => assert_eq!(e, "zz"),
        _ => panic!("missing id found"),
    }
    let mut none_active = ApiConfigs::new();
    none_active.add_config(config("a", "A", "ka", false));
    assert!(matches!(ApiService::get_config(&none_active, None), Err(ApiError::NoActiveConfig)));
}

#[test]
fn activate_leaves_exactly_one_active() {
    let mut configs = ApiConfigs::new();
    configs.add_config(config("a", "A", "ka", true));
    configs.add_config(config("b", "B", "kb", false));
    configs.add_config(config("c", "C", "kc", true));
    let (c, sync) = ApiService::activate_config(&mut configs, "b").ok().unwrap();
    assert_eq!(c.id, "b");
    assert!(c.is_active);
    assert_eq!(active_ids(&configs), vec!["b".to_string()]);
    match sync {
        SettingsSync::Apply { api_key, .. } => assert_eq!(api_key, "kb"),
        _ => panic!("activation not synced"),
    }
}

#[test]
fn activate_unknown_id_is_refused_and_nothing_changes() {
    let mut configs = ApiConfigs::new();
    configs.add_config(config("a", "A", "ka", true));
    match ApiService::activate_config(&mut configs, "nope") {
        Err(ApiError::NotFound(e)) => assert_eq!(e, "nope"),
        _ => panic!("unknown id activated"),
    }
    assert_eq!(active_ids(&configs), vec!["a".to_string()]);
}

#[test]
fn list_level_activate_deactivates_all_when_missing() {
    let mut configs = ApiConfigs::new();
    configs.add_config(config("a", "A", "ka", true));
    configs.add_config(config("a", "A2", "ka2", false));
    assert!(!configs.activate_config("x"));
    assert!(active_ids(&configs).is_empty());
    assert!(configs.activate_config("a"));
    assert!(configs.configs[0].is_active);
    assert!(!configs.configs[1].is_active);
}

#[test]
fn deleting_inactive_config_changes_no_settings() {
    let mut configs = ApiConfigs::new();
    configs.add_config(config("a", "A", "ka", true));
    configs.add_config(config("b", "B", "kb", false));
    assert!(matches!(ApiService::delete_config(&mut configs, "b"), Ok(SettingsSync::Unchanged)));
    assert_eq!(configs.configs.len(), 1);
    assert_eq!(active_ids(&configs), vec!["a".to_string()]);
}

#[test]
fn deleting_active_config_activates_the_first_remaining() {
    let mut configs = ApiConfigs::new();
    configs.add_config(config("a", "A", "ka", false));
    configs.add_config(config("b", "B", "kb", true));
    configs.add_config(config("c", "C", "kc", false));
    match ApiService::delete_config(&mut configs, "b") {
        Ok(SettingsSync::Apply { api_key, .. }) => assert_eq!(api_key, "ka"),
        _ => panic!("no reactivation"),
    }
    assert_eq!(active_ids(&configs), vec!["a".to_string()]);
    assert!(configs.get_config("b").is_none());
}

#[test]
fn deleting_active_config_keeps_another_active_one() {
    let mut configs = ApiConfigs::new();
    configs.add_config(config("a", "A", "ka", false));
    configs.add_config(config("b", "B", "kb", true));
    configs.add_config(config("c", "C", "kc", true));
    match ApiService::delete_config(&mut configs, "b") {
        Ok(SettingsSync::Apply { api_key, .. }) => assert_eq!(api_key, "kc"),
        _ => panic!("active one not synced"),
    }
    assert_eq!(active_ids(&configs), vec!["c".to_string()]);
}

#[test]
fn deleting_last_config_clears_settings() {
    let mut configs = ApiConfigs::new();
    configs.add_config(config("a", "A", "ka", true));
    assert!(matches!(ApiService::delete_config(&mut configs, "a"), Ok(SettingsSync::Clear)));
    assert!(configs.configs.is_empty());
}

#[test]
fn deleting_unknown_config_is_refused() {
    let mut configs = ApiConfigs::new();
    configs.add_config(config("a", "A", "ka", true));
    match ApiService::delete_config(&mut configs, "zz") {
        Err(ApiError::NotFound(e)) => assert_eq!(e, "zz"),
        _ => panic!("unknown id deleted"),
    }
    assert_eq!(configs.configs.len(), 1);
}

#[test]
fn clear_all_and_list() {
    let mut configs = ApiConfigs::new();
    configs.add_config(config("a", "A", "ka", true));
    configs.add_config(config("b", "B", "kb", false));
    let listed = ApiService::list_configs(&configs);
    assert_eq!(listed.len(), 2);
    assert_eq!(listed[1].id, "b");
    assert!(ApiService::clear_all().configs.is_empty());
}

#[test]
fn remove_config_takes_first_match() {
    let mut configs = ApiConfigs::new();
    configs.add_config(config("a", "A1", "k1", false));
    configs.add_config(config("a", "A2", "k2", false));
    let removed = configs.remove_config("a").unwrap();
    assert_eq!(removed.name, "A1");
    assert_eq!(configs.configs.len(), 1);
    assert_eq!(configs.get_config("a").unwrap().name, "A2");
    assert!(configs.remove_config("q").is_none());
    assert!(configs.get_active_config().is_none());
}

#[test]
fn added_config_is_found_by_its_id() {
    let mut configs = ApiConfigs::new();
    configs.add_config(config("x", "X", "kx", true));
    let (c, _) = ApiService::add_config(&mut configs, "Personal key", "sk-p", "u").ok().unwrap();
    let found = ApiService::get_config(&configs, Some("personal")).ok().unwrap();
    assert_eq!(found.name, c.name);
    assert_eq!(found.api_key, "sk-p");
    assert!(!found.is_active);
}

#[test]
fn add_with_given_id_keeps_it() {
    let mut configs = ApiConfigs::new();
    let (c, _) = ApiService::add_config_with_id(&mut configs, "Custom-ID".to_string(), "n", "k", "u").ok().unwrap();
    assert_eq!(c.id, "Custom-ID");
    assert!(matches!(
        ApiService::add_config_with_id(&mut configs, "other".to_string(), "n", "k", "u"),
        Err(ApiError::NameExists(_))
    ));
}
