use serde_json::Value;
use swd::settings::{default_enabled, PluginSettings, SettingsFile};

fn sample_config() -> Option<Value> {
    let mut obj = serde_json::Map::new();
    obj.insert("city".to_string(), Value::String("Tokyo".to_string()));
    obj.insert("interval".to_string(), Value::from(30));
    Some(Value::Object(obj))
}

#[test]
fn plugins_default_to_enabled() {
    assert!(default_enabled());
    let fresh = PluginSettings::default();
    assert!(fresh.enabled);
    assert!(fresh.config.is_none());
}

#[test]
fn unset_plugin_reads_as_fresh() {
    let file = SettingsFile::new();
    let id = "clock".to_string();
    assert!(file.get(&id).is_none());
    let s = file.settings_for(&id);
    assert!(s.enabled);
    assert!(s.config.is_none());
}

#[test]
fn enabled_flag_read_back_and_config_kept() {
    let mut file = SettingsFile::new();
    let id = "weather".to_string();
    file.set_plugin_config(id.clone(), sample_config());
    let changed = file.set_plugin_enabled(id.clone(), false);
    assert!(!changed.enabled);
    assert_eq!(changed.config, sample_config());
    let stored = file.get(&id).unwrap();
    assert!(!stored.enabled);
    assert_eq!(stored.config, sample_config());
}

#[test]
fn config_read_back_and_enabled_kept() {
    let mut file = SettingsFile::new();
    let id = "weather".to_string();
    file.set_plugin_enabled(id.clone(), false);
    let changed = file.set_plugin_config(id.clone(), sample_config());
    assert!(!changed.enabled);
    assert_eq!(changed.config, sample_config());
}

#[test]
fn new_plugin_config_starts_enabled() {
    let mut file = SettingsFile::new();
    let changed = file.set_plugin_config("stocks".to_string(), Some(Value::Bool(true)));
    assert!(changed.enabled);
    assert_eq!(changed.config, Some(Value::Bool(true)));
}

#[test]
fn other_plugins_untouched() {
    let mut file = SettingsFile::new();
    file.set_plugin_enabled("a".to_string(), false);
    file.set_plugin_config("b".to_string(), sample_config());
    file.set_plugin_enabled("b".to_string(), false);
    let a = file.settings_for(&"a".to_string());
    assert!(!a.enabled);
    assert!(a.config.is_none());
    let b = file.settings_for(&"b".to_string());
    assert!(!b.enabled);
    assert_eq!(b.config, sample_config());
    let c = file.settings_for(&"c".to_string());
    assert!(c.enabled);
}

#[test]
fn successive_changes_both_kept() {
    let mut file = SettingsFile::new();
    file.set_plugin_enabled("media".to_string(), false);
    file.set_plugin_enabled("network".to_string(), false);
    assert!(!file.settings_for(&"media".to_string()).enabled);
    assert!(!file.settings_for(&"network".to_string()).enabled);
}

#[test]
fn enable_and_configure_commute() {
    let mut one = SettingsFile::new();
    one.set_plugin_enabled("x".to_string(), false);
    one.set_plugin_config("x".to_string(), sample_config());
    let mut two = SettingsFile::new();
    two.set_plugin_config("x".to_string(), sample_config());
    two.set_plugin_enabled("x".to_string(), false);
    let a = one.settings_for(&"x".to_string());
    let b = two.settings_for(&"x".to_string());
    assert_eq!(a.enabled, b.enabled);
    assert_eq!(a.config, b.config);
}

#[test]
fn changes_are_idempotent() {
    let mut file = SettingsFile::new();
    file.set_plugin_enabled("x".to_string(), false);
    file.set_plugin_enabled("x".to_string(), false);
    let entries = file.into_entries();
    assert_eq!(entries.len(), 1);
    assert_eq!(entries[0].0, "x");
    assert!(!entries[0].1.enabled);
}

#[test]
fn from_entries_later_entry_wins() {
    let entries = vec![
        ("a".to_string(), PluginSettings { enabled: false, config: None }),
        ("b".to_string(), PluginSettings { enabled: true, config: sample_config() }),
        ("a".to_string(), PluginSettings { enabled: true, config: Some(Value::from(1)) }),
    ];
    let file = SettingsFile::from_entries(entries);
    let a = file.get(&"a".to_string()).unwrap();
    assert!(a.enabled);
    assert_eq!(a.config, Some(Value::from(1)));
    let b = file.get(&"b".to_string()).unwrap();
    assert_eq!(b.config, sample_config());
    let out = file.into_entries();
    assert_eq!(out.len(), 2);
}

#[test]
fn settings_clone_is_equal() {
    let s = PluginSettings { enabled: false, config: sample_config() };
    let c = s.clone();
    assert_eq!(c.enabled, s.enabled);
    assert_eq!(c.config, s.config);
}

#[test]
fn entry_order_does_not_matter() {
    let forward = vec![
        ("a".to_string(), PluginSettings { enabled: false, config: None }),
        ("b".to_string(), PluginSettings { enabled: true, config: sample_config() }),
    ];
    let mut backward = forward.clone();
    backward.reverse();
    let one = SettingsFile::from_entries(forward);
    let two = SettingsFile::from_entries(backward);
    for id in ["a", "b", "c"] {
        let id = id.to_string();
        let x = one.settings_for(&id);
        let y = two.settings_for(&id);
        assert_eq!(x.enabled, y.enabled);
        assert_eq!(x.config, y.config);
    }
}
