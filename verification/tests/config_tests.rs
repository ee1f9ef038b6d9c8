use config_store::config::AppConfig;
use config_store::config::ConfigError;

#[test]
fn test_default_config() {
    let config = AppConfig::default();
    assert!(config.username.is_empty());
    assert!(!config.dark_mode);
    assert!(config.notifications_enabled);
    assert_eq!(config.auto_save_interval, 300);
    assert_eq!(config.theme, "system");
}

#[test]
fn test_serialization() {
    let config = AppConfig {
        username: "testuser".to_string(),
        dark_mode: true,
        notifications_enabled: false,
        auto_save_interval: 60,
        theme: "dark".to_string(),
    };

    let json = config.to_json();
    let parsed: AppConfig = AppConfig::parse(&json);

    assert_eq!(parsed.username, "testuser");
    assert!(parsed.dark_mode);
    assert!(!parsed.notifications_enabled);
    assert_eq!(parsed.auto_save_interval, 60);
    assert_eq!(parsed.theme, "dark");
}

#[test]
fn test_serialized_form_is_exact() {
    let json = AppConfig::default().to_json();
    let expected = "{\n  \"username\": \"\",\n  \"darkMode\": false,\n  \"notificationsEnabled\": true,\n  \"autoSaveIntervalSeconds\": 300,\n  \"theme\": \"system\"\n}";
    assert_eq!(json, expected);
}

#[test]
fn test_missing_contents_gives_defaults() {
    let config = AppConfig::from_stored(None);
    assert_eq!(config.username, "");
    assert!(!config.dark_mode);
    assert!(config.notifications_enabled);
    assert_eq!(config.auto_save_interval, 300);
    assert_eq!(config.theme, "system");
}

#[test]
fn test_empty_object_gives_defaults() {
    let config = AppConfig::parse("{}");
    assert_eq!(config.username, "");
    assert!(!config.dark_mode);
    assert!(config.notifications_enabled);
    assert_eq!(config.auto_save_interval, 300);
    assert_eq!(config.theme, "system");
}

#[test]
fn test_invalid_json_gives_defaults() {
    let config = AppConfig::parse("not json");
    assert_eq!(config.username, "");
    assert!(!config.dark_mode);
    assert!(config.notifications_enabled);
    assert_eq!(config.auto_save_interval, 300);
    assert_eq!(config.theme, "system");
    assert!(AppConfig::try_parse("not json").is_none());
}

#[test]
fn test_save_then_load_example() {
    let config = AppConfig {
        username: "alice".to_string(),
        dark_mode: true,
        notifications_enabled: false,
        auto_save_interval: 60,
        theme: "dark".to_string(),
    };
    let stored = config.to_json();
    let loaded = AppConfig::from_stored(Some(&stored));
    assert_eq!(loaded.username, "alice");
    assert!(loaded.dark_mode);
    assert!(!loaded.notifications_enabled);
    assert_eq!(loaded.auto_save_interval, 60);
    assert_eq!(loaded.theme, "dark");
}

#[test]
fn test_partial_document_defaults_the_rest() {
    let config = AppConfig::parse("{\"theme\": \"blue\"}");
    assert_eq!(config.theme, "blue");
    assert_eq!(config.username, "");
    assert!(!config.dark_mode);
    assert!(config.notifications_enabled);
    assert_eq!(config.auto_save_interval, 300);
}

#[test]
fn test_unknown_fields_are_ignored() {
    let doc = "{\"extra\": {\"nested\": [1, -2.5e3, null, \"s\", true]}, \"darkMode\": true, \"later\": []}";
    let config = AppConfig::parse(doc);
    assert!(config.dark_mode);
    assert_eq!(config.username, "");
    assert_eq!(config.auto_save_interval, 300);
}

#[test]
fn test_wrong_type_falls_back_entirely() {
    // a wrong-typed field poisons the whole document, not just that field
    let config = AppConfig::parse("{\"theme\": \"blue\", \"darkMode\": \"yes\"}");
    assert_eq!(config.theme, "system");
    assert!(!config.dark_mode);
    assert!(AppConfig::try_parse("{\"darkMode\": \"yes\"}").is_none());
}

#[test]
fn test_duplicate_known_field_falls_back() {
    let config = AppConfig::parse("{\"theme\": \"a\", \"theme\": \"b\"}");
    assert_eq!(config.theme, "system");
}

#[test]
fn test_duplicate_unknown_field_is_tolerated() {
    let config = AppConfig::parse("{\"x\": 1, \"x\": 2, \"darkMode\": true}");
    assert!(config.dark_mode);
}

#[test]
fn test_interval_bounds() {
    let max = AppConfig::parse("{\"autoSaveIntervalSeconds\": 4294967295}");
    assert_eq!(max.auto_save_interval, 4294967295);
    let over = AppConfig::parse("{\"autoSaveIntervalSeconds\": 4294967296}");
    assert_eq!(over.auto_save_interval, 300);
    let negative = AppConfig::parse("{\"autoSaveIntervalSeconds\": -1}");
    assert_eq!(negative.auto_save_interval, 300);
    let fractional = AppConfig::parse("{\"autoSaveIntervalSeconds\": 300.5}");
    assert_eq!(fractional.auto_save_interval, 300);
    let exponent = AppConfig::parse("{\"autoSaveIntervalSeconds\": 1e2}");
    assert_eq!(exponent.auto_save_interval, 300);
    let zero = AppConfig::parse("{\"autoSaveIntervalSeconds\": 0}");
    assert_eq!(zero.auto_save_interval, 0);
    let padded = AppConfig::parse("{\"autoSaveIntervalSeconds\": 0300}");
    assert_eq!(padded.auto_save_interval, 300);
}

#[test]
fn test_trailing_garbage_falls_back() {
    assert!(AppConfig::try_parse("{} x").is_none());
    assert!(AppConfig::try_parse("").is_none());
    assert!(AppConfig::try_parse("null").is_none());
    assert!(AppConfig::try_parse("[]").is_none());
}

#[test]
fn test_compact_whitespace_tolerated() {
    let config = AppConfig::parse("  {\"darkMode\":true,\"username\":\"bob\"}  ");
    assert!(config.dark_mode);
    assert_eq!(config.username, "bob");
}

#[test]
fn test_escaped_characters_round_trip() {
    let config = AppConfig {
        username: "a\"b\\c\nd\te\u{1}f".to_string(),
        dark_mode: false,
        notifications_enabled: true,
        auto_save_interval: 1,
        theme: "caf\u{e9} \u{1F600}".to_string(),
    };
    let json = config.to_json();
    assert!(json.contains("\\\""));
    assert!(json.contains("\\u0001"));
    let parsed = AppConfig::parse(&json);
    assert_eq!(parsed.username, "a\"b\\c\nd\te\u{1}f");
    assert_eq!(parsed.theme, "caf\u{e9} \u{1F600}");
}

#[test]
fn test_unicode_escapes_are_decoded() {
    let config = AppConfig::parse("{\"username\": \"\\u0041\\u0042\\tc\\u00e9\"}");
    assert_eq!(config.username, "AB\tc\u{e9}");
}

#[test]
fn test_surrogate_pair_escapes_are_decoded() {
    let config = AppConfig::parse("{\"username\": \"\\uD83D\\uDE00\"}");
    assert_eq!(config.username, "\u{1F600}");
    let mixed = AppConfig::parse("{\"username\": \"a\\uD834\\uDD1Eb\", \"darkMode\": true}");
    assert_eq!(mixed.username, "a\u{1D11E}b");
    assert!(mixed.dark_mode);
    // an escaped supplementary character in an unknown field is tolerated
    let unknown = AppConfig::parse("{\"x\": \"\\uD834\\uDD1E\", \"darkMode\": true}");
    assert!(unknown.dark_mode);
    // agree with a reference JSON reader on the decoded value
    let value: serde_json::Value =
        serde_json::from_str("{\"username\": \"\\uD83D\\uDE00\"}").unwrap();
    assert_eq!(
        value.get("username").unwrap().as_str().unwrap(),
        config.username
    );
}

#[test]
fn test_unpaired_surrogate_escapes_fall_back() {
    assert!(AppConfig::try_parse("{\"username\": \"\\uD800\"}").is_none());
    assert!(AppConfig::try_parse("{\"username\": \"\\uDC00\"}").is_none());
    assert!(AppConfig::try_parse("{\"username\": \"\\uD800x\"}").is_none());
    assert!(AppConfig::try_parse("{\"username\": \"\\uD800\\u0041\"}").is_none());
}

#[test]
fn test_output_is_valid_json_for_serde() {
    let config = AppConfig {
        username: "with \"quotes\" and \\slashes\\ and \n breaks".to_string(),
        dark_mode: true,
        notifications_enabled: false,
        auto_save_interval: 42,
        theme: "high-contrast".to_string(),
    };
    let value: serde_json::Value = serde_json::from_str(&config.to_json()).unwrap();
    assert_eq!(
        value.get("username").unwrap().as_str().unwrap(),
        "with \"quotes\" and \\slashes\\ and \n breaks"
    );
    assert_eq!(value.get("darkMode").unwrap().as_bool().unwrap(), true);
    assert_eq!(value.get("notificationsEnabled").unwrap().as_bool().unwrap(), false);
    assert_eq!(value.get("autoSaveIntervalSeconds").unwrap().as_u64().unwrap(), 42);
    assert_eq!(value.get("theme").unwrap().as_str().unwrap(), "high-contrast");
}

#[test]
fn test_serde_written_document_is_read_back() {
    let mut m = serde_json::Map::new();
    m.insert(
        "username".to_string(),
        serde_json::Value::String("carol".to_string()),
    );
    m.insert("darkMode".to_string(), serde_json::Value::Bool(true));
    m.insert(
        "autoSaveIntervalSeconds".to_string(),
        serde_json::Value::Number(serde_json::Number::from(15u32)),
    );
    let doc = serde_json::to_string_pretty(&serde_json::Value::Object(m)).unwrap();
    let config = AppConfig::parse(&doc);
    assert_eq!(config.username, "carol");
    assert!(config.dark_mode);
    assert_eq!(config.auto_save_interval, 15);
    assert!(config.notifications_enabled);
    assert_eq!(config.theme, "system");
}

#[test]
fn test_config_path_shape() {
    match AppConfig::config_path() {
        Some(p) => assert!(p.ends_with("/config.json")),
        None => {}
    }
}

#[test]
fn test_config_error_variants() {
    assert_eq!(ConfigError::Io, ConfigError::Io);
    assert_ne!(ConfigError::Io, ConfigError::Parse);
    assert_ne!(ConfigError::NoConfigDir, ConfigError::Parse);
}
