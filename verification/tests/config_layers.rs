use telegram_gui::config::{merge_config, merge_layer, parse_layer, ConfigError, ConfigValue};

#[test]
fn merge_prefers_overlay_scalars_and_merges_tables() {
    let base = parse_layer(
        "base.toml",
        r#"
            [telegram]
            api_id = 1
            api_hash = "aaa"
            "#,
    )
    .expect("valid toml");
    let overlay = parse_layer(
        "overlay.toml",
        r#"
            [telegram]
            api_id = 2
            "#,
    )
    .expect("valid toml");
    let merged = merge_config(base, overlay);
    let telegram = merged.get("telegram").expect("table kept");
    assert_eq!(telegram.get("api_id").and_then(|v| v.as_integer()), Some(2));
    assert_eq!(telegram.get("api_hash").and_then(|v| v.as_str()), Some("aaa"));
}

#[test]
fn merge_layer_adds_new_keys_and_reports_parse_errors() {
    let base = ConfigValue::Table(vec![(
        "log".to_string(),
        ConfigValue::Table(vec![("file".to_string(), ConfigValue::Boolean(true))]),
    )]);
    let merged = merge_layer(base, "user.toml", "[log]\nfilter = \"debug\"\n[sync]\nhistory_page_size = 10\n")
        .expect("merge");
    let log = merged.get("log").expect("log");
    assert_eq!(log.get("file"), Some(&ConfigValue::Boolean(true)));
    assert_eq!(log.get("filter").and_then(|v| v.as_str()), Some("debug"));
    assert_eq!(merged.get("sync").and_then(|s| s.get("history_page_size")).and_then(|v| v.as_integer()), Some(10));

    let err = merge_layer(ConfigValue::Table(vec![]), "bad.toml", "[[[").expect_err("syntax error");
    assert!(matches!(err, ConfigError::Parse { ref path, .. } if path == "bad.toml"));
}

#[test]
fn scalar_overlay_replaces_table() {
    let base = ConfigValue::Table(vec![("a".to_string(), ConfigValue::Integer(1))]);
    assert_eq!(merge_config(base, ConfigValue::Integer(5)), ConfigValue::Integer(5));
}
