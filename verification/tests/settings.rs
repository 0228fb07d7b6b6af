use codex_token_usage::config::{
    app_config_from_row, default_app_config, merge_app_config, normalize_refresh_interval,
    normalize_retention_days, AppConfigInput,
};

#[test]
fn settings_are_saved_and_loaded() {
    let defaults = default_app_config("C:\\Users\\me\\.codex\\sessions".to_string());
    assert!(defaults.include_archived);
    let current = app_config_from_row(&defaults, None, 0, 0, 0, None);
    assert!(current.include_archived);

    let saved = merge_app_config(
        &current,
        AppConfigInput {
            sessions_root: Some("D:\\Codex\\sessions".to_string()),
            include_archived: Some(false),
            refresh_interval_seconds: Some(5),
            include_messages_in_export: Some(true),
            retention_days: Some(90),
            update_source: Some("owner/repo".to_string()),
        },
    );
    let loaded = app_config_from_row(
        &defaults,
        Some(saved.sessions_root.clone()),
        saved.refresh_interval_seconds,
        saved.include_messages_in_export as i64,
        saved.retention_days,
        Some(saved.update_source.clone()),
    );

    assert_eq!(saved.sessions_root, "D:\\Codex\\sessions");
    assert!(saved.include_archived);
    assert!(loaded.include_archived);
    assert_eq!(loaded.refresh_interval_seconds, 30);
    assert!(loaded.include_messages_in_export);
    assert_eq!(loaded.retention_days, 90);
    assert_eq!(loaded.update_source, "DonaldL81/codex-token-usage");
}

#[test]
fn settings_limits_and_blank_values() {
    assert_eq!(normalize_refresh_interval(-5), 0);
    assert_eq!(normalize_refresh_interval(0), 0);
    assert_eq!(normalize_refresh_interval(29), 30);
    assert_eq!(normalize_refresh_interval(100_000), 86_400);
    assert_eq!(normalize_retention_days(-1), 0);
    assert_eq!(normalize_retention_days(5000), 3650);
    let defaults = default_app_config("root".to_string());
    let row = app_config_from_row(&defaults, Some("   ".to_string()), 45, 0, 10, Some(" x ".to_string()));
    assert_eq!(row.sessions_root, "root");
    assert_eq!(row.refresh_interval_seconds, 45);
    assert!(!row.include_messages_in_export);
    assert_eq!(row.update_source, "x");
}
