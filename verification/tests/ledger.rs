use codex_token_usage::json::{JsonNumber, JsonValue};
use codex_token_usage::session::read_unix_seconds;
use codex_token_usage::filters::{month_label_from_index, recent_month_labels, UsageFilters};
use codex_token_usage::ledger::{
    backup_file_name, check_restore, default_codex_home, default_data_dir, default_sessions_root,
    export_file_name, is_context_action_backfill_current, is_session_log, path_is_inside,
    paths_refer_to_same_file, retention_cutoff, skips_file, sort_backups, stable_entry_path,
    stable_marker_path, stable_marker_text, stable_program_dir, BackupFileDto, ExportKind,
    RestoreError,
};
use codex_token_usage::report::{usage_fits, TokenEvent};
use codex_token_usage::time::{CivilDate, UtcInstant};

fn backup(name: &str, modified: &str) -> BackupFileDto {
    BackupFileDto {
        path: format!("/data/backups/{name}"),
        file_name: name.to_string(),
        modified_local: modified.to_string(),
        size_bytes: 10,
    }
}

fn filters(date_to: Option<&str>) -> UsageFilters {
    UsageFilters {
        date_from: None,
        date_to: date_to.map(|d| d.to_string()),
        project: None,
        session: None,
        search: None,
        only_anomalies: None,
    }
}

fn event(total: i64) -> TokenEvent {
    TokenEvent {
        event_key: "k".to_string(),
        local_time: "2026-07-10 10:00:00 +00:00".to_string(),
        utc_time: "2026-07-10 10:00:00".to_string(),
        date: "2026-07-10".to_string(),
        hour: 10,
        session_id: "s".to_string(),
        turn_id: "t".to_string(),
        token_event_index: 1,
        project: "p".to_string(),
        cwd: String::new(),
        user_message: String::new(),
        user_message_preview: String::new(),
        last_input_tokens: total,
        last_cached_input_tokens: 0,
        last_output_tokens: 0,
        last_reasoning_output_tokens: 0,
        last_total_tokens: total,
        primary_used_percent: None,
        status: "正常".to_string(),
        preceding_action: None,
    }
}

#[test]
fn same_file_and_inside_compare_resolved_paths() {
    assert!(paths_refer_to_same_file(Some("C:\\Apps\\Tool.exe"), Some("c:\\apps\\tool.EXE")));
    assert!(!paths_refer_to_same_file(Some("C:\\Apps\\Tool.exe"), Some("C:\\Apps\\Other.exe")));
    assert!(!paths_refer_to_same_file(None, Some("C:\\Apps\\Tool.exe")));

    assert!(path_is_inside(Some("/data/backups"), Some("/data/backups/a.sqlite")));
    assert!(path_is_inside(Some("/data/backups"), Some("/data/backups")));
    assert!(!path_is_inside(Some("/data/backups"), Some("/data/backups2/a.sqlite")));
    assert!(!path_is_inside(Some("/data/backups"), Some("/data/a.sqlite")));
    assert!(!path_is_inside(None, Some("/data/backups/a.sqlite")));
}

#[test]
fn data_and_stable_locations() {
    assert_eq!(default_data_dir(None, None), ".codex-token-usage");
    assert_eq!(default_data_dir(None, Some("/home/u")), "/home/u/.codex-token-usage");
    assert_eq!(default_data_dir(Some("/local"), Some("/home/u")), "/local/CodexTokenUsage");
    assert_eq!(default_sessions_root(Some("/ch"), Some("/home/u")), "/ch/sessions");
    assert_eq!(default_sessions_root(None, Some("/home/u")), "/home/u/.codex/sessions");
    assert_eq!(default_codex_home(Some("/ch"), None), Some("/ch".to_string()));
    assert_eq!(default_codex_home(None, Some("/home/u")), Some("/home/u/.codex".to_string()));
    assert_eq!(default_codex_home(None, None), None);

    let dir = stable_program_dir(None, "/data");
    assert_eq!(dir, "/data/Programs/CodexTokenUsage");
    assert_eq!(stable_program_dir(Some("/local"), "/data"), "/local/Programs/CodexTokenUsage");
    assert_eq!(stable_entry_path(&dir), "/data/Programs/CodexTokenUsage/CodexTokenUsage.exe");
    assert_eq!(stable_marker_path(&dir), "/data/Programs/CodexTokenUsage/.stable-entry");
    assert_eq!(
        stable_marker_text("1.0.0", "C:\\x.exe", "2026-07-10T10:00:00Z"),
        "version=1.0.0\npath=C:\\x.exe\nupdated_at=2026-07-10T10:00:00Z\n"
    );
}

#[test]
fn scans_skip_old_files_and_read_only_logs() {
    let cutoff = UtcInstant { secs: 1_000_000, nanos: 0 };
    assert!(!skips_file(None, Some(UtcInstant { secs: 0, nanos: 0 })));
    assert!(!skips_file(Some(cutoff), None));
    assert!(skips_file(Some(cutoff), Some(UtcInstant { secs: 1_000_000 - 301, nanos: 0 })));
    assert!(!skips_file(Some(cutoff), Some(UtcInstant { secs: 1_000_000 - 300, nanos: 0 })));
    assert!(!skips_file(Some(cutoff), Some(UtcInstant { secs: 2_000_000, nanos: 0 })));

    assert!(is_session_log("rollout-1.jsonl"));
    assert!(!is_session_log("rollout-1.json"));
    assert!(!is_session_log(".jsonl"));
    assert!(!is_session_log("notes.JSONL"));

    assert!(is_context_action_backfill_current(Some(("/s", 1)), "/s", true));
    assert!(!is_context_action_backfill_current(Some(("/s", 0)), "/s", true));
    assert!(!is_context_action_backfill_current(Some(("/t", 1)), "/s", true));
    assert!(!is_context_action_backfill_current(None, "/s", false));
}

#[test]
fn retention_and_file_names() {
    let today = CivilDate { year: 2026, month: 3, day: 1 };
    assert_eq!(retention_cutoff(0, today), None);
    assert_eq!(retention_cutoff(-5, today), None);
    assert_eq!(retention_cutoff(1, today), Some("2026-02-28".to_string()));
    assert_eq!(retention_cutoff(60, today), Some("2025-12-31".to_string()));

    assert_eq!(
        backup_file_name("20260710-100000"),
        "codex-token-usage-before-rebuild-20260710-100000.sqlite"
    );
    assert_eq!(
        export_file_name(&ExportKind::Detail, "20260710-100000"),
        "codex-token-usage-detail-20260710-100000.csv"
    );
    assert_eq!(
        export_file_name(&ExportKind::Summary, "20260710-100000"),
        "codex-token-usage-project-session-summary-20260710-100000.csv"
    );
}

#[test]
fn backups_are_listed_newest_first() {
    let sorted = sort_backups(vec![
        backup("a", "2026-07-01 10:00:00 +08:00"),
        backup("b", "2026-07-03 10:00:00 +08:00"),
        backup("c", "2026-07-01 10:00:00 +08:00"),
        backup("d", "2026-07-02 10:00:00 +08:00"),
    ]);
    let names: Vec<&str> = sorted.iter().map(|b| b.file_name.as_str()).collect();
    assert_eq!(names, vec!["b", "d", "a", "c"]);

    assert_eq!(check_restore(false, true), Err(RestoreError::OutsideBackups));
    assert_eq!(check_restore(true, false), Err(RestoreError::NotFound));
    assert_eq!(check_restore(true, true), Ok(()));
    assert_eq!(RestoreError::NotFound.message("/x"), "Backup file not found: /x");
}

#[test]
fn month_labels_count_back_from_the_window_end() {
    assert_eq!(month_label_from_index(2026 * 12 + 6), "2026-07");
    assert_eq!(month_label_from_index(0), "0-01");
    assert_eq!(month_label_from_index(-1), "-1-12");
    let today = CivilDate { year: 2026, month: 7, day: 12 };
    assert_eq!(
        recent_month_labels(&filters(Some("2026-02-15")), 3, today),
        vec!["2025-12", "2026-01", "2026-02"]
    );
    assert_eq!(recent_month_labels(&filters(None), 2, today), vec!["2026-06", "2026-07"]);
    assert_eq!(recent_month_labels(&filters(Some("not a date")), 1, today), vec!["2026-07"]);
    assert!(recent_month_labels(&filters(None), 0, today).is_empty());
}

#[test]
fn sums_that_fit_in_i64_are_accepted() {
    assert!(usage_fits(&vec![event(10), event(-20)]));
    assert!(usage_fits(&vec![event(i64::MAX)]));
    assert!(!usage_fits(&vec![event(i64::MAX), event(1)]));
    assert!(!usage_fits(&vec![event(i64::MIN)]));
    assert!(usage_fits(&Vec::new()));
}

fn seconds_member(n: i64) -> JsonValue {
    JsonValue::Object(vec![(
        "t".to_string(),
        JsonValue::Number(JsonNumber {
            int: Some(n),
            uint: if n >= 0 { Some(n as u64) } else { None },
            text: n.to_string(),
        }),
    )])
}

#[test]
fn unix_seconds_hold_within_chrono_dates() {
    assert_eq!(
        read_unix_seconds(&seconds_member(8_210_266_876_799), "t"),
        Some(UtcInstant { secs: 8_210_266_876_799, nanos: 0 })
    );
    assert_eq!(read_unix_seconds(&seconds_member(8_210_266_876_800), "t"), None);
    assert_eq!(
        read_unix_seconds(&seconds_member(-8_334_601_228_800), "t"),
        Some(UtcInstant { secs: -8_334_601_228_800, nanos: 0 })
    );
    assert_eq!(read_unix_seconds(&seconds_member(-8_334_601_228_801), "t"), None);
    assert_eq!(read_unix_seconds(&seconds_member(0), "t"), Some(UtcInstant { secs: 0, nanos: 0 }));
}
