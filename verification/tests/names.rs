use codex_token_usage::dashboard::{build_project_options, build_session_options};
use codex_token_usage::names::{
    load_display_name_maps, lookup_name, project_display_name, read_session_titles,
    read_workspace_labels, DisplayNameMaps,
};
use codex_token_usage::paths::{
    codex_home_from_sessions_root, normalize_codex_path, project_from_cwd, session_id_from_path,
};
use codex_token_usage::report::TokenEvent;

fn event(session: &str, project: &str, cwd: &str) -> TokenEvent {
    TokenEvent {
        event_key: "event-1".to_string(),
        local_time: "2026-07-10 18:00:00 +08:00".to_string(),
        utc_time: "2026-07-10 10:00:00".to_string(),
        date: "2026-07-10".to_string(),
        hour: 18,
        session_id: session.to_string(),
        turn_id: "turn-a".to_string(),
        token_event_index: 1,
        project: project.to_string(),
        cwd: cwd.to_string(),
        user_message: String::new(),
        user_message_preview: String::new(),
        last_input_tokens: 1,
        last_cached_input_tokens: 0,
        last_output_tokens: 0,
        last_reasoning_output_tokens: 0,
        last_total_tokens: 1,
        primary_used_percent: None,
        status: "正常".to_string(),
        preceding_action: None,
    }
}

#[test]
fn display_name_maps_read_codex_sidebar_titles() {
    let index_lines = vec![
        r#"{"id":"session-a","thread_name":"旧标题","updated_at":"2026-07-10T10:00:00Z"}"#.to_string(),
        r#"{"id":"session-a","thread_name":"[开发]token统计0.0.1","updated_at":"2026-07-10T10:01:00Z"}"#
            .to_string(),
    ];
    let state = r#"{"electron-workspace-root-labels":{"\\\\?\\D:\\Desktop\\AI\\codex_about":"0-codex_about"}}"#;

    let titles = read_session_titles(&index_lines);
    let labels = read_workspace_labels(state);

    assert_eq!(lookup_name(&titles, "session-a").unwrap(), "[开发]token统计0.0.1");
    assert_eq!(
        lookup_name(&labels, &normalize_codex_path(r"\\?\D:\Desktop\AI\codex_about")).unwrap(),
        "0-codex_about"
    );

    let display_names = DisplayNameMaps { session_titles: titles, workspace_labels: labels };
    let events = vec![event("session-a", "codex_about", r"\\?\D:\Desktop\AI\codex_about")];
    let project_options = build_project_options(&events, &display_names);
    let session_options = build_session_options(&events, &display_names);

    assert_eq!(project_options[0].value, "codex_about");
    assert_eq!(project_options[0].label, "0-codex_about");
    assert_eq!(session_options[0].value, "session-a");
    assert_eq!(session_options[0].label, "[开发]token统计0.0.1");
}

#[test]
fn display_names_fall_back_to_ids() {
    let names = load_display_name_maps(&vec!["not json".to_string()], None);
    assert!(names.session_titles.is_empty());
    assert!(names.workspace_labels.is_empty());
    let events = vec![event("0123456789abcdef", "proj", "")];
    assert_eq!(project_display_name("proj", &events, &names), "proj");
    let options = build_session_options(&events, &names);
    assert_eq!(options[0].label, "Session 01234567");
    assert_eq!(options[0].title, "Session 01234567\n项目：proj\nSession ID：0123456789abcdef");
    let project_options = build_project_options(&events, &names);
    assert_eq!(project_options[0].title, "proj");
}

#[test]
fn paths_are_read_by_their_components() {
    assert_eq!(normalize_codex_path("  \\\\?\\D:/Desktop/AI/X/ "), "d:\\desktop\\ai\\x");
    assert_eq!(project_from_cwd(Some("D:\\work\\proj\\")), "proj");
    assert_eq!(project_from_cwd(Some("/")), "unknown");
    assert_eq!(project_from_cwd(None), "unknown");
    assert_eq!(session_id_from_path("/a/b/rollout-1.jsonl"), "rollout-1");
    assert_eq!(session_id_from_path("/a/b/.hidden"), ".hidden");
    assert_eq!(session_id_from_path(""), "unknown-session");
    assert_eq!(codex_home_from_sessions_root("/home/me/.codex/Sessions").as_deref(), Some("/home/me/.codex"));
    assert_eq!(codex_home_from_sessions_root("/home/me/.codex/archived_sessions/").as_deref(), Some("/home/me/.codex"));
    assert_eq!(codex_home_from_sessions_root("/home/me/logs"), None);
    assert_eq!(codex_home_from_sessions_root("/sessions").as_deref(), Some("/"));
}

#[test]
fn dots_and_drive_roots_read_as_path_components() {
    assert_eq!(project_from_cwd(Some("p/.")), "p");
    assert_eq!(project_from_cwd(Some("D:\\work\\proj\\.\\")), "proj");
    assert_eq!(project_from_cwd(Some("D:\\")), "unknown");
    assert_eq!(project_from_cwd(Some("D:")), "unknown");
    assert_eq!(project_from_cwd(Some("D:proj")), "proj");
    assert_eq!(project_from_cwd(Some("a/..")), "unknown");
    assert_eq!(project_from_cwd(Some(".")), "unknown");
    assert_eq!(project_from_cwd(Some("a/./b")), "b");
    assert_eq!(session_id_from_path("C:\\logs\\x.jsonl\\."), "x");
    assert_eq!(
        codex_home_from_sessions_root("C:\\Users\\u\\.codex\\sessions\\.").as_deref(),
        Some("C:\\Users\\u\\.codex")
    );
    assert_eq!(codex_home_from_sessions_root("C:\\sessions").as_deref(), Some("C:\\"));
    assert_eq!(codex_home_from_sessions_root("C:sessions").as_deref(), Some("C:"));
    assert_eq!(codex_home_from_sessions_root("a//sessions").as_deref(), Some("a"));
    assert_eq!(codex_home_from_sessions_root("./sessions").as_deref(), Some("."));
}

#[test]
fn a_later_title_or_label_replaces_an_earlier_one() {
    let lines = vec![
        r#"{"id":"s1","thread_name":"first"}"#.to_string(),
        r#"{"id":"s2","thread_name":"other"}"#.to_string(),
        r#"{"id":"s1","thread_name":"second"}"#.to_string(),
    ];
    let titles = read_session_titles(&lines);
    assert_eq!(titles.len(), 2);
    assert_eq!(lookup_name(&titles, "s1").as_deref(), Some("second"));
    assert_eq!(lookup_name(&titles, "s2").as_deref(), Some("other"));

    let labels = read_workspace_labels(
        r#"{"electron-workspace-root-labels":{"D:\\X":"one","d:/x/":"two"}}"#,
    );
    assert_eq!(labels.len(), 1);
}
