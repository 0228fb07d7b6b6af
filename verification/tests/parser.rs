use codex_token_usage::ledger::{
    archived_sessions_root, new_scan_tally, scan_roots, tally_file, tally_new_events,
};
use codex_token_usage::parser::{parse_codex_jsonl, ParsedFile};
use codex_token_usage::time::UtcInstant;

fn sample_jsonl() -> String {
    r#"{"type":"session_meta","payload":{"session_id":"sample-session","timestamp":"2026-07-10T10:00:00Z","cwd":"D:\\Desktop\\AI\\codex_about\\codex-token-usage","originator":"codex","cli_version":"1.0.0","source":"test","model_provider":"openai"}}
{"type":"event_msg","timestamp":"2026-07-10T10:00:01Z","payload":{"type":"task_started","turn_id":"turn-1","started_at":1783677601,"model_context_window":200000}}
{"type":"event_msg","timestamp":"2026-07-10T10:00:02Z","payload":{"type":"user_message","message":"帮我统计 token 消耗"}}
{"type":"response_item","timestamp":"2026-07-10T10:00:02.500Z","payload":{"type":"function_call","name":"shell_command","call_id":"call-read","arguments":"{\"command\":\"Get-Content app/src/App.svelte\"}"}}
{"type":"response_item","timestamp":"2026-07-10T10:00:02.800Z","payload":{"type":"function_call_output","call_id":"call-read","output":"line one\nline two"}}
{"type":"event_msg","timestamp":"2026-07-10T10:00:03Z","payload":{"type":"token_count","info":{"last_token_usage":{"input_tokens":120,"cached_input_tokens":80,"output_tokens":30,"reasoning_output_tokens":10,"total_tokens":160},"total_token_usage":{"input_tokens":120,"cached_input_tokens":80,"output_tokens":30,"reasoning_output_tokens":10,"total_tokens":160},"model_context_window":200000},"rate_limits":{"plan_type":"pro","primary":{"used_percent":12.5,"window_minutes":300,"resets_at":1783679600},"secondary":{"used_percent":1.5,"window_minutes":10080,"resets_at":1783689600}}}}
{"type":"event_msg","timestamp":"2026-07-10T10:00:04Z","payload":{"type":"token_count","info":{"last_token_usage":{"input_tokens":360,"cached_input_tokens":220,"output_tokens":70,"reasoning_output_tokens":10,"total_tokens":440},"total_token_usage":{"input_tokens":480,"cached_input_tokens":300,"output_tokens":100,"reasoning_output_tokens":20,"total_tokens":600},"model_context_window":200000},"rate_limits":{"plan_type":"pro","primary":{"used_percent":12.8,"window_minutes":300,"resets_at":1783679600},"secondary":{"used_percent":1.8,"window_minutes":10080,"resets_at":1783689600}}}}"#
        .to_string()
}

fn lines(text: &str) -> Vec<String> {
    text.lines().map(|line| line.to_string()).collect()
}

fn parse(path: &str, text: &str) -> ParsedFile {
    parse_codex_jsonl(path, &lines(text))
}

#[test]
fn parser_falls_back_when_session_meta_and_turn_id_are_missing() {
    let parsed = parse(
        "/tmp/logs/fallback-session.jsonl",
        r#"{"type":"event_msg","timestamp":"2026-07-10T10:00:03Z","payload":{"type":"token_count","info":{"last_token_usage":{"input_tokens":10,"cached_input_tokens":2,"output_tokens":3,"reasoning_output_tokens":1,"total_tokens":14},"total_token_usage":{"input_tokens":10,"cached_input_tokens":2,"output_tokens":3,"reasoning_output_tokens":1,"total_tokens":14}},"rate_limits":{"primary":{"used_percent":1},"secondary":{}}}}"#,
    );

    assert_eq!(parsed.parse_errors, 0);
    assert_eq!(parsed.events.len(), 1);
    assert_eq!(parsed.events[0].session_id, "fallback-session");
    assert_eq!(parsed.events[0].turn_id, "unknown-turn");
    assert_eq!(parsed.events[0].project, "unknown");
}

#[test]
fn parser_keeps_multiple_token_counts_in_one_turn() {
    let parsed = parse("/tmp/sessions/sample-session.jsonl", &sample_jsonl());

    assert_eq!(parsed.events.len(), 2);
    assert_eq!(parsed.context_actions.len(), 2);
    assert!(parsed.context_actions[0].summary.contains("读取文件"));
    assert_eq!(parsed.events[0].turn_id, "turn-1");
    assert_eq!(parsed.events[1].turn_id, "turn-1");
    assert_eq!(parsed.events[0].token_event_index, 1);
    assert_eq!(parsed.events[1].token_event_index, 2);
}

#[test]
fn scanner_counts_parse_errors_without_dropping_valid_events() {
    let text = format!("{{\"type\":\"event_msg\",\n{}\n", sample_jsonl());
    let parsed = parse("/tmp/sessions/sample-session.jsonl", &text);

    assert_eq!(parsed.parse_errors, 1);
    assert_eq!(parsed.events.len(), 2);
}

#[test]
fn parse_keys_are_distinct_and_repeat() {
    let first = parse("/tmp/sessions/sample-session.jsonl", &sample_jsonl());
    let second = parse("/tmp/sessions/sample-session.jsonl", &sample_jsonl());
    let keys: Vec<&String> = first.events.iter().map(|event| &event.event_key).collect();

    assert_eq!(keys.len(), 2);
    assert_ne!(keys[0], keys[1]);
    assert_eq!(
        keys,
        second.events.iter().map(|event| &event.event_key).collect::<Vec<_>>()
    );
}

#[test]
fn parser_reads_session_and_rate_limits() {
    let parsed = parse("/tmp/sessions/sample-session.jsonl", &sample_jsonl());
    let first = &parsed.events[0];

    assert_eq!(first.session_id, "sample-session");
    assert_eq!(first.project, "codex-token-usage");
    assert_eq!(first.turn_key, "sample-session|turn-1");
    assert_eq!(first.utc_time, "2026-07-10 10:00:03");
    assert_eq!(
        first.event_key,
        "/tmp/sessions/sample-session.jsonl|2026-07-10 10:00:03|sample-session|turn-1|1"
    );
    assert_eq!(first.user_message.as_deref(), Some("帮我统计 token 消耗"));
    assert_eq!(first.user_message_preview.as_deref(), Some("帮我统计 token 消耗"));
    assert_eq!(first.model_context_window, Some(200000));
    assert_eq!(first.last_usage.total, 160);
    assert_eq!(first.session_usage.total, 160);
    assert_eq!(parsed.events[1].session_usage.total, 600);
    assert_eq!(first.rate_limit_plan_type.as_deref(), Some("pro"));
    assert_eq!(first.primary.used_percent.as_deref(), Some("12.5"));
    assert_eq!(first.primary.window_minutes, Some(300));
    assert_eq!(first.primary.resets_at.map(|t| t.secs), Some(1783679600));
    assert_eq!(first.turn_started.map(|t| t.secs), Some(1783677601));
    assert_eq!(first.status, "正常");
    assert_eq!(first.originator.as_deref(), Some("codex"));
}

#[test]
fn parser_links_tool_output_to_token_count() {
    let parsed = parse("/tmp/sessions/sample-session.jsonl", &sample_jsonl());
    let action = &parsed.context_actions[0];

    assert_eq!(action.token_event_key, parsed.events[0].event_key);
    assert_eq!(action.action_type, "工具输出");
    assert_eq!(action.tool_name, "shell_command");
    assert_eq!(
        action.summary,
        "读取文件 Get-Content app/src/App.svelte，输出约 17 字"
    );
    assert_eq!(action.utc_time, "2026-07-10 10:00:02");
}

#[test]
fn parser_grades_large_counts_and_skips_other_lines() {
    let text = r#"{"type":"event_msg","timestamp":"2026-07-10 10:00:03","payload":{"type":"token_count","turn_id":"t9","info":{"last_token_usage":{"total_tokens":1000000}},"rate_limits":{}}}
not a record line
{"type":"event_msg","timestamp":"bad time","payload":{"type":"token_count"}}
{"type":"event_msg","timestamp":"2026-07-10T10:00:05Z","payload":{"type":"token_count","info":{"last_token_usage":{"total_tokens":10}},"rate_limits":{"primary":{"used_percent":95}}}}"#;
    let parsed = parse("C:\\logs\\x.y.jsonl", text);

    assert_eq!(parsed.parse_errors, 0);
    assert_eq!(parsed.events.len(), 2);
    assert_eq!(parsed.events[0].session_id, "x.y");
    assert_eq!(parsed.events[0].turn_id, "t9");
    assert_eq!(parsed.events[0].status, "超高");
    assert_eq!(parsed.events[1].token_event_index, 3);
    assert_eq!(parsed.events[1].status, "超高");
}

#[test]
fn scanner_can_include_archived_sessions() {
    let sessions_root = "/tmp/home/.codex/sessions";
    let archived = archived_sessions_root(sessions_root);
    assert_eq!(archived.as_deref(), Some("/tmp/home/.codex/archived_sessions"));

    let roots = scan_roots(sessions_root, true, archived.clone(), true);
    assert_eq!(roots, vec![sessions_root.to_string(), "/tmp/home/.codex/archived_sessions".to_string()]);
    assert_eq!(scan_roots(sessions_root, false, archived, true).len(), 1);

    let files = [
        parse("/tmp/home/.codex/sessions/active.jsonl", &sample_jsonl()),
        parse("/tmp/home/.codex/archived_sessions/archived.jsonl", &sample_jsonl()),
    ];
    let mut tally = new_scan_tally(None);
    let mut keys: Vec<String> = Vec::new();
    for file in &files {
        let times: Vec<UtcInstant> = file.events.iter().map(|event| event.event_time).collect();
        tally_file(&mut tally, file.parse_errors, &times);
        let mut added = 0;
        for event in &file.events {
            if !keys.contains(&event.event_key) {
                keys.push(event.event_key.clone());
                added += 1;
            }
        }
        tally_new_events(&mut tally, added);
    }

    assert_eq!(tally.files_scanned, 2);
    assert_eq!(tally.new_events, 4);
    assert_eq!(keys.len(), 4);
    assert_eq!(tally.latest_event, Some(files[0].events[1].event_time));
}

#[test]
fn archived_sessions_sit_beside_the_sessions_parent() {
    assert_eq!(archived_sessions_root("a/sessions/..").as_deref(), Some("a/sessions/archived_sessions"));
    assert_eq!(archived_sessions_root("x/.").as_deref(), Some("archived_sessions"));
    assert_eq!(archived_sessions_root("h/x/.").as_deref(), Some("h/archived_sessions"));
    assert_eq!(archived_sessions_root("sessions").as_deref(), Some("archived_sessions"));
    assert_eq!(archived_sessions_root("/"), None);
    assert_eq!(archived_sessions_root(""), None);
    assert_eq!(archived_sessions_root("/sessions").as_deref(), Some("/archived_sessions"));
}

#[test]
fn quota_grade_compares_the_parsed_percentage() {
    let text = r#"{"type":"event_msg","timestamp":"2026-07-10T10:00:01Z","payload":{"type":"token_count","info":{"last_token_usage":{"total_tokens":10}},"rate_limits":{"primary":{"used_percent":94.99999999999999999}}}}
{"type":"event_msg","timestamp":"2026-07-10T10:00:02Z","payload":{"type":"token_count","info":{"last_token_usage":{"total_tokens":10}},"rate_limits":{"primary":{"used_percent":94.9999999999999}}}}
{"type":"event_msg","timestamp":"2026-07-10T10:00:03Z","payload":{"type":"token_count","info":{"last_token_usage":{"total_tokens":10}},"rate_limits":{"primary":{"used_percent":9.5e1}}}}"#;
    let parsed = parse("/tmp/sessions/q.jsonl", text);

    assert_eq!(parsed.events.len(), 3);
    assert_eq!(parsed.events[0].primary.used_percent.as_deref(), Some("95.0"));
    assert_eq!(parsed.events[0].status, "超高");
    assert_eq!(parsed.events[1].status, "正常");
    assert_eq!(parsed.events[2].status, "超高");
}
