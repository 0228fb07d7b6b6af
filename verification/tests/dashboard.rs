use codex_token_usage::csv::{detail_export_lines, escape_csv_cell, summary_export_lines};
use codex_token_usage::detail::{build_detail_rows, push_detail_row, DetailRowDto};
use codex_token_usage::filters::{apply_filters, UsageFilters};
use codex_token_usage::names::DisplayNameMaps;
use codex_token_usage::parser::{parse_codex_jsonl, ParsedFile};
use codex_token_usage::query::dashboard_report;
use codex_token_usage::report::TokenEvent;
use codex_token_usage::time::CivilDate;

fn sample_jsonl() -> String {
    r#"{"type":"session_meta","payload":{"session_id":"sample-session","timestamp":"2026-07-10T10:00:00Z","cwd":"D:\\Desktop\\AI\\codex_about\\codex-token-usage","originator":"codex","cli_version":"1.0.0","source":"test","model_provider":"openai"}}
{"type":"event_msg","timestamp":"2026-07-10T10:00:01Z","payload":{"type":"task_started","turn_id":"turn-1","started_at":1783677601,"model_context_window":200000}}
{"type":"event_msg","timestamp":"2026-07-10T10:00:02Z","payload":{"type":"user_message","message":"帮我统计 token 消耗"}}
{"type":"response_item","timestamp":"2026-07-10T10:00:02.500Z","payload":{"type":"function_call","name":"shell_command","call_id":"call-read","arguments":"{\"command\":\"Get-Content app/src/App.svelte\"}"}}
{"type":"response_item","timestamp":"2026-07-10T10:00:02.800Z","payload":{"type":"function_call_output","call_id":"call-read","output":"line one\nline two"}}
{"type":"event_msg","timestamp":"2026-07-10T10:00:03Z","payload":{"type":"token_count","info":{"last_token_usage":{"input_tokens":120,"cached_input_tokens":80,"output_tokens":30,"reasoning_output_tokens":10,"total_tokens":160},"total_token_usage":{"input_tokens":120,"cached_input_tokens":80,"output_tokens":30,"reasoning_output_tokens":10,"total_tokens":160},"model_context_window":200000},"rate_limits":{"plan_type":"pro","primary":{"used_percent":12.5,"window_minutes":300,"resets_at":1783679600},"secondary":{"used_percent":1.5,"window_minutes":10080,"resets_at":1783689600}}}}
{"type":"event_msg","timestamp":"2026-07-10T10:00:04Z","payload":{"type":"token_count","info":{"last_token_usage":{"input_tokens":360,"cached_input_tokens":220,"output_tokens":70,"reasoning_output_tokens":10,"total_tokens":440},"total_token_usage":{"input_tokens":480,"cached_input_tokens":300,"output_tokens":100,"reasoning_output_tokens":20,"total_tokens":600},"model_context_window":200000},"rate_limits":{"plan_type":"pro","primary":{"used_percent":12.8,"window_minutes":300,"resets_at":1783679600},"secondary":{"used_percent":1.8,"window_minutes":10080,"resets_at":1783689600}}}}"#
        .to_string()
}

fn cross_date_jsonl() -> String {
    r#"{"type":"session_meta","payload":{"session_id":"cross-date","timestamp":"2026-07-10T01:00:00Z","cwd":"D:\\Desktop\\AI\\cross-date"}}
{"type":"event_msg","timestamp":"2026-07-10T01:00:01Z","payload":{"type":"task_started","turn_id":"turn-a","started_at":1783645201}}
{"type":"event_msg","timestamp":"2026-07-10T01:00:02Z","payload":{"type":"user_message","message":"第一天"}}
{"type":"event_msg","timestamp":"2026-07-10T01:00:03Z","payload":{"type":"token_count","info":{"last_token_usage":{"input_tokens":10,"cached_input_tokens":0,"output_tokens":5,"reasoning_output_tokens":1,"total_tokens":16},"total_token_usage":{"input_tokens":10,"cached_input_tokens":0,"output_tokens":5,"reasoning_output_tokens":1,"total_tokens":16}},"rate_limits":{"primary":{"used_percent":1},"secondary":{}}}}
{"type":"event_msg","timestamp":"2026-07-11T01:00:01Z","payload":{"type":"task_started","turn_id":"turn-b","started_at":1783731601}}
{"type":"event_msg","timestamp":"2026-07-11T01:00:02Z","payload":{"type":"user_message","message":"第二天"}}
{"type":"event_msg","timestamp":"2026-07-11T01:00:03Z","payload":{"type":"token_count","info":{"last_token_usage":{"input_tokens":20,"cached_input_tokens":5,"output_tokens":7,"reasoning_output_tokens":2,"total_tokens":29},"total_token_usage":{"input_tokens":30,"cached_input_tokens":5,"output_tokens":12,"reasoning_output_tokens":3,"total_tokens":45}},"rate_limits":{"primary":{"used_percent":2},"secondary":{}}}}"#
        .to_string()
}

fn parse(path: &str, text: &str) -> ParsedFile {
    let lines: Vec<String> = text.lines().map(|line| line.to_string()).collect();
    parse_codex_jsonl(path, &lines)
}

/// The counts as the ledger returns them, with local time taken as UTC.
fn ledger_events(parsed: &ParsedFile) -> Vec<TokenEvent> {
    parsed
        .events
        .iter()
        .map(|event| TokenEvent {
            event_key: event.event_key.clone(),
            local_time: format!("{} +00:00", event.utc_time),
            utc_time: event.utc_time.clone(),
            date: event.utc_time[..10].to_string(),
            hour: event.utc_time[11..13].parse().unwrap(),
            session_id: event.session_id.clone(),
            turn_id: event.turn_id.clone(),
            token_event_index: event.token_event_index,
            project: event.project.clone(),
            cwd: event.cwd.clone().unwrap_or_default(),
            user_message: event.user_message.clone().unwrap_or_default(),
            user_message_preview: event.user_message_preview.clone().unwrap_or_default(),
            last_input_tokens: event.last_usage.input,
            last_cached_input_tokens: event.last_usage.cached_input,
            last_output_tokens: event.last_usage.output,
            last_reasoning_output_tokens: event.last_usage.reasoning_output,
            last_total_tokens: event.last_usage.total,
            primary_used_percent: event.primary.used_percent.clone(),
            status: event.status.clone(),
            preceding_action: parsed
                .context_actions
                .iter()
                .find(|action| action.token_event_key == event.event_key)
                .map(|action| action.summary.clone()),
        })
        .collect()
}

fn no_names() -> DisplayNameMaps {
    DisplayNameMaps { session_titles: Vec::new(), workspace_labels: Vec::new() }
}

fn no_filters() -> UsageFilters {
    UsageFilters {
        date_from: None,
        date_to: None,
        project: None,
        session: None,
        search: None,
        only_anomalies: None,
    }
}

fn today() -> CivilDate {
    CivilDate { year: 2026, month: 7, day: 12 }
}

#[test]
fn dashboard_keeps_project_session_turn_and_token_sums() {
    let parsed = parse("/tmp/sessions/sample-session.jsonl", &sample_jsonl());
    let events = ledger_events(&parsed);
    let dashboard = dashboard_report(&events, &no_filters(), &no_names(), today());

    assert_eq!(dashboard.metrics.total_tokens, 600);
    assert_eq!(dashboard.metrics.cached_input_tokens, 300);
    assert_eq!(dashboard.metrics.non_cached_input_tokens, 180);
    assert_eq!(dashboard.metrics.project_count, 1);
    assert_eq!(dashboard.metrics.session_count, 1);
    assert_eq!(dashboard.metrics.turn_count, 1);
    assert!(dashboard
        .detail_rows
        .iter()
        .any(|row| row.kind == "UserInput" && row.node.contains("统计 token")));
    assert!(dashboard.detail_rows.iter().any(|row| {
        row.kind == "UserInput" && row.node_tooltip.contains("用户输入\n帮我统计 token 消耗")
    }));
    assert!(dashboard.detail_rows.iter().any(|row| {
        row.kind == "TokenCount"
            && row.node_tooltip.contains("前置动作：读取文件")
            && row.node_tooltip.contains("完整用户输入：")
            && row.node_tooltip.contains("帮我统计 token 消耗")
            && !row.node_tooltip.contains("归属用户输入")
            && !row.node_tooltip.contains("Turn ID")
            && !row.node_tooltip.contains("Token事件时间")
            && !row.node_tooltip.contains("Token构成")
            && !row.node_tooltip.contains("距离")
            && !row.node_tooltip.contains("置信度")
    }));
    assert!(dashboard
        .detail_rows
        .iter()
        .any(|row| row.level == 0 && row.parent_key.is_none() && row.has_children));
    assert!(dashboard
        .detail_rows
        .iter()
        .any(|row| row.level == 4 && row.parent_key.is_some() && !row.has_children));
    assert!(dashboard
        .summary_rows
        .iter()
        .any(|row| row.level == 0 && row.parent_key.is_none() && row.has_children));
    assert!(dashboard
        .session_options
        .iter()
        .any(|option| option.value == "sample-session"
            && option.project.as_deref() == Some("codex-token-usage")));
}

#[test]
fn dashboard_keeps_cross_date_hour_buckets() {
    let parsed = parse("/tmp/sessions/cross-date.jsonl", &cross_date_jsonl());
    let events = ledger_events(&parsed);
    let dashboard = dashboard_report(&events, &no_filters(), &no_names(), today());
    let mut dates: Vec<&str> = dashboard
        .hourly_buckets
        .iter()
        .map(|bucket| bucket.date.as_str())
        .collect();
    dates.dedup();

    assert_eq!(dashboard.metrics.token_event_count, 2);
    assert_eq!(dates.len(), 2);
    assert_eq!(dashboard.daily_buckets.len(), 2);
    assert_eq!(dashboard.daily_buckets[0].label, "2026-07-10");
    assert_eq!(dashboard.daily_buckets[1].total_tokens, 29);
    assert_eq!(dashboard.metrics.daily_average_tokens, 22);
    assert_eq!(dashboard.metrics.hourly_peak_tokens, 29);
    assert_eq!(dashboard.monthly_buckets.len(), 6);
    assert_eq!(dashboard.monthly_buckets[5].label, "2026-07");
    assert_eq!(dashboard.monthly_buckets[5].total_tokens, 45);
    assert_eq!(dashboard.monthly_buckets[0].label, "2026-02");
    assert_eq!(dashboard.monthly_buckets[0].status, "正常");
}

#[test]
fn detail_export_can_include_message_text() {
    let parsed = parse("/tmp/sessions/sample-session.jsonl", &sample_jsonl());
    let events = ledger_events(&parsed);
    let lines = detail_export_lines(&events, true);
    let csv_text = lines.join("\n");

    assert_eq!(lines.len() - 1, 2);
    assert!(csv_text.contains("帮我统计 token 消耗"));
    assert!(lines[0].starts_with("本地时间,UTC时间,日期,项目"));
    assert!(lines[0].contains(",用户输入,"));
    let preview_lines = detail_export_lines(&events, false);
    assert!(preview_lines[0].contains(",用户输入预览,"));
}

#[test]
fn context_actions_backfill_existing_token_events() {
    let parsed = parse("/tmp/sessions/sample-session.jsonl", &sample_jsonl());
    let events = ledger_events(&parsed);

    assert_eq!(parsed.context_actions.len(), 2);
    assert!(events.iter().any(|event| event
        .preceding_action
        .as_deref()
        .unwrap_or("")
        .contains("读取文件")));
}

#[test]
fn detail_tree_orders_and_limits_rows() {
    let parsed = parse("/tmp/sessions/sample-session.jsonl", &sample_jsonl());
    let events = ledger_events(&parsed);
    let rows = build_detail_rows(&events, usize::MAX, &no_names());
    let kinds: Vec<&str> = rows.iter().map(|row| row.kind.as_str()).collect();

    assert_eq!(kinds, vec!["Project", "Session", "UserInput", "Turn", "TokenCount", "TokenCount"]);
    assert_eq!(rows[0].row_key, "detail:project:codex-token-usage");
    assert_eq!(rows[0].session_id, "-");
    assert_eq!(rows[0].total_tokens, 600);
    assert_eq!(rows[0].time, "2026-07-10 10:00:03 +00:00 ~ 2026-07-10 10:00:04 +00:00");
    assert_eq!(rows[1].node, "Session sample-s");
    assert_eq!(rows[1].turn_id, "-");
    assert_eq!(rows[3].node, "Turn turn-1");
    assert_eq!(rows[4].event, "#2");
    assert_eq!(rows[4].total_tokens, 440);
    assert_eq!(rows[5].event, "#1");
    assert_eq!(rows[5].parent_key.as_deref(), Some("detail:turn:sample-session:turn-1"));
    assert_eq!(rows[5].status_reason, "正常范围内");

    let limited = build_detail_rows(&events, 2, &no_names());
    assert_eq!(limited.len(), 2);
    let first_only = build_detail_rows(&events, 0, &no_names());
    assert_eq!(first_only.len(), 1);
}

#[test]
fn filters_select_by_project_search_and_grade() {
    let parsed = parse("/tmp/sessions/sample-session.jsonl", &sample_jsonl());
    let events = ledger_events(&parsed);
    let mut filters = no_filters();
    filters.search = Some("  GET-CONTENT ".to_string());
    assert_eq!(apply_filters(&events, &filters, &no_names()).len(), 2);
    filters.search = Some("nothing like this".to_string());
    assert_eq!(apply_filters(&events, &filters, &no_names()).len(), 0);

    let mut filters = no_filters();
    filters.project = Some("other".to_string());
    assert_eq!(apply_filters(&events, &filters, &no_names()).len(), 0);
    filters.project = Some(String::new());
    assert_eq!(apply_filters(&events, &filters, &no_names()).len(), 2);

    let mut filters = no_filters();
    filters.only_anomalies = Some(true);
    assert_eq!(apply_filters(&events, &filters, &no_names()).len(), 0);

    let mut filters = no_filters();
    filters.date_from = Some("2026-07-11".to_string());
    assert_eq!(apply_filters(&events, &filters, &no_names()).len(), 0);
    filters.date_from = Some("2026-07-10".to_string());
    filters.date_to = Some("2026-07-10".to_string());
    assert_eq!(apply_filters(&events, &filters, &no_names()).len(), 2);
}

#[test]
fn summary_rows_and_export() {
    let parsed = parse("/tmp/sessions/sample-session.jsonl", &sample_jsonl());
    let events = ledger_events(&parsed);
    let dashboard = dashboard_report(&events, &no_filters(), &no_names(), today());
    let rows = &dashboard.summary_rows;

    assert_eq!(rows.len(), 2);
    assert_eq!(rows[0].name, "codex-token-usage");
    assert_eq!(rows[0].session_count, 1);
    assert_eq!(rows[0].message_count, 1);
    assert_eq!(rows[1].name, "session sample-s");
    assert_eq!(rows[1].row_key, "summary:session:codex-token-usage:sample-session");
    let lines = summary_export_lines(rows);
    assert_eq!(lines.len(), 3);
    assert!(lines[1].starts_with("0,codex-token-usage,codex-token-usage,,1,1,480,300,100,20,600,正常,正常范围内"));
    assert_eq!(escape_csv_cell("a,\"b\""), "\"a,\"\"b\"\"\"");
    assert_eq!(escape_csv_cell("plain"), "plain");
    assert_eq!(dashboard.composition.len(), 5);
    assert_eq!(dashboard.composition[2].total_tokens, 180);
    assert_eq!(dashboard.composition_total, 600);
    assert_eq!(dashboard.top_projects[0].total_tokens, 600);
    assert_eq!(dashboard.top_sessions[0].session_name, "Session sample-s");
}

#[test]
fn detail_rows_are_pushed_only_for_nonempty_groups() {
    let parsed = parse("/tmp/sessions/sample-session.jsonl", &sample_jsonl());
    let events = ledger_events(&parsed);
    let mut rows: Vec<DetailRowDto> = Vec::new();
    push_detail_row(
        &mut rows,
        "k".to_string(),
        None,
        true,
        1,
        "Session",
        "n".to_string(),
        "t".to_string(),
        &Vec::new(),
        None,
    );
    assert!(rows.is_empty());
    push_detail_row(
        &mut rows,
        "k".to_string(),
        Some("p".to_string()),
        true,
        1,
        "Session",
        "n".to_string(),
        "t".to_string(),
        &events,
        Some(7),
    );
    assert_eq!(rows.len(), 1);
    let row = &rows[0];
    assert_eq!(row.total_tokens, 600);
    assert_eq!(row.input_tokens, 480);
    assert_eq!(row.cached_input_tokens, 300);
    assert_eq!(row.non_cached_input_tokens, 180);
    assert_eq!(row.session_id, "sample-session");
    assert_eq!(row.turn_id, "-");
    assert_eq!(row.event, "#7");
    assert_eq!(row.parent_key.as_deref(), Some("p"));
}

#[test]
fn detail_tree_parents_come_first_and_children_add_up() {
    let mut events = ledger_events(&parse("/tmp/sessions/sample-session.jsonl", &sample_jsonl()));
    events.extend(ledger_events(&parse("/tmp/sessions/cross-date.jsonl", &cross_date_jsonl())));
    let rows = build_detail_rows(&events, usize::MAX, &no_names());
    for (i, row) in rows.iter().enumerate() {
        if let Some(parent) = &row.parent_key {
            assert!(rows[..i].iter().any(|earlier| &earlier.row_key == parent));
        }
    }
    for parent in &rows {
        if parent.kind == "TokenCount" || parent.kind == "UserInput" {
            continue;
        }
        let children: Vec<_> = rows
            .iter()
            .filter(|row| row.parent_key.as_deref() == Some(parent.row_key.as_str()))
            .collect();
        let (total, input) = if parent.kind == "Session" {
            let turns: Vec<_> = rows
                .iter()
                .filter(|row| {
                    row.kind == "Turn"
                        && children.iter().any(|c| Some(c.row_key.as_str()) == row.parent_key.as_deref())
                })
                .collect();
            (turns.iter().map(|r| r.total_tokens).sum::<i64>(), turns.iter().map(|r| r.input_tokens).sum::<i64>())
        } else {
            (children.iter().map(|r| r.total_tokens).sum::<i64>(), children.iter().map(|r| r.input_tokens).sum::<i64>())
        };
        assert_eq!(total, parent.total_tokens);
        assert_eq!(input, parent.input_tokens);
    }
    let project_total: i64 = rows.iter().filter(|r| r.level == 0).map(|r| r.total_tokens).sum();
    assert_eq!(project_total, 600 + 16 + 29);
}
