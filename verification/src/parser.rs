//! Reading one session log: the token counts it records, each with the
//! session, turn, prompt and quota it belongs to, and the action that
//! preceded it.
use vstd::prelude::*;
use crate::actions::{
    action_view, actions_view, context_action_from_event_msg,
    context_action_from_response_item, event_msg_action, find_preceding, opt_action_view,
    lemma_response_item_tools_unique, prune_recent_actions, pruned, response_item_action,
    select_preceding_action, tool_ids_unique, tools_view,
    ActionView, ContextActionCandidate, ToolCallContext, preview_text,
};
use crate::json::{
    copy_string, get_i64, get_number_text, get_str, ji64, jget, jget_str, jindex, jnum_text,
    json_parse, parse_json, token_value, token_value_spec, JsonValue,
};
use crate::paths::{project_from_cwd, project_spec};
use crate::session::{
    apply_session_meta, apply_task_started, apply_turn_context, apply_user_message,
    after_session_meta, after_task_started, after_turn_context, after_user_message,
    context_view, copy_opt, current_session_id, empty_context, new_session_context,
    read_timestamp, read_unix_seconds, session_id_spec, timestamp_member, turn_id_spec,
    unix_member, ContextView, SessionContext,
};
use crate::status::{classify_status, opt_view, status_spec};
use crate::text::{
    chars_of, contains, contains_seq, extend_chars, extend_str, i64_text, int_text,
    lemma_nat_text_injective, lemma_nat_text_shape, lemma_same_last_part, preview_of, str_eq,
    string_from,
};
use crate::time::{format_utc_compact, utc_compact_text, UtcInstant};

verus! {

// ---------------------------------------------------------------------------
// One token count
// ---------------------------------------------------------------------------

/// The five token counts of a usage record.
#[derive(Clone, Copy, PartialEq, Eq, Structural, Debug)]
pub struct TokenCounts {
    pub input: i64,
    pub cached_input: i64,
    pub output: i64,
    pub reasoning_output: i64,
    pub total: i64,
}

/// The counts a usage object gives, 0 where a member is missing.
pub open spec fn counts_spec(usage: JsonValue) -> TokenCounts {
    TokenCounts {
        input: token_value_spec(usage, "input_tokens"@),
        cached_input: token_value_spec(usage, "cached_input_tokens"@),
        output: token_value_spec(usage, "output_tokens"@),
        reasoning_output: token_value_spec(usage, "reasoning_output_tokens"@),
        total: token_value_spec(usage, "total_tokens"@),
    }
}

pub fn read_counts(usage: &JsonValue) -> (r: TokenCounts)
    ensures
        r == counts_spec(*usage),
{
    TokenCounts {
        input: token_value(usage, "input_tokens"),
        cached_input: token_value(usage, "cached_input_tokens"),
        output: token_value(usage, "output_tokens"),
        reasoning_output: token_value(usage, "reasoning_output_tokens"),
        total: token_value(usage, "total_tokens"),
    }
}

/// A rate-limit window: how much of it is used (the decimal text of the
/// percentage), its length in minutes, and when it resets.
pub struct RateWindow {
    pub used_percent: Option<String>,
    pub window_minutes: Option<i64>,
    pub resets_at: Option<UtcInstant>,
}

pub struct RateWindowView {
    pub used_percent: Option<Seq<char>>,
    pub window_minutes: Option<i64>,
    pub resets_at: Option<UtcInstant>,
}

pub open spec fn rate_window_view(w: RateWindow) -> RateWindowView {
    RateWindowView {
        used_percent: opt_view(w.used_percent),
        window_minutes: w.window_minutes,
        resets_at: w.resets_at,
    }
}

pub open spec fn rate_window_spec(limit: JsonValue) -> RateWindowView {
    RateWindowView {
        used_percent: jnum_text(jget(limit, "used_percent"@)),
        window_minutes: ji64(jget(limit, "window_minutes"@)),
        resets_at: unix_member(limit, "resets_at"@),
    }
}

pub fn read_rate_window(limit: &JsonValue) -> (r: RateWindow)
    ensures
        rate_window_view(r) == rate_window_spec(*limit),
{
    RateWindow {
        used_percent: get_number_text(limit, "used_percent"),
        window_minutes: get_i64(limit, "window_minutes"),
        resets_at: read_unix_seconds(limit, "resets_at"),
    }
}

/// One token count read from a log, with everything known about it.
pub struct ParsedTokenEvent {
    pub event_key: String,
    pub event_time: UtcInstant,
    pub utc_time: String,
    pub session_id: String,
    pub turn_id: String,
    pub turn_key: String,
    pub token_event_index: i64,
    pub file_path: String,
    pub project: String,
    pub cwd: Option<String>,
    pub originator: Option<String>,
    pub source: Option<String>,
    pub cli_version: Option<String>,
    pub model_provider: Option<String>,
    pub session_started: Option<UtcInstant>,
    pub turn_started: Option<UtcInstant>,
    pub user_message: Option<String>,
    pub user_message_preview: Option<String>,
    pub model_context_window: Option<i64>,
    pub last_usage: TokenCounts,
    pub session_usage: TokenCounts,
    pub rate_limit_plan_type: Option<String>,
    pub primary: RateWindow,
    pub secondary: RateWindow,
    pub status: String,
}

pub struct EventView {
    pub event_key: Seq<char>,
    pub event_time: UtcInstant,
    pub utc_time: Seq<char>,
    pub session_id: Seq<char>,
    pub turn_id: Seq<char>,
    pub turn_key: Seq<char>,
    pub token_event_index: i64,
    pub file_path: Seq<char>,
    pub project: Seq<char>,
    pub cwd: Option<Seq<char>>,
    pub originator: Option<Seq<char>>,
    pub source: Option<Seq<char>>,
    pub cli_version: Option<Seq<char>>,
    pub model_provider: Option<Seq<char>>,
    pub session_started: Option<UtcInstant>,
    pub turn_started: Option<UtcInstant>,
    pub user_message: Option<Seq<char>>,
    pub user_message_preview: Option<Seq<char>>,
    pub model_context_window: Option<i64>,
    pub last_usage: TokenCounts,
    pub session_usage: TokenCounts,
    pub rate_limit_plan_type: Option<Seq<char>>,
    pub primary: RateWindowView,
    pub secondary: RateWindowView,
    pub status: Seq<char>,
}

pub open spec fn event_view(e: ParsedTokenEvent) -> EventView {
    EventView {
        event_key: e.event_key@,
        event_time: e.event_time,
        utc_time: e.utc_time@,
        session_id: e.session_id@,
        turn_id: e.turn_id@,
        turn_key: e.turn_key@,
        token_event_index: e.token_event_index,
        file_path: e.file_path@,
        project: e.project@,
        cwd: opt_view(e.cwd),
        originator: opt_view(e.originator),
        source: opt_view(e.source),
        cli_version: opt_view(e.cli_version),
        model_provider: opt_view(e.model_provider),
        session_started: e.session_started,
        turn_started: e.turn_started,
        user_message: opt_view(e.user_message),
        user_message_preview: opt_view(e.user_message_preview),
        model_context_window: e.model_context_window,
        last_usage: e.last_usage,
        session_usage: e.session_usage,
        rate_limit_plan_type: opt_view(e.rate_limit_plan_type),
        primary: rate_window_view(e.primary),
        secondary: rate_window_view(e.secondary),
        status: e.status@,
    }
}

pub open spec fn events_view(v: Seq<ParsedTokenEvent>) -> Seq<EventView> {
    v.map_values(|e: ParsedTokenEvent| event_view(e))
}

/// The preview of an optional message.
pub open spec fn opt_preview(m: Option<Seq<char>>) -> Option<Seq<char>> {
    match m {
        Some(x) => Some(preview_of(x, 120)),
        None => None,
    }
}

/// The key a token count is stored under: the log, the instant, the session,
/// the turn and its position among the log's token counts.
pub open spec fn event_key_spec(
    path: Seq<char>,
    time: UtcInstant,
    sid: Seq<char>,
    tid: Seq<char>,
    index: i64,
) -> Seq<char> {
    path + "|"@ + utc_compact_text(time.secs, time.nanos) + "|"@ + sid + "|"@ + tid + "|"@
        + int_text(index as int)
}

/// The token count a `token_count` event at `time` records, as the `index`th
/// of its log.
pub open spec fn token_event_spec(
    path: Seq<char>,
    c: ContextView,
    index: i64,
    record: JsonValue,
    time: UtcInstant,
) -> EventView {
    let payload = jindex(record, "payload"@);
    let info = jindex(payload, "info"@);
    let rate_limits = jindex(payload, "rate_limits"@);
    let sid = session_id_spec(c, path);
    let tid = match jget_str(payload, "turn_id"@) {
        Some(t) => t,
        None => turn_id_spec(c),
    };
    let last = counts_spec(jindex(info, "last_token_usage"@));
    let primary = rate_window_spec(jindex(rate_limits, "primary"@));
    EventView {
        event_key: event_key_spec(path, time, sid, tid, index),
        event_time: time,
        utc_time: utc_compact_text(time.secs, time.nanos),
        session_id: sid,
        turn_id: tid,
        turn_key: sid + "|"@ + tid,
        token_event_index: index,
        file_path: path,
        project: project_spec(c.cwd),
        cwd: c.cwd,
        originator: c.originator,
        source: c.source,
        cli_version: c.cli_version,
        model_provider: c.model_provider,
        session_started: c.session_started,
        turn_started: c.turn_started,
        user_message: c.user_message,
        user_message_preview: opt_preview(c.user_message),
        model_context_window: match ji64(jget(info, "model_context_window"@)) {
            Some(w) => Some(w),
            None => c.model_context_window,
        },
        last_usage: last,
        session_usage: counts_spec(jindex(info, "total_token_usage"@)),
        rate_limit_plan_type: jget_str(rate_limits, "plan_type"@),
        primary,
        secondary: rate_window_spec(jindex(rate_limits, "secondary"@)),
        status: status_spec(last.total, last.output, last.reasoning_output, primary.used_percent),
    }
}

fn event_key(path: &str, time: UtcInstant, sid: &str, tid: &str, index: i64) -> (r: String)
    ensures
        r@ == event_key_spec(path@, time, sid@, tid@, index),
{
    let utc = format_utc_compact(time);
    let mut v = chars_of(path);
    extend_str(&mut v, "|");
    extend_str(&mut v, utc.as_str());
    extend_str(&mut v, "|");
    extend_str(&mut v, sid);
    extend_str(&mut v, "|");
    extend_str(&mut v, tid);
    extend_str(&mut v, "|");
    let n = i64_text(index);
    extend_chars(&mut v, &n);
    string_from(&v)
}

fn joined_key(a: &str, b: &str) -> (r: String)
    ensures
        r@ == a@ + "|"@ + b@,
{
    let mut v = chars_of(a);
    extend_str(&mut v, "|");
    extend_str(&mut v, b);
    string_from(&v)
}

fn preview_opt(m: &Option<String>) -> (r: Option<String>)
    ensures
        opt_view(r) == opt_preview(opt_view(*m)),
{
    match m {
        Some(x) => Some(preview_text(x.as_str())),
        None => None,
    }
}

fn project_of(cwd: &Option<String>) -> (r: String)
    ensures
        r@ == project_spec(opt_view(*cwd)),
{
    match cwd {
        Some(c) => project_from_cwd(Some(c.as_str())),
        None => project_from_cwd(None),
    }
}

/// The token count recorded by a `token_count` event.
pub fn token_event(
    path: &str,
    context: &SessionContext,
    index: i64,
    record: &JsonValue,
    time: UtcInstant,
) -> (r: ParsedTokenEvent)
    ensures
        event_view(r) == token_event_spec(path@, context_view(*context), index, *record, time),
{
    let payload = record.index("payload");
    let info = payload.index("info");
    let rate_limits = payload.index("rate_limits");
    let session_id = current_session_id(context, path);
    let turn_id = match get_str(payload, "turn_id") {
        Some(t) => t,
        None => crate::session::current_turn_id(context),
    };
    let last_usage = read_counts(info.index("last_token_usage"));
    let primary = read_rate_window(rate_limits.index("primary"));
    let status = classify_status(
        last_usage.total,
        last_usage.output,
        last_usage.reasoning_output,
        &primary.used_percent,
    );
    let model_context_window = match get_i64(info, "model_context_window") {
        Some(w) => Some(w),
        None => context.current_model_context_window,
    };
    ParsedTokenEvent {
        event_key: event_key(path, time, session_id.as_str(), turn_id.as_str(), index),
        event_time: time,
        utc_time: format_utc_compact(time),
        turn_key: joined_key(session_id.as_str(), turn_id.as_str()),
        session_id,
        turn_id,
        token_event_index: index,
        file_path: path.to_string(),
        project: project_of(&context.cwd),
        cwd: copy_opt(&context.cwd),
        originator: copy_opt(&context.originator),
        source: copy_opt(&context.source),
        cli_version: copy_opt(&context.cli_version),
        model_provider: copy_opt(&context.model_provider),
        session_started: context.session_started,
        turn_started: context.current_turn_started,
        user_message: copy_opt(&context.current_user_message),
        user_message_preview: preview_opt(&context.current_user_message),
        model_context_window,
        last_usage,
        session_usage: read_counts(info.index("total_token_usage")),
        rate_limit_plan_type: get_str(rate_limits, "plan_type"),
        primary,
        secondary: read_rate_window(rate_limits.index("secondary")),
        status,
    }
}

// ---------------------------------------------------------------------------
// A whole log
// ---------------------------------------------------------------------------

/// The action found before a token count, stored against the count's key.
pub struct ParsedContextAction {
    pub token_event_key: String,
    pub event_time: UtcInstant,
    pub utc_time: String,
    pub session_id: String,
    pub turn_id: String,
    pub action_type: String,
    pub tool_name: String,
    pub summary: String,
}

pub struct LinkView {
    pub token_event_key: Seq<char>,
    pub event_time: UtcInstant,
    pub utc_time: Seq<char>,
    pub session_id: Seq<char>,
    pub turn_id: Seq<char>,
    pub action_type: Seq<char>,
    pub tool_name: Seq<char>,
    pub summary: Seq<char>,
}

pub open spec fn link_view(l: ParsedContextAction) -> LinkView {
    LinkView {
        token_event_key: l.token_event_key@,
        event_time: l.event_time,
        utc_time: l.utc_time@,
        session_id: l.session_id@,
        turn_id: l.turn_id@,
        action_type: l.action_type@,
        tool_name: l.tool_name@,
        summary: l.summary@,
    }
}

pub open spec fn links_view(v: Seq<ParsedContextAction>) -> Seq<LinkView> {
    v.map_values(|l: ParsedContextAction| link_view(l))
}

/// An action stored against the key of the token count it precedes.
pub open spec fn link_of(key: Seq<char>, a: ActionView) -> LinkView {
    LinkView {
        token_event_key: key,
        event_time: a.time,
        utc_time: utc_compact_text(a.time.secs, a.time.nanos),
        session_id: a.session_id,
        turn_id: a.turn_id,
        action_type: a.action_type,
        tool_name: a.tool_name,
        summary: a.summary,
    }
}

/// Where the reading of a log stands after some of its lines.
pub struct ParseView {
    pub ctx: ContextView,
    pub index: int,
    pub events: Seq<EventView>,
    pub links: Seq<LinkView>,
    pub recent: Seq<ActionView>,
    pub tools: Seq<(Seq<char>, Seq<char>, Seq<char>)>,
    pub errors: int,
}

pub open spec fn initial_parse() -> ParseView {
    ParseView {
        ctx: empty_context(),
        index: 0,
        events: Seq::empty(),
        links: Seq::empty(),
        recent: Seq::empty(),
        tools: Seq::empty(),
        errors: 0,
    }
}

/// A `token_count` event: counted, and recorded where its timestamp reads.
pub open spec fn token_count_step(path: Seq<char>, st: ParseView, record: JsonValue) -> ParseView {
    let index = st.index + 1;
    match timestamp_member(record, "timestamp"@) {
        Some(time) => {
            let ev = token_event_spec(path, st.ctx, index as i64, record, time);
            let links = match find_preceding(st.recent, ev.session_id, ev.turn_id, time) {
                Some(a) => st.links.push(link_of(ev.event_key, a)),
                None => st.links,
            };
            ParseView { index, events: st.events.push(ev), links, ..st }
        },
        None => ParseView { index, ..st },
    }
}

/// The end of a patch, MCP tool call or web search.
pub open spec fn is_action_end(kind: Option<Seq<char>>) -> bool {
    kind == Some("patch_apply_end"@) || kind == Some("mcp_tool_call_end"@) || kind == Some(
        "web_search_end"@,
    )
}

/// An `event_msg` record.
pub open spec fn event_msg_step(path: Seq<char>, st: ParseView, record: JsonValue) -> ParseView {
    let payload = jindex(record, "payload"@);
    let kind = jget_str(payload, "type"@);
    if kind == Some("task_started"@) {
        ParseView { ctx: after_task_started(st.ctx, payload), ..st }
    } else if kind == Some("user_message"@) {
        ParseView { ctx: after_user_message(st.ctx, payload), ..st }
    } else if kind == Some("token_count"@) {
        token_count_step(path, st, record)
    } else if is_action_end(kind) {
        match event_msg_action(record, st.ctx, path) {
            Some(a) => ParseView { recent: pruned(st.recent.push(a)), ..st },
            None => st,
        }
    } else {
        st
    }
}

/// A parsed record of a log.
pub open spec fn record_step(path: Seq<char>, st: ParseView, record: JsonValue) -> ParseView {
    let kind = jget_str(record, "type"@);
    if kind == Some("session_meta"@) {
        ParseView { ctx: after_session_meta(st.ctx, jindex(record, "payload"@)), ..st }
    } else if kind == Some("turn_context"@) {
        ParseView { ctx: after_turn_context(st.ctx, jindex(record, "payload"@)), ..st }
    } else if kind == Some("event_msg"@) {
        event_msg_step(path, st, record)
    } else if kind == Some("response_item"@) {
        let (a, tools) = response_item_action(record, st.ctx, path, st.tools);
        match a {
            Some(x) => ParseView { recent: pruned(st.recent.push(x)), tools, ..st },
            None => ParseView { tools, ..st },
        }
    } else {
        st
    }
}

/// Whether a line can hold one of the records read: it names one of their
/// types in quotes.
pub open spec fn is_record_line(line: Seq<char>) -> bool {
    ||| contains_seq(line, "\"session_meta\""@)
    ||| contains_seq(line, "\"turn_context\""@)
    ||| contains_seq(line, "\"event_msg\""@)
    ||| contains_seq(line, "\"response_item\""@)
}

/// One line of a log: skipped unless it can hold a record; counted as an
/// error where it is not JSON.
pub open spec fn line_step(path: Seq<char>, st: ParseView, line: Seq<char>) -> ParseView {
    if !is_record_line(line) {
        st
    } else {
        match json_parse(line) {
            Some(record) => record_step(path, st, record),
            None => ParseView { errors: st.errors + 1, ..st },
        }
    }
}

/// The reading of a log after the given lines.
pub open spec fn parse_lines(path: Seq<char>, lines: Seq<Seq<char>>) -> ParseView
    decreases lines.len(),
{
    if lines.len() == 0 {
        initial_parse()
    } else {
        line_step(path, parse_lines(path, lines.drop_last()), lines.last())
    }
}

pub open spec fn lines_view(v: Seq<String>) -> Seq<Seq<char>> {
    v.map_values(|s: String| s@)
}

/// The state of the reader of a log.
pub struct ParserState {
    pub context: SessionContext,
    pub token_event_index: i64,
    pub events: Vec<ParsedTokenEvent>,
    pub context_actions: Vec<ParsedContextAction>,
    pub recent_actions: Vec<ContextActionCandidate>,
    pub tool_calls: Vec<ToolCallContext>,
    pub parse_errors: i64,
}

pub open spec fn state_view(s: ParserState) -> ParseView {
    ParseView {
        ctx: context_view(s.context),
        index: s.token_event_index as int,
        events: events_view(s.events@),
        links: links_view(s.context_actions@),
        recent: actions_view(s.recent_actions@),
        tools: tools_view(s.tool_calls@),
        errors: s.parse_errors as int,
    }
}

fn link_from(key: &String, a: ContextActionCandidate) -> (r: ParsedContextAction)
    ensures
        link_view(r) == link_of(key@, action_view(a)),
{
    ParsedContextAction {
        token_event_key: copy_string(key),
        event_time: a.event_time,
        utc_time: format_utc_compact(a.event_time),
        session_id: a.session_id,
        turn_id: a.turn_id,
        action_type: a.action_type,
        tool_name: a.tool_name,
        summary: a.summary,
    }
}

fn push_recent(state: &mut ParserState, a: ContextActionCandidate)
    ensures
        state_view(*final(state)) == (ParseView {
            recent: pruned(state_view(*old(state)).recent.push(action_view(a))),
            ..state_view(*old(state))
        }),
        final(state).token_event_index == old(state).token_event_index,
        final(state).parse_errors == old(state).parse_errors,
{
    let ghost before = state.recent_actions@;
    state.recent_actions.push(a);
    assert(actions_view(state.recent_actions@) == actions_view(before).push(action_view(a)));
    prune_recent_actions(&mut state.recent_actions);
}

fn token_count(state: &mut ParserState, path: &str, record: &JsonValue)
    requires
        old(state).token_event_index < i64::MAX,
    ensures
        state_view(*final(state)) == token_count_step(path@, state_view(*old(state)), *record),
        final(state).token_event_index == old(state).token_event_index + 1,
        final(state).parse_errors == old(state).parse_errors,
{
    state.token_event_index = state.token_event_index + 1;
    let time = match read_timestamp(record, "timestamp") {
        Some(t) => t,
        None => return ,
    };
    let ev = token_event(path, &state.context, state.token_event_index, record, time);
    let found = select_preceding_action(
        &state.recent_actions,
        ev.session_id.as_str(),
        ev.turn_id.as_str(),
        time,
    );
    if let Some(a) = found {
        let ghost before = state.context_actions@;
        let link = link_from(&ev.event_key, a);
        state.context_actions.push(link);
        assert(links_view(state.context_actions@) == links_view(before).push(link_view(link)));
    }
    let ghost before_events = state.events@;
    let ghost ev_view = event_view(ev);
    state.events.push(ev);
    assert(events_view(state.events@) == events_view(before_events).push(ev_view));
}

fn event_msg(state: &mut ParserState, path: &str, record: &JsonValue)
    requires
        old(state).token_event_index < i64::MAX,
    ensures
        state_view(*final(state)) == event_msg_step(path@, state_view(*old(state)), *record),
        final(state).token_event_index <= old(state).token_event_index + 1,
        final(state).parse_errors == old(state).parse_errors,
{
    let payload = record.index("payload");
    let kind = get_str(payload, "type");
    let ghost kind_view = opt_view(kind);
    assert(kind_view == jget_str(jindex(*record, "payload"@), "type"@));
    let k = match &kind {
        Some(k) => k.as_str(),
        None => "",
    };
    let known = kind.is_some();
    if known && str_eq(k, "task_started") {
        apply_task_started(&mut state.context, payload);
    } else if known && str_eq(k, "user_message") {
        apply_user_message(&mut state.context, payload);
    } else if known && str_eq(k, "token_count") {
        token_count(state, path, record);
    } else if known && (str_eq(k, "patch_apply_end") || str_eq(k, "mcp_tool_call_end") || str_eq(
        k,
        "web_search_end",
    )) {
        if let Some(a) = context_action_from_event_msg(record, &state.context, path) {
            push_recent(state, a);
        }
    }
}

fn response_item(state: &mut ParserState, path: &str, record: &JsonValue)
    ensures
        state_view(*final(state)) == (match response_item_action(
            *record,
            state_view(*old(state)).ctx,
            path@,
            state_view(*old(state)).tools,
        ) {
            (Some(x), tools) => ParseView {
                recent: pruned(state_view(*old(state)).recent.push(x)),
                tools,
                ..state_view(*old(state))
            },
            (None, tools) => ParseView { tools, ..state_view(*old(state)) },
        }),
        final(state).token_event_index == old(state).token_event_index,
        final(state).parse_errors == old(state).parse_errors,
{
    let found = context_action_from_response_item(
        record,
        &state.context,
        path,
        &mut state.tool_calls,
    );
    if let Some(a) = found {
        push_recent(state, a);
    }
}

fn record(state: &mut ParserState, path: &str, record: &JsonValue)
    requires
        old(state).token_event_index < i64::MAX,
    ensures
        state_view(*final(state)) == record_step(path@, state_view(*old(state)), *record),
        final(state).token_event_index <= old(state).token_event_index + 1,
        final(state).parse_errors == old(state).parse_errors,
{
    let kind = get_str(record, "type");
    let k = match &kind {
        Some(k) => k.as_str(),
        None => "",
    };
    let known = kind.is_some();
    if known && str_eq(k, "session_meta") {
        apply_session_meta(&mut state.context, record.index("payload"));
    } else if known && str_eq(k, "turn_context") {
        apply_turn_context(&mut state.context, record.index("payload"));
    } else if known && str_eq(k, "event_msg") {
        event_msg(state, path, record);
    } else if known && str_eq(k, "response_item") {
        response_item(state, path, record);
    }
}

fn is_record_line_exec(line: &str) -> (r: bool)
    ensures
        r == is_record_line(line@),
{
    let cs = chars_of(line);
    let a = chars_of("\"session_meta\"");
    let b = chars_of("\"turn_context\"");
    let c = chars_of("\"event_msg\"");
    let d = chars_of("\"response_item\"");
    contains(&cs, &a) || contains(&cs, &b) || contains(&cs, &c) || contains(&cs, &d)
}

/// Reads one line of a log.
pub fn parse_line(state: &mut ParserState, path: &str, line: &str)
    requires
        old(state).token_event_index < i64::MAX,
        old(state).parse_errors < i64::MAX,
    ensures
        state_view(*final(state)) == line_step(path@, state_view(*old(state)), line@),
        final(state).token_event_index <= old(state).token_event_index + 1,
        final(state).parse_errors <= old(state).parse_errors + 1,
{
    if !is_record_line_exec(line) {
        return ;
    }
    match parse_json(line) {
        Some(r) => record(state, path, &r),
        None => {
            state.parse_errors = state.parse_errors + 1;
        },
    }
}

/// What reading a log gives: its token counts, the actions found before
/// them, and how many of its record lines were not JSON.
pub struct ParsedFile {
    pub events: Vec<ParsedTokenEvent>,
    pub context_actions: Vec<ParsedContextAction>,
    pub parse_errors: i64,
}

/// Reads the lines of the log at `path`.
pub fn parse_codex_jsonl(path: &str, lines: &Vec<String>) -> (r: ParsedFile)
    requires
        lines.len() < i64::MAX,
    ensures
        events_view(r.events@) == parse_lines(path@, lines_view(lines@)).events,
        links_view(r.context_actions@) == parse_lines(path@, lines_view(lines@)).links,
        r.parse_errors as int == parse_lines(path@, lines_view(lines@)).errors,
{
    let mut state = ParserState {
        context: new_session_context(),
        token_event_index: 0,
        events: Vec::new(),
        context_actions: Vec::new(),
        recent_actions: Vec::new(),
        tool_calls: Vec::new(),
        parse_errors: 0,
    };
    assert(events_view(state.events@) == Seq::<EventView>::empty());
    assert(links_view(state.context_actions@) == Seq::<LinkView>::empty());
    assert(actions_view(state.recent_actions@) == Seq::<ActionView>::empty());
    assert(tools_view(state.tool_calls@) == Seq::<(Seq<char>, Seq<char>, Seq<char>)>::empty());
    assert(state_view(state) == initial_parse());
    let mut i: usize = 0;
    while i < lines.len()
        invariant
            i <= lines.len() < i64::MAX,
            state.token_event_index <= i,
            state.parse_errors <= i,
            state_view(state) == parse_lines(path@, lines_view(lines@).take(i as int)),
        decreases lines.len() - i,
    {
        proof {
            let w = lines_view(lines@).take(i + 1);
            assert(w.drop_last() == lines_view(lines@).take(i as int));
            assert(w.last() == lines@[i as int]@);
        }
        parse_line(&mut state, path, lines[i].as_str());
        i = i + 1;
    }
    assert(lines_view(lines@).take(lines.len() as int) == lines_view(lines@));
    ParsedFile {
        events: state.events,
        context_actions: state.context_actions,
        parse_errors: state.parse_errors,
    }
}

/// What holds of the reading of a log after `n` lines.
pub open spec fn parse_invariant(path: Seq<char>, st: ParseView, n: int) -> bool {
    &&& tool_ids_unique(st.tools)
    &&& 0 <= st.errors <= n
    &&& 0 <= st.index <= n
    &&& st.links.len() <= st.events.len()
    &&& forall|i: int|
        0 <= i < st.events.len() ==> 1 <= #[trigger] st.events[i].token_event_index <= st.index
            && st.events[i].file_path == path && st.events[i].event_key == event_key_spec(
            path,
            st.events[i].event_time,
            st.events[i].session_id,
            st.events[i].turn_id,
            st.events[i].token_event_index,
        )
    &&& forall|i: int, j: int|
        0 <= i < j < st.events.len() ==> #[trigger] st.events[i].token_event_index
            < #[trigger] st.events[j].token_event_index
}

proof fn lemma_line_step_invariant(path: Seq<char>, st: ParseView, line: Seq<char>, n: int)
    requires
        parse_invariant(path, st, n),
        n + 1 < i64::MAX,
    ensures
        parse_invariant(path, line_step(path, st, line), n + 1),
{
    let next = line_step(path, st, line);
    if is_record_line(line) {
        if let Some(record) = json_parse(line) {
            lemma_response_item_tools_unique(record, st.ctx, path, st.tools);
            let kind = jget_str(record, "type"@);
            let payload = jindex(record, "payload"@);
            if kind == Some("event_msg"@) && jget_str(payload, "type"@) == Some("token_count"@) {
                reveal_strlit("session_meta");
                reveal_strlit("turn_context");
                reveal_strlit("event_msg");
                reveal_strlit("task_started");
                reveal_strlit("user_message");
                reveal_strlit("token_count");
                assert(next == token_count_step(path, st, record));
                if let Some(time) = timestamp_member(record, "timestamp"@) {
                    let index = st.index + 1;
                    let ev = token_event_spec(path, st.ctx, index as i64, record, time);
                    assert(next.events == st.events.push(ev));
                    assert(ev.token_event_index == index);
                    assert forall|i: int, j: int|
                        0 <= i < j < next.events.len() implies #[trigger] next.events[i].token_event_index
                        < #[trigger] next.events[j].token_event_index by {
                        if j == st.events.len() {
                            assert(next.events[i] == st.events[i]);
                        } else {
                            assert(next.events[i] == st.events[i]);
                            assert(next.events[j] == st.events[j]);
                        }
                    }
                    assert forall|i: int| 0 <= i < next.events.len() implies 1
                        <= #[trigger] next.events[i].token_event_index <= next.index
                        && next.events[i].file_path == path && next.events[i].event_key
                        == event_key_spec(
                        path,
                        next.events[i].event_time,
                        next.events[i].session_id,
                        next.events[i].turn_id,
                        next.events[i].token_event_index,
                    ) by {
                        if i < st.events.len() {
                            assert(next.events[i] == st.events[i]);
                        }
                    }
                }
            }
        }
    }
}

/// Reading a log keeps its token counts in the order they came, numbered
/// from 1 by their place among the log's `token_count` events (so strictly
/// increasing), each with the log's path and its key; each tool call id is
/// remembered once; no more actions are linked than there are counts, and
/// no more errors are counted than there are lines.
pub proof fn lemma_parse_keeps_counts_in_order(path: Seq<char>, lines: Seq<Seq<char>>)
    requires
        lines.len() < i64::MAX,
    ensures
        parse_invariant(path, parse_lines(path, lines), lines.len() as int),
    decreases lines.len(),
{
    if lines.len() > 0 {
        lemma_parse_keeps_counts_in_order(path, lines.drop_last());
        lemma_line_step_invariant(
            path,
            parse_lines(path, lines.drop_last()),
            lines.last(),
            lines.len() - 1,
        );
    }
}

/// Every token count read from a log has a key of its own: no two counts of
/// one log are stored under the same key, so a ledger that keeps one row per
/// key keeps every count of the log.
pub proof fn lemma_parse_keys_distinct(path: Seq<char>, lines: Seq<Seq<char>>)
    requires
        lines.len() < i64::MAX,
    ensures
        forall|i: int, j: int|
            0 <= i < j < parse_lines(path, lines).events.len() ==> #[trigger] parse_lines(
                path,
                lines,
            ).events[i].event_key != #[trigger] parse_lines(path, lines).events[j].event_key,
{
    let st = parse_lines(path, lines);
    lemma_parse_keeps_counts_in_order(path, lines);
    assert forall|i: int, j: int|
        0 <= i < j < st.events.len() implies #[trigger] st.events[i].event_key
        != #[trigger] st.events[j].event_key by {
        let a = st.events[i];
        let b = st.events[j];
        assert(1 <= a.token_event_index < b.token_event_index);
        if a.event_key == b.event_key {
            let ta = int_text(a.token_event_index as int);
            let tb = int_text(b.token_event_index as int);
            let xa = path + "|"@ + utc_compact_text(a.event_time.secs, a.event_time.nanos) + "|"@
                + a.session_id + "|"@ + a.turn_id;
            let xb = path + "|"@ + utc_compact_text(b.event_time.secs, b.event_time.nanos) + "|"@
                + b.session_id + "|"@ + b.turn_id;
            reveal_strlit("|");
            assert(a.event_key == xa + seq!['|'] + ta);
            assert(b.event_key == xb + seq!['|'] + tb);
            lemma_nat_text_shape(a.token_event_index as nat);
            lemma_nat_text_shape(b.token_event_index as nat);
            lemma_same_last_part(xa, ta, xb, tb);
            lemma_nat_text_injective(a.token_event_index as nat, b.token_event_index as nat);
        }
    }
}

} // verus!
