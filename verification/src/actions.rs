//! The tool calls, searches and patches a session log records, and which of
//! them comes just before a token count.
use vstd::prelude::*;
use crate::json::{
    copy_string, get_str, jget, jget_str, jindex, json_parse, json_text, json_to_string,
    parse_json, JsonValue,
};
use crate::session::{
    context_view, current_session_id, current_turn_id, or_opt, session_id_spec, turn_id_spec,
    ContextView, SessionContext,
};
use crate::status::opt_view;
use crate::text::{
    chars_of, collapse_whitespace, collapse_ws, concat_str, contains, contains_seq, extend_str,
    is_prefix, nat_text, preview_chars, preview_of, starts_with, str_eq, string_from,
    to_lowercase, unicode_lower, usize_string,
};
use crate::time::{
    codex_time, instant_le, instant_le_exec, parse_codex_time, within_seconds,
    within_seconds_exec, UtcInstant,
};

verus! {

/// How far back a tool call may lie and still explain a token count.
pub const PRECEDING_ACTION_WINDOW_SECONDS: i64 = 60;

/// How many recent actions are kept while a log is read.
pub const MAX_RECENT_ACTIONS: usize = 80;

/// Something the assistant did in a turn: a tool call, its output, a search,
/// a patch.
pub struct ContextActionCandidate {
    pub event_time: UtcInstant,
    pub session_id: String,
    pub turn_id: String,
    pub action_type: String,
    pub tool_name: String,
    pub summary: String,
}

pub struct ActionView {
    pub time: UtcInstant,
    pub session_id: Seq<char>,
    pub turn_id: Seq<char>,
    pub action_type: Seq<char>,
    pub tool_name: Seq<char>,
    pub summary: Seq<char>,
}

pub open spec fn action_view(a: ContextActionCandidate) -> ActionView {
    ActionView {
        time: a.event_time,
        session_id: a.session_id@,
        turn_id: a.turn_id@,
        action_type: a.action_type@,
        tool_name: a.tool_name@,
        summary: a.summary@,
    }
}

pub open spec fn actions_view(v: Seq<ContextActionCandidate>) -> Seq<ActionView> {
    v.map_values(|a: ContextActionCandidate| action_view(a))
}

pub open spec fn opt_action_view(a: Option<ContextActionCandidate>) -> Option<ActionView> {
    match a {
        Some(x) => Some(action_view(x)),
        None => None,
    }
}

pub fn copy_candidate(a: &ContextActionCandidate) -> (r: ContextActionCandidate)
    ensures
        action_view(r) == action_view(*a),
{
    ContextActionCandidate {
        event_time: a.event_time,
        session_id: copy_string(&a.session_id),
        turn_id: copy_string(&a.turn_id),
        action_type: copy_string(&a.action_type),
        tool_name: copy_string(&a.tool_name),
        summary: copy_string(&a.summary),
    }
}

/// A tool call remembered by its call id, to name the tool when its output
/// arrives. The calls of a log are kept with each call id once
/// (`tool_ids_unique`), a later call replacing an earlier one of the same id.
pub struct ToolCallContext {
    pub call_id: String,
    pub tool_name: String,
    pub summary: String,
}

pub open spec fn tool_view(t: ToolCallContext) -> (Seq<char>, Seq<char>, Seq<char>) {
    (t.call_id@, t.tool_name@, t.summary@)
}

pub open spec fn tools_view(v: Seq<ToolCallContext>) -> Seq<(Seq<char>, Seq<char>, Seq<char>)> {
    v.map_values(|t: ToolCallContext| tool_view(t))
}

/// The tool name and summary last recorded under a call id.
pub open spec fn find_tool(tools: Seq<(Seq<char>, Seq<char>, Seq<char>)>, id: Seq<char>) -> Option<
    (Seq<char>, Seq<char>),
>
    decreases tools.len(),
{
    if tools.len() == 0 {
        None
    } else if tools.last().0 == id {
        Some((tools.last().1, tools.last().2))
    } else {
        find_tool(tools.drop_last(), id)
    }
}

/// No call id occurs twice.
pub open spec fn tool_ids_unique(tools: Seq<(Seq<char>, Seq<char>, Seq<char>)>) -> bool {
    forall|i: int, j: int| 0 <= i < j < tools.len() ==> #[trigger] tools[i].0 != #[trigger] tools[j].0
}

/// The place of the last call recorded under `id`.
pub open spec fn tool_index(tools: Seq<(Seq<char>, Seq<char>, Seq<char>)>, id: Seq<char>) -> Option<
    int,
>
    decreases tools.len(),
{
    if tools.len() == 0 {
        None
    } else if tools.last().0 == id {
        Some(tools.len() - 1)
    } else {
        tool_index(tools.drop_last(), id)
    }
}

/// The calls with `id` set to a tool and summary, as `HashMap::insert` does:
/// the call under `id` replaced where there is one, else a new one at the end.
pub open spec fn tools_set(
    tools: Seq<(Seq<char>, Seq<char>, Seq<char>)>,
    id: Seq<char>,
    name: Seq<char>,
    summary: Seq<char>,
) -> Seq<(Seq<char>, Seq<char>, Seq<char>)> {
    match tool_index(tools, id) {
        Some(j) => tools.update(j, (id, name, summary)),
        None => tools.push((id, name, summary)),
    }
}

proof fn lemma_tool_index(tools: Seq<(Seq<char>, Seq<char>, Seq<char>)>, id: Seq<char>)
    ensures
        match tool_index(tools, id) {
            Some(j) => 0 <= j < tools.len() && tools[j].0 == id && forall|i: int|
                j < i < tools.len() ==> #[trigger] tools[i].0 != id,
            None => forall|i: int| 0 <= i < tools.len() ==> #[trigger] tools[i].0 != id,
        },
    decreases tools.len(),
{
    if tools.len() > 0 {
        lemma_tool_index(tools.drop_last(), id);
        assert forall|i: int| 0 <= i < tools.len() - 1 implies #[trigger] tools[i]
            == tools.drop_last()[i] by {}
    }
}

/// Finding a call past entries that do not carry its id.
proof fn lemma_find_tool_skip(tools: Seq<(Seq<char>, Seq<char>, Seq<char>)>, id: Seq<char>, j: int)
    requires
        0 <= j < tools.len(),
        tools[j].0 == id,
        forall|i: int| j < i < tools.len() ==> #[trigger] tools[i].0 != id,
    ensures
        find_tool(tools, id) == Some((tools[j].1, tools[j].2)),
    decreases tools.len(),
{
    if j < tools.len() - 1 {
        assert(tools.drop_last()[j] == tools[j]);
        assert forall|i: int| j < i < tools.drop_last().len() implies #[trigger] tools.drop_last()[i].0
            != id by {
            assert(tools.drop_last()[i] == tools[i]);
        }
        lemma_find_tool_skip(tools.drop_last(), id, j);
    }
}

/// Recording a call keeps each id once, and its id then finds it.
pub proof fn lemma_tools_set(
    tools: Seq<(Seq<char>, Seq<char>, Seq<char>)>,
    id: Seq<char>,
    name: Seq<char>,
    summary: Seq<char>,
)
    requires
        tool_ids_unique(tools),
    ensures
        tool_ids_unique(tools_set(tools, id, name, summary)),
        find_tool(tools_set(tools, id, name, summary), id) == Some((name, summary)),
{
    let r = tools_set(tools, id, name, summary);
    lemma_tool_index(tools, id);
    match tool_index(tools, id) {
        Some(j) => {
            assert forall|a: int, b: int| 0 <= a < b < r.len() implies #[trigger] r[a].0
                != #[trigger] r[b].0 by {
                if a != j && b != j {
                    assert(tools[a].0 != tools[b].0);
                }
                if a == j {
                    assert(tools[j].0 != tools[b].0);
                }
                if b == j {
                    assert(tools[a].0 != tools[j].0);
                }
            }
            assert forall|i: int| j < i < r.len() implies #[trigger] r[i].0 != id by {
                assert(r[i] == tools[i]);
            }
            lemma_find_tool_skip(r, id, j);
        },
        None => {
            assert forall|a: int, b: int| 0 <= a < b < r.len() implies #[trigger] r[a].0
                != #[trigger] r[b].0 by {
                if b == tools.len() {
                    assert(r[a] == tools[a]);
                } else {
                    assert(r[a] == tools[a]);
                    assert(r[b] == tools[b]);
                }
            }
            lemma_find_tool_skip(r, id, tools.len() as int);
        },
    }
}

/// Records a call under its id.
fn set_tool(tools: &mut Vec<ToolCallContext>, t: ToolCallContext)
    ensures
        tools_view(final(tools)@) == tools_set(
            tools_view(old(tools)@),
            t.call_id@,
            t.tool_name@,
            t.summary@,
        ),
{
    let ghost w = tools_view(tools@);
    let ghost tv = tool_view(t);
    let mut i: usize = tools.len();
    assert(w.take(tools.len() as int) == w);
    while i > 0
        invariant
            i <= tools.len(),
            w == tools_view(tools@),
            w == tools_view(old(tools)@),
            tv == tool_view(t),
            tool_index(w, tv.0) == tool_index(w.take(i as int), tv.0),
        decreases i,
    {
        proof {
            let u = w.take(i as int);
            assert(u.drop_last() == w.take(i - 1));
            assert(u.last() == tool_view(tools@[i - 1]));
        }
        if str_eq(tools[i - 1].call_id.as_str(), t.call_id.as_str()) {
            assert(w.take(i as int).last().0 == tv.0);
            assert(tool_index(w, tv.0) == Some((i - 1) as int));
            tools.set(i - 1, t);
            assert(tools_view(tools@) == w.update(i - 1, tv));
            return;
        }
        i = i - 1;
    }
    tools.push(t);
    assert(tools_view(tools@) == w.push(tv));
}

fn lookup_tool(tools: &Vec<ToolCallContext>, id: &str) -> (r: Option<(String, String)>)
    ensures
        match r {
            Some((n, s)) => find_tool(tools_view(tools@), id@) == Some((n@, s@)),
            None => find_tool(tools_view(tools@), id@) is None,
        },
{
    let mut k: usize = tools.len();
    assert(tools_view(tools@).take(tools.len() as int) == tools_view(tools@));
    while k > 0
        invariant
            k <= tools.len(),
            find_tool(tools_view(tools@), id@) == find_tool(tools_view(tools@).take(k as int), id@),
        decreases k,
    {
        let t = &tools[k - 1];
        let ghost w = tools_view(tools@).take(k as int);
        assert(w.last() == tool_view(tools@[k - 1]));
        assert(w.drop_last() == tools_view(tools@).take(k - 1));
        if str_eq(t.call_id.as_str(), id) {
            return Some((copy_string(&t.tool_name), copy_string(&t.summary)));
        }
        k = k - 1;
    }
    None
}

// ---------------------------------------------------------------------------
// Summaries
// ---------------------------------------------------------------------------

/// `preview_inline(value, limit)`: whitespace collapsed, cut to `limit`
/// characters with an ellipsis.
pub fn preview_inline(value: &str, limit: usize) -> (r: String)
    ensures
        r@ == preview_of(value@, limit as nat),
{
    let cs = chars_of(value);
    let p = preview_chars(&cs, limit);
    string_from(&p)
}

/// The preview of a user message: 120 characters at most.
pub fn preview_text(value: &str) -> (r: String)
    ensures
        r@ == preview_of(value@, 120),
{
    preview_inline(value, 120)
}

/// A JSON value as summary text: a string as it is, anything else as JSON.
pub open spec fn summary_text(v: JsonValue) -> Seq<char> {
    match v {
        JsonValue::Str(s) => s@,
        _ => json_text(v),
    }
}

pub fn value_to_summary_text(value: &JsonValue) -> (r: String)
    ensures
        r@ == summary_text(*value),
{
    match value {
        JsonValue::Str(s) => copy_string(s),
        _ => json_to_string(value),
    }
}

/// What a shell command is doing, by its lower-cased text.
pub open spec fn shell_summary(command: Seq<char>) -> Seq<char> {
    let preview = preview_of(command, 120);
    let lower = unicode_lower(command);
    if contains_seq(lower, "get-content"@) || is_prefix("type "@, lower) {
        "读取文件 "@ + preview
    } else if is_prefix("rg "@, lower) || contains_seq(lower, " rg "@) {
        "搜索代码 "@ + preview
    } else {
        "运行命令 "@ + preview
    }
}

pub fn summarize_shell_command(command: &str) -> (r: String)
    ensures
        r@ == shell_summary(command@),
{
    let preview = preview_inline(command, 120);
    let lower = to_lowercase(command);
    let lc = chars_of(lower.as_str());
    let get_content = chars_of("get-content");
    let type_ = chars_of("type ");
    let rg = chars_of("rg ");
    let rg_mid = chars_of(" rg ");
    if contains(&lc, &get_content) || starts_with(&lc, &type_) {
        concat_str("读取文件 ", preview.as_str())
    } else if starts_with(&lc, &rg) || contains(&lc, &rg_mid) {
        concat_str("搜索代码 ", preview.as_str())
    } else {
        concat_str("运行命令 ", preview.as_str())
    }
}

/// The trimmed, non-empty string member `key` of a JSON text, where it parses.
pub open spec fn json_string_member(text: Seq<char>, key: Seq<char>) -> Option<Seq<char>> {
    match json_parse(text) {
        Some(j) => jget_str(j, key),
        None => None,
    }
}

pub fn extract_json_string(value: &str, key: &str) -> (r: Option<String>)
    ensures
        opt_view(r) == json_string_member(value@, key@),
{
    match parse_json(value) {
        Some(j) => get_str(&j, key),
        None => None,
    }
}

/// The summary of a tool call with the given name and input.
pub open spec fn tool_call_summary(tool: Seq<char>, input: Seq<char>) -> Seq<char> {
    let normalized = collapse_ws(input);
    if tool == "shell_command"@ {
        let command = match json_string_member(normalized, "command"@) {
            Some(c) => c,
            None => normalized,
        };
        shell_summary(command)
    } else if tool == "apply_patch"@ {
        "应用补丁"@
    } else if normalized.len() == 0 {
        "调用 "@ + tool
    } else {
        "调用 "@ + tool + " "@ + preview_of(normalized, 120)
    }
}

pub fn summarize_tool_call(tool_name: &str, input: &str) -> (r: String)
    ensures
        r@ == tool_call_summary(tool_name@, input@),
{
    let cs = chars_of(input);
    let normalized = collapse_whitespace(&cs);
    let ns = string_from(&normalized);
    if str_eq(tool_name, "shell_command") {
        let command = match extract_json_string(ns.as_str(), "command") {
            Some(c) => c,
            None => ns,
        };
        return summarize_shell_command(command.as_str());
    }
    if str_eq(tool_name, "apply_patch") {
        return "应用补丁".to_string();
    }
    if normalized.len() == 0 {
        concat_str("调用 ", tool_name)
    } else {
        let preview = preview_inline(ns.as_str(), 120);
        let mut v = chars_of("调用 ");
        extend_str(&mut v, tool_name);
        extend_str(&mut v, " ");
        extend_str(&mut v, preview.as_str());
        string_from(&v)
    }
}

// ---------------------------------------------------------------------------
// Actions from records
// ---------------------------------------------------------------------------

/// A `function_call` or `custom_tool_call` item: the call, remembered under
/// its call id.
pub open spec fn call_item_action(
    payload: JsonValue,
    time: UtcInstant,
    sid: Seq<char>,
    tid: Seq<char>,
    tools: Seq<(Seq<char>, Seq<char>, Seq<char>)>,
) -> (Option<ActionView>, Seq<(Seq<char>, Seq<char>, Seq<char>)>) {
    let tool = match jget_str(payload, "name"@) {
        Some(n) => n,
        None => "tool"@,
    };
    let input = match jget(payload, "arguments"@) {
        Some(v) => summary_text(v),
        None => match jget(payload, "input"@) {
            Some(v) => summary_text(v),
            None => Seq::empty(),
        },
    };
    let summary = tool_call_summary(tool, input);
    let tools2 = match jget_str(payload, "call_id"@) {
        Some(id) => tools_set(tools, id, tool, summary),
        None => tools,
    };
    (
        Some(
            ActionView {
                time,
                session_id: sid,
                turn_id: tid,
                action_type: "工具调用"@,
                tool_name: tool,
                summary,
            },
        ),
        tools2,
    )
}

/// A tool call's output: named by the call it answers, with its length.
pub open spec fn output_item_action(
    payload: JsonValue,
    time: UtcInstant,
    sid: Seq<char>,
    tid: Seq<char>,
    tools: Seq<(Seq<char>, Seq<char>, Seq<char>)>,
) -> ActionView {
    let call = match jget_str(payload, "call_id"@) {
        Some(id) => find_tool(tools, id),
        None => None,
    };
    let n: nat = match jget(payload, "output"@) {
        Some(v) => summary_text(v).len(),
        None => 0,
    };
    let tool = match call {
        Some(t) => t.0,
        None => "tool"@,
    };
    let summary = match call {
        Some(t) => if n > 0 {
            t.1 + "，输出约 "@ + nat_text(n) + " 字"@
        } else {
            t.1
        },
        None => if n > 0 {
            "工具输出"@ + "，输出约 "@ + nat_text(n) + " 字"@
        } else {
            "工具输出"@
        },
    };
    ActionView {
        time,
        session_id: sid,
        turn_id: tid,
        action_type: "工具输出"@,
        tool_name: tool,
        summary,
    }
}

/// A web search: its query, else `网页搜索`.
pub open spec fn search_item_action(
    payload: JsonValue,
    time: UtcInstant,
    sid: Seq<char>,
    tid: Seq<char>,
) -> ActionView {
    let query = match or_opt(
        match jget(payload, "action"@) {
            Some(a) => jget_str(a, "query"@),
            None => None,
        },
        jget_str(payload, "query"@),
    ) {
        Some(q) => q,
        None => "网页搜索"@,
    };
    ActionView {
        time,
        session_id: sid,
        turn_id: tid,
        action_type: "网页搜索"@,
        tool_name: "web_search"@,
        summary: "网页搜索 "@ + preview_of(query, 120),
    }
}

/// The action a `response_item` record describes, and the remembered tool
/// calls after it.
pub open spec fn response_item_action(
    record: JsonValue,
    c: ContextView,
    path: Seq<char>,
    tools: Seq<(Seq<char>, Seq<char>, Seq<char>)>,
) -> (Option<ActionView>, Seq<(Seq<char>, Seq<char>, Seq<char>)>) {
    let payload = jindex(record, "payload"@);
    match (jget_str(payload, "type"@), jget_str(record, "timestamp"@)) {
        (Some(item_type), Some(ts)) => match codex_time(ts) {
            Some(time) => {
                let sid = session_id_spec(c, path);
                let tid = turn_id_spec(c);
                if item_type == "function_call"@ || item_type == "custom_tool_call"@ {
                    call_item_action(payload, time, sid, tid, tools)
                } else if item_type == "function_call_output"@ || item_type
                    == "custom_tool_call_output"@ {
                    (Some(output_item_action(payload, time, sid, tid, tools)), tools)
                } else if item_type == "web_search_call"@ {
                    (Some(search_item_action(payload, time, sid, tid)), tools)
                } else {
                    (None, tools)
                }
            },
            None => (None, tools),
        },
        _ => (None, tools),
    }
}

/// Reading a `response_item` keeps each call id once.
pub proof fn lemma_response_item_tools_unique(
    record: JsonValue,
    c: ContextView,
    path: Seq<char>,
    tools: Seq<(Seq<char>, Seq<char>, Seq<char>)>,
)
    requires
        tool_ids_unique(tools),
    ensures
        tool_ids_unique(response_item_action(record, c, path, tools).1),
{
    let payload = jindex(record, "payload"@);
    let tool = match jget_str(payload, "name"@) {
        Some(n) => n,
        None => "tool"@,
    };
    let input = match jget(payload, "arguments"@) {
        Some(v) => summary_text(v),
        None => match jget(payload, "input"@) {
            Some(v) => summary_text(v),
            None => Seq::empty(),
        },
    };
    let summary = tool_call_summary(tool, input);
    if let Some(id) = jget_str(payload, "call_id"@) {
        lemma_tools_set(tools, id, tool, summary);
    }
}

fn make_candidate(
    time: UtcInstant,
    session_id: String,
    turn_id: String,
    action_type: &str,
    tool_name: String,
    summary: String,
) -> (r: ContextActionCandidate)
    ensures
        action_view(r) == (ActionView {
            time,
            session_id: session_id@,
            turn_id: turn_id@,
            action_type: action_type@,
            tool_name: tool_name@,
            summary: summary@,
        }),
{
    ContextActionCandidate {
        event_time: time,
        session_id,
        turn_id,
        action_type: action_type.to_string(),
        tool_name,
        summary,
    }
}

/// `text` followed by `，输出约 N 字`.
fn with_output_length(text: &str, n: usize) -> (r: String)
    ensures
        r@ == text@ + "，输出约 "@ + nat_text(n as nat) + " 字"@,
{
    let mut v = chars_of(text);
    extend_str(&mut v, "，输出约 ");
    let ns = usize_string(n);
    extend_str(&mut v, ns.as_str());
    extend_str(&mut v, " 字");
    string_from(&v)
}

fn call_input(payload: &JsonValue) -> (r: String)
    ensures
        r@ == match jget(*payload, "arguments"@) {
            Some(v) => summary_text(v),
            None => match jget(*payload, "input"@) {
                Some(v) => summary_text(v),
                None => Seq::empty(),
            },
        },
{
    match payload.get("arguments") {
        Some(v) => value_to_summary_text(v),
        None => match payload.get("input") {
            Some(v) => value_to_summary_text(v),
            None => String::new(),
        },
    }
}

fn search_query(payload: &JsonValue) -> (r: String)
    ensures
        r@ == match or_opt(
            match jget(*payload, "action"@) {
                Some(a) => jget_str(a, "query"@),
                None => None,
            },
            jget_str(*payload, "query"@),
        ) {
            Some(q) => q,
            None => "网页搜索"@,
        },
{
    let from_action = match payload.get("action") {
        Some(a) => get_str(a, "query"),
        None => None,
    };
    match from_action {
        Some(q) => q,
        None => match get_str(payload, "query") {
            Some(q) => q,
            None => "网页搜索".to_string(),
        },
    }
}

fn call_item(
    payload: &JsonValue,
    time: UtcInstant,
    session_id: String,
    turn_id: String,
    tool_call_contexts: &mut Vec<ToolCallContext>,
) -> (r: ContextActionCandidate)
    ensures
        (Some(action_view(r)), tools_view(final(tool_call_contexts)@)) == call_item_action(
            *payload,
            time,
            session_id@,
            turn_id@,
            tools_view(old(tool_call_contexts)@),
        ),
{
    let tool_name = match get_str(payload, "name") {
        Some(n) => n,
        None => "tool".to_string(),
    };
    let input = call_input(payload);
    let summary = summarize_tool_call(tool_name.as_str(), input.as_str());
    if let Some(call_id) = get_str(payload, "call_id") {
        set_tool(
            tool_call_contexts,
            ToolCallContext {
                call_id,
                tool_name: copy_string(&tool_name),
                summary: copy_string(&summary),
            },
        );
    }
    make_candidate(time, session_id, turn_id, "工具调用", tool_name, summary)
}

fn output_item(
    payload: &JsonValue,
    time: UtcInstant,
    session_id: String,
    turn_id: String,
    tool_call_contexts: &Vec<ToolCallContext>,
) -> (r: ContextActionCandidate)
    ensures
        action_view(r) == output_item_action(
            *payload,
            time,
            session_id@,
            turn_id@,
            tools_view(tool_call_contexts@),
        ),
{
    let call = match get_str(payload, "call_id") {
        Some(id) => lookup_tool(tool_call_contexts, id.as_str()),
        None => None,
    };
    let n: usize = match payload.get("output") {
        Some(v) => {
            let t = value_to_summary_text(v);
            let cs = chars_of(t.as_str());
            cs.len()
        },
        None => 0,
    };
    let (tool_name, summary) = match call {
        Some((name, s)) => {
            let summary = if n > 0 {
                with_output_length(s.as_str(), n)
            } else {
                s
            };
            (name, summary)
        },
        None => {
            let summary = if n > 0 {
                with_output_length("工具输出", n)
            } else {
                "工具输出".to_string()
            };
            ("tool".to_string(), summary)
        },
    };
    make_candidate(time, session_id, turn_id, "工具输出", tool_name, summary)
}

fn search_item(payload: &JsonValue, time: UtcInstant, session_id: String, turn_id: String) -> (r:
    ContextActionCandidate)
    ensures
        action_view(r) == search_item_action(*payload, time, session_id@, turn_id@),
{
    let query = search_query(payload);
    let p = preview_inline(query.as_str(), 120);
    let summary = concat_str("网页搜索 ", p.as_str());
    make_candidate(time, session_id, turn_id, "网页搜索", "web_search".to_string(), summary)
}

pub fn context_action_from_response_item(
    record: &JsonValue,
    context: &SessionContext,
    path: &str,
    tool_call_contexts: &mut Vec<ToolCallContext>,
) -> (r: Option<ContextActionCandidate>)
    ensures
        (opt_action_view(r), tools_view(final(tool_call_contexts)@)) == response_item_action(
            *record,
            context_view(*context),
            path@,
            tools_view(old(tool_call_contexts)@),
        ),
{
    let payload = record.index("payload");
    let item_type = match get_str(payload, "type") {
        Some(t) => t,
        None => return None,
    };
    let timestamp = match get_str(record, "timestamp") {
        Some(t) => t,
        None => return None,
    };
    let time = match parse_codex_time(timestamp.as_str()) {
        Some(t) => t,
        None => return None,
    };
    let session_id = current_session_id(context, path);
    let turn_id = current_turn_id(context);
    let it = item_type.as_str();
    if str_eq(it, "function_call") || str_eq(it, "custom_tool_call") {
        Some(call_item(payload, time, session_id, turn_id, tool_call_contexts))
    } else if str_eq(it, "function_call_output") || str_eq(it, "custom_tool_call_output") {
        Some(output_item(payload, time, session_id, turn_id, tool_call_contexts))
    } else if str_eq(it, "web_search_call") {
        Some(search_item(payload, time, session_id, turn_id))
    } else {
        None
    }
}

/// The action an `event_msg` record describes: a finished patch, MCP tool
/// call or web search.
pub open spec fn event_msg_action(record: JsonValue, c: ContextView, path: Seq<char>) -> Option<
    ActionView,
> {
    let payload = jindex(record, "payload"@);
    match (jget_str(payload, "type"@), jget_str(record, "timestamp"@)) {
        (Some(kind), Some(ts)) => match codex_time(ts) {
            Some(time) => {
                let sid = session_id_spec(c, path);
                let tid = match jget_str(payload, "turn_id"@) {
                    Some(t) => t,
                    None => turn_id_spec(c),
                };
                if kind == "patch_apply_end"@ {
                    Some(
                        ActionView {
                            time,
                            session_id: sid,
                            turn_id: tid,
                            action_type: "应用补丁"@,
                            tool_name: "apply_patch"@,
                            summary: "应用补丁完成"@,
                        },
                    )
                } else if kind == "mcp_tool_call_end"@ {
                    let app = match jget_str(payload, "app_name"@) {
                        Some(a) => a,
                        None => "MCP"@,
                    };
                    let action = match jget_str(payload, "action_name"@) {
                        Some(a) => a,
                        None => "工具调用"@,
                    };
                    Some(
                        ActionView {
                            time,
                            session_id: sid,
                            turn_id: tid,
                            action_type: "MCP工具"@,
                            tool_name: action,
                            summary: app + " "@ + action,
                        },
                    )
                } else if kind == "web_search_end"@ {
                    let query = match jget_str(payload, "query"@) {
                        Some(q) => q,
                        None => "网页搜索"@,
                    };
                    Some(
                        ActionView {
                            time,
                            session_id: sid,
                            turn_id: tid,
                            action_type: "网页搜索"@,
                            tool_name: "web_search"@,
                            summary: "网页搜索 "@ + preview_of(query, 120),
                        },
                    )
                } else {
                    None
                }
            },
            None => None,
        },
        _ => None,
    }
}

pub fn context_action_from_event_msg(
    record: &JsonValue,
    context: &SessionContext,
    path: &str,
) -> (r: Option<ContextActionCandidate>)
    ensures
        opt_action_view(r) == event_msg_action(*record, context_view(*context), path@),
{
    let payload = record.index("payload");
    let kind = match get_str(payload, "type") {
        Some(t) => t,
        None => return None,
    };
    let timestamp = match get_str(record, "timestamp") {
        Some(t) => t,
        None => return None,
    };
    let time = match parse_codex_time(timestamp.as_str()) {
        Some(t) => t,
        None => return None,
    };
    let session_id = current_session_id(context, path);
    let turn_id = match get_str(payload, "turn_id") {
        Some(t) => t,
        None => current_turn_id(context),
    };
    let k = kind.as_str();
    if str_eq(k, "patch_apply_end") {
        Some(
            make_candidate(
                time,
                session_id,
                turn_id,
                "应用补丁",
                "apply_patch".to_string(),
                "应用补丁完成".to_string(),
            ),
        )
    } else if str_eq(k, "mcp_tool_call_end") {
        let app = match get_str(payload, "app_name") {
            Some(a) => a,
            None => "MCP".to_string(),
        };
        let action = match get_str(payload, "action_name") {
            Some(a) => a,
            None => "工具调用".to_string(),
        };
        let mut v = chars_of(app.as_str());
        extend_str(&mut v, " ");
        extend_str(&mut v, action.as_str());
        let summary = string_from(&v);
        Some(make_candidate(time, session_id, turn_id, "MCP工具", action, summary))
    } else if str_eq(k, "web_search_end") {
        let query = match get_str(payload, "query") {
            Some(q) => q,
            None => "网页搜索".to_string(),
        };
        let p = preview_inline(query.as_str(), 120);
        let summary = concat_str("网页搜索 ", p.as_str());
        Some(
            make_candidate(
                time,
                session_id,
                turn_id,
                "网页搜索",
                "web_search".to_string(),
                summary,
            ),
        )
    } else {
        None
    }
}

// ---------------------------------------------------------------------------
// Choosing the action before a token count
// ---------------------------------------------------------------------------

/// An action of the same session and turn, at most a minute before `t`.
pub open spec fn action_precedes(a: ActionView, sid: Seq<char>, tid: Seq<char>, t: UtcInstant) -> bool {
    &&& a.session_id == sid
    &&& a.turn_id == tid
    &&& instant_le(a.time, t)
    &&& within_seconds(a.time, t, PRECEDING_ACTION_WINDOW_SECONDS as int)
}

/// The latest recorded action that precedes `t` in the same session and turn.
pub open spec fn find_preceding(
    actions: Seq<ActionView>,
    sid: Seq<char>,
    tid: Seq<char>,
    t: UtcInstant,
) -> Option<ActionView>
    decreases actions.len(),
{
    if actions.len() == 0 {
        None
    } else if action_precedes(actions.last(), sid, tid, t) {
        Some(actions.last())
    } else {
        find_preceding(actions.drop_last(), sid, tid, t)
    }
}

pub fn select_preceding_action(
    actions: &Vec<ContextActionCandidate>,
    session_id: &str,
    turn_id: &str,
    token_time: UtcInstant,
) -> (r: Option<ContextActionCandidate>)
    ensures
        opt_action_view(r) == find_preceding(
            actions_view(actions@),
            session_id@,
            turn_id@,
            token_time,
        ),
{
    let mut k: usize = actions.len();
    assert(actions_view(actions@).take(actions.len() as int) == actions_view(actions@));
    while k > 0
        invariant
            k <= actions.len(),
            find_preceding(actions_view(actions@), session_id@, turn_id@, token_time)
                == find_preceding(actions_view(actions@).take(k as int), session_id@, turn_id@, token_time),
        decreases k,
    {
        let a = &actions[k - 1];
        let ghost w = actions_view(actions@).take(k as int);
        assert(w.last() == action_view(actions@[k - 1]));
        assert(w.drop_last() == actions_view(actions@).take(k - 1));
        if str_eq(a.session_id.as_str(), session_id) && str_eq(a.turn_id.as_str(), turn_id)
            && instant_le_exec(a.event_time, token_time) && within_seconds_exec(
            a.event_time,
            token_time,
            PRECEDING_ACTION_WINDOW_SECONDS,
        ) {
            return Some(copy_candidate(a));
        }
        k = k - 1;
    }
    None
}

/// The most recent `MAX_RECENT_ACTIONS` actions.
pub open spec fn pruned(actions: Seq<ActionView>) -> Seq<ActionView> {
    if actions.len() > MAX_RECENT_ACTIONS {
        actions.skip(actions.len() - MAX_RECENT_ACTIONS)
    } else {
        actions
    }
}

pub fn prune_recent_actions(actions: &mut Vec<ContextActionCandidate>)
    ensures
        actions_view(final(actions)@) == pruned(actions_view(old(actions)@)),
{
    if actions.len() > MAX_RECENT_ACTIONS {
        let drain_count = actions.len() - MAX_RECENT_ACTIONS;
        let ghost before = actions@;
        let tail = actions.split_off(drain_count);
        *actions = tail;
        assert(actions_view(actions@) == actions_view(before).skip(drain_count as int));
    }
}

} // verus!
