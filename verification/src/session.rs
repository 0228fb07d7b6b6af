//! What a session log has said so far about the session and the current turn.
use vstd::prelude::*;
use crate::json::{copy_string, get_i64, get_str, ji64, jget, jget_str, jindex, JsonValue};
use crate::paths::{session_id_from_path, session_id_from_path_spec};
use crate::status::opt_view;
use crate::time::{codex_time, parse_codex_time, UtcInstant};

verus! {

/// The session and turn a log is in, as far as its records have told.
pub struct SessionContext {
    pub session_id: Option<String>,
    pub session_started: Option<UtcInstant>,
    pub cwd: Option<String>,
    pub originator: Option<String>,
    pub source: Option<String>,
    pub cli_version: Option<String>,
    pub model_provider: Option<String>,
    pub current_turn_id: Option<String>,
    pub current_turn_started: Option<UtcInstant>,
    pub current_user_message: Option<String>,
    pub current_model_context_window: Option<i64>,
}

/// A `SessionContext` with its texts as character sequences.
pub struct ContextView {
    pub session_id: Option<Seq<char>>,
    pub session_started: Option<UtcInstant>,
    pub cwd: Option<Seq<char>>,
    pub originator: Option<Seq<char>>,
    pub source: Option<Seq<char>>,
    pub cli_version: Option<Seq<char>>,
    pub model_provider: Option<Seq<char>>,
    pub turn_id: Option<Seq<char>>,
    pub turn_started: Option<UtcInstant>,
    pub user_message: Option<Seq<char>>,
    pub model_context_window: Option<i64>,
}

pub open spec fn context_view(c: SessionContext) -> ContextView {
    ContextView {
        session_id: opt_view(c.session_id),
        session_started: c.session_started,
        cwd: opt_view(c.cwd),
        originator: opt_view(c.originator),
        source: opt_view(c.source),
        cli_version: opt_view(c.cli_version),
        model_provider: opt_view(c.model_provider),
        turn_id: opt_view(c.current_turn_id),
        turn_started: c.current_turn_started,
        user_message: opt_view(c.current_user_message),
        model_context_window: c.current_model_context_window,
    }
}

/// Nothing known yet.
pub open spec fn empty_context() -> ContextView {
    ContextView {
        session_id: None,
        session_started: None,
        cwd: None,
        originator: None,
        source: None,
        cli_version: None,
        model_provider: None,
        turn_id: None,
        turn_started: None,
        user_message: None,
        model_context_window: None,
    }
}

pub fn new_session_context() -> (r: SessionContext)
    ensures
        context_view(r) == empty_context(),
{
    SessionContext {
        session_id: None,
        session_started: None,
        cwd: None,
        originator: None,
        source: None,
        cli_version: None,
        model_provider: None,
        current_turn_id: None,
        current_turn_started: None,
        current_user_message: None,
        current_model_context_window: None,
    }
}

/// A copy of an optional string.
pub fn copy_opt(o: &Option<String>) -> (r: Option<String>)
    ensures
        opt_view(r) == opt_view(*o),
{
    match o {
        Some(s) => Some(copy_string(s)),
        None => None,
    }
}

/// The first of two optional texts that is there.
pub open spec fn or_opt(a: Option<Seq<char>>, b: Option<Seq<char>>) -> Option<Seq<char>> {
    match a {
        Some(x) => Some(x),
        None => b,
    }
}

/// The session id: the one the log gave, else the log file's stem.
pub open spec fn session_id_spec(c: ContextView, path: Seq<char>) -> Seq<char> {
    match c.session_id {
        Some(s) => s,
        None => session_id_from_path_spec(path),
    }
}

pub fn current_session_id(context: &SessionContext, path: &str) -> (r: String)
    ensures
        r@ == session_id_spec(context_view(*context), path@),
{
    match &context.session_id {
        Some(s) => copy_string(s),
        None => session_id_from_path(path),
    }
}

/// The current turn id, else `unknown-turn`.
pub open spec fn turn_id_spec(c: ContextView) -> Seq<char> {
    match c.turn_id {
        Some(t) => t,
        None => "unknown-turn"@,
    }
}

pub fn current_turn_id(context: &SessionContext) -> (r: String)
    ensures
        r@ == turn_id_spec(context_view(*context)),
{
    match &context.current_turn_id {
        Some(t) => copy_string(t),
        None => "unknown-turn".to_string(),
    }
}

/// The instant a timestamp member names, where it parses.
pub open spec fn timestamp_member(v: JsonValue, key: Seq<char>) -> Option<UtcInstant> {
    match jget_str(v, key) {
        Some(t) => codex_time(t),
        None => None,
    }
}

pub fn read_timestamp(v: &JsonValue, key: &str) -> (r: Option<UtcInstant>)
    ensures
        r == timestamp_member(*v, key@),
{
    match get_str(v, key) {
        Some(t) => parse_codex_time(t.as_str()),
        None => None,
    }
}

/// A `session_meta` record: who and where the session is.
pub open spec fn after_session_meta(c: ContextView, payload: JsonValue) -> ContextView {
    ContextView {
        session_id: or_opt(jget_str(payload, "session_id"@), jget_str(payload, "id"@)),
        session_started: timestamp_member(payload, "timestamp"@),
        cwd: jget_str(payload, "cwd"@),
        originator: jget_str(payload, "originator"@),
        source: jget_str(payload, "source"@),
        cli_version: jget_str(payload, "cli_version"@),
        model_provider: jget_str(payload, "model_provider"@),
        ..c
    }
}

/// A `turn_context` record: the turn and working directory, where given.
pub open spec fn after_turn_context(c: ContextView, payload: JsonValue) -> ContextView {
    ContextView {
        turn_id: or_opt(jget_str(payload, "turn_id"@), c.turn_id),
        cwd: or_opt(jget_str(payload, "cwd"@), c.cwd),
        ..c
    }
}

/// What `started_at`-like members give: whole Unix seconds, where in range.
pub open spec fn unix_member(v: JsonValue, key: Seq<char>) -> Option<UtcInstant> {
    match ji64(jget(v, key)) {
        Some(s) => crate::time::unix_instant(s),
        None => None,
    }
}

pub fn read_unix_seconds(v: &JsonValue, key: &str) -> (r: Option<UtcInstant>)
    ensures
        r == unix_member(*v, key@),
{
    match get_i64(v, key) {
        Some(s) => crate::time::parse_unix_seconds(s),
        None => None,
    }
}

/// A `task_started` event: a new turn begins.
pub open spec fn after_task_started(c: ContextView, payload: JsonValue) -> ContextView {
    ContextView {
        turn_id: jget_str(payload, "turn_id"@),
        turn_started: unix_member(payload, "started_at"@),
        model_context_window: ji64(jget(payload, "model_context_window"@)),
        ..c
    }
}

/// A `user_message` event: what the user asked in this turn.
pub open spec fn after_user_message(c: ContextView, payload: JsonValue) -> ContextView {
    ContextView { user_message: jget_str(payload, "message"@), ..c }
}

fn or_string(a: Option<String>, b: Option<String>) -> (r: Option<String>)
    ensures
        opt_view(r) == or_opt(opt_view(a), opt_view(b)),
{
    match a {
        Some(x) => Some(x),
        None => b,
    }
}

pub fn apply_session_meta(context: &mut SessionContext, payload: &JsonValue)
    ensures
        context_view(*final(context)) == after_session_meta(context_view(*old(context)), *payload),
{
    context.session_id = or_string(get_str(payload, "session_id"), get_str(payload, "id"));
    context.session_started = read_timestamp(payload, "timestamp");
    context.cwd = get_str(payload, "cwd");
    context.originator = get_str(payload, "originator");
    context.source = get_str(payload, "source");
    context.cli_version = get_str(payload, "cli_version");
    context.model_provider = get_str(payload, "model_provider");
}

pub fn apply_turn_context(context: &mut SessionContext, payload: &JsonValue)
    ensures
        context_view(*final(context)) == after_turn_context(context_view(*old(context)), *payload),
{
    if let Some(t) = get_str(payload, "turn_id") {
        context.current_turn_id = Some(t);
    }
    if let Some(c) = get_str(payload, "cwd") {
        context.cwd = Some(c);
    }
}

pub fn apply_task_started(context: &mut SessionContext, payload: &JsonValue)
    ensures
        context_view(*final(context)) == after_task_started(context_view(*old(context)), *payload),
{
    context.current_turn_id = get_str(payload, "turn_id");
    context.current_turn_started = read_unix_seconds(payload, "started_at");
    context.current_model_context_window = get_i64(payload, "model_context_window");
}

pub fn apply_user_message(context: &mut SessionContext, payload: &JsonValue)
    ensures
        context_view(*final(context)) == after_user_message(context_view(*old(context)), *payload),
{
    context.current_user_message = get_str(payload, "message");
}

} // verus!
