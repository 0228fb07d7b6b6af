//! The application settings: defaults, the limits their numbers are held
//! to, how a stored row is read, and how a change is merged into them.
use vstd::prelude::*;
use crate::status::owned;
use crate::text::{chars_of, string_from, trim, trim_chars};

verus! {

/// The release repository updates are checked against.
pub open spec fn default_update_source() -> Seq<char> {
    "DonaldL81/codex-token-usage"@
}

/// The settings as shown and stored.
pub struct AppConfigDto {
    pub sessions_root: String,
    pub include_archived: bool,
    pub refresh_interval_seconds: i64,
    pub include_messages_in_export: bool,
    pub retention_days: i64,
    pub update_source: String,
}

/// A change of settings: each field that is given replaces the current one.
pub struct AppConfigInput {
    pub sessions_root: Option<String>,
    pub include_archived: Option<bool>,
    pub refresh_interval_seconds: Option<i64>,
    pub include_messages_in_export: Option<bool>,
    pub retention_days: Option<i64>,
    pub update_source: Option<String>,
}

/// The settings as plain values.
pub struct ConfigView {
    pub sessions_root: Seq<char>,
    pub include_archived: bool,
    pub refresh_interval_seconds: i64,
    pub include_messages_in_export: bool,
    pub retention_days: i64,
    pub update_source: Seq<char>,
}

impl View for AppConfigDto {
    type V = ConfigView;

    open spec fn view(&self) -> ConfigView {
        ConfigView {
            sessions_root: self.sessions_root@,
            include_archived: self.include_archived,
            refresh_interval_seconds: self.refresh_interval_seconds,
            include_messages_in_export: self.include_messages_in_export,
            retention_days: self.retention_days,
            update_source: self.update_source@,
        }
    }
}

/// A refresh interval: 0 (off) for zero or less, else held within
/// 30 seconds to one day.
pub open spec fn refresh_interval_spec(seconds: i64) -> i64 {
    if seconds <= 0 {
        0
    } else if seconds < 30 {
        30
    } else if seconds > 86_400 {
        86_400
    } else {
        seconds
    }
}

pub fn normalize_refresh_interval(seconds: i64) -> (r: i64)
    ensures
        r == refresh_interval_spec(seconds),
{
    if seconds <= 0 {
        0
    } else if seconds < 30 {
        30
    } else if seconds > 86_400 {
        86_400
    } else {
        seconds
    }
}

/// A retention period held within 0 (keep everything) to 3650 days.
pub open spec fn retention_days_spec(days: i64) -> i64 {
    if days < 0 {
        0
    } else if days > 3650 {
        3650
    } else {
        days
    }
}

pub fn normalize_retention_days(days: i64) -> (r: i64)
    ensures
        r == retention_days_spec(days),
{
    if days < 0 {
        0
    } else if days > 3650 {
        3650
    } else {
        days
    }
}

/// Settings held to their limits: a refresh interval is off (0) or within
/// 30 seconds to a day, the nearest such value to the one asked for; a
/// retention period is within 0 to 3650 days, the nearest such value; and
/// holding a held value again changes nothing.
pub proof fn lemma_settings_held_to_limits(seconds: i64, days: i64)
    ensures
        seconds <= 0 ==> refresh_interval_spec(seconds) == 0,
        seconds > 0 ==> 30 <= refresh_interval_spec(seconds) <= 86_400,
        30 <= seconds <= 86_400 ==> refresh_interval_spec(seconds) == seconds,
        0 < seconds < 30 ==> refresh_interval_spec(seconds) == 30,
        seconds > 86_400 ==> refresh_interval_spec(seconds) == 86_400,
        refresh_interval_spec(refresh_interval_spec(seconds)) == refresh_interval_spec(seconds),
        0 <= retention_days_spec(days) <= 3650,
        0 <= days <= 3650 ==> retention_days_spec(days) == days,
        days < 0 ==> retention_days_spec(days) == 0,
        days > 3650 ==> retention_days_spec(days) == 3650,
        retention_days_spec(retention_days_spec(days)) == retention_days_spec(days),
{
}

/// The default settings, with the sessions folder found for this machine.
pub open spec fn default_config_spec(sessions_root: Seq<char>) -> ConfigView {
    ConfigView {
        sessions_root,
        include_archived: true,
        refresh_interval_seconds: 0,
        include_messages_in_export: false,
        retention_days: 0,
        update_source: default_update_source(),
    }
}

pub fn default_app_config(default_sessions_root: String) -> (r: AppConfigDto)
    ensures
        r@ == default_config_spec(default_sessions_root@),
{
    AppConfigDto {
        sessions_root: default_sessions_root,
        include_archived: true,
        refresh_interval_seconds: 0,
        include_messages_in_export: false,
        retention_days: 0,
        update_source: owned("DonaldL81/codex-token-usage"),
    }
}

/// A stored text, trimmed, where it is not blank.
pub open spec fn trimmed_text(v: Option<Seq<char>>) -> Option<Seq<char>> {
    match v {
        Some(s) => if trim(s).len() > 0 {
            Some(trim(s))
        } else {
            None
        },
        None => None,
    }
}

pub open spec fn or_else(v: Option<Seq<char>>, d: Seq<char>) -> Seq<char> {
    match v {
        Some(s) => s,
        None => d,
    }
}

pub open spec fn opt_seq(v: Option<String>) -> Option<Seq<char>> {
    match v {
        Some(s) => Some(s@),
        None => None,
    }
}

fn trimmed_or(v: Option<String>, default: &String) -> (r: String)
    ensures
        r@ == or_else(trimmed_text(opt_seq(v)), default@),
{
    match v {
        Some(s) => {
            let cs = chars_of(s.as_str());
            let t = trim_chars(&cs);
            if t.len() > 0 {
                string_from(&t)
            } else {
                default.clone()
            }
        },
        None => default.clone(),
    }
}

/// The settings a stored row stands for: blank texts fall back to the
/// defaults, numbers are held to their limits, archived sessions are
/// always included.
pub open spec fn config_from_row_spec(
    defaults: ConfigView,
    sessions_root: Option<Seq<char>>,
    refresh_interval_seconds: i64,
    include_messages_in_export: i64,
    retention_days: i64,
    update_source: Option<Seq<char>>,
) -> ConfigView {
    ConfigView {
        sessions_root: or_else(trimmed_text(sessions_root), defaults.sessions_root),
        include_archived: true,
        refresh_interval_seconds: refresh_interval_spec(refresh_interval_seconds),
        include_messages_in_export: include_messages_in_export != 0,
        retention_days: retention_days_spec(retention_days),
        update_source: or_else(trimmed_text(update_source), defaults.update_source),
    }
}

/// The settings of a stored row (the columns of `app_config`).
pub fn app_config_from_row(
    defaults: &AppConfigDto,
    sessions_root: Option<String>,
    refresh_interval_seconds: i64,
    include_messages_in_export: i64,
    retention_days: i64,
    update_source: Option<String>,
) -> (r: AppConfigDto)
    ensures
        r@ == config_from_row_spec(
            defaults@,
            opt_seq(sessions_root),
            refresh_interval_seconds,
            include_messages_in_export,
            retention_days,
            opt_seq(update_source),
        ),
{
    AppConfigDto {
        sessions_root: trimmed_or(sessions_root, &defaults.sessions_root),
        include_archived: true,
        refresh_interval_seconds: normalize_refresh_interval(refresh_interval_seconds),
        include_messages_in_export: include_messages_in_export != 0,
        retention_days: normalize_retention_days(retention_days),
        update_source: trimmed_or(update_source, &defaults.update_source),
    }
}

/// The settings after a change: given fields replace current ones (texts
/// trimmed, blank ones ignored; numbers held to their limits); archived
/// sessions stay included and the update source stays the default one.
pub open spec fn merged_config_spec(
    current: ConfigView,
    sessions_root: Option<Seq<char>>,
    refresh_interval_seconds: Option<i64>,
    include_messages_in_export: Option<bool>,
    retention_days: Option<i64>,
) -> ConfigView {
    ConfigView {
        sessions_root: or_else(trimmed_text(sessions_root), current.sessions_root),
        include_archived: true,
        refresh_interval_seconds: match refresh_interval_seconds {
            Some(x) => refresh_interval_spec(x),
            None => current.refresh_interval_seconds,
        },
        include_messages_in_export: match include_messages_in_export {
            Some(b) => b,
            None => current.include_messages_in_export,
        },
        retention_days: match retention_days {
            Some(x) => retention_days_spec(x),
            None => current.retention_days,
        },
        update_source: default_update_source(),
    }
}

/// The settings that saving `input` over `current` stores.
pub fn merge_app_config(current: &AppConfigDto, input: AppConfigInput) -> (r: AppConfigDto)
    ensures
        r@ == merged_config_spec(
            current@,
            opt_seq(input.sessions_root),
            input.refresh_interval_seconds,
            input.include_messages_in_export,
            input.retention_days,
        ),
{
    let sessions_root = trimmed_or(input.sessions_root, &current.sessions_root);
    let refresh_interval_seconds = match input.refresh_interval_seconds {
        Some(x) => normalize_refresh_interval(x),
        None => current.refresh_interval_seconds,
    };
    let include_messages_in_export = match input.include_messages_in_export {
        Some(b) => b,
        None => current.include_messages_in_export,
    };
    let retention_days = match input.retention_days {
        Some(x) => normalize_retention_days(x),
        None => current.retention_days,
    };
    AppConfigDto {
        sessions_root,
        include_archived: true,
        refresh_interval_seconds,
        include_messages_in_export,
        retention_days,
        update_source: owned("DonaldL81/codex-token-usage"),
    }
}

/// Settings whose texts are trimmed and not blank and whose numbers are
/// within their limits: what merging and reading produce.
pub open spec fn config_is_normal(c: ConfigView) -> bool {
    &&& trim(c.sessions_root) == c.sessions_root && c.sessions_root.len() > 0
    &&& refresh_interval_spec(c.refresh_interval_seconds) == c.refresh_interval_seconds
    &&& retention_days_spec(c.retention_days) == c.retention_days
    &&& c.include_archived
    &&& trim(c.update_source) == c.update_source && c.update_source.len() > 0
}

/// Saving settings and reading them back gives the settings that were saved:
/// the stored row of a merge is read as that same merge, whatever the
/// defaults, and a merge over normal settings is normal.
pub proof fn lemma_saved_settings_read_back(
    current: ConfigView,
    defaults: ConfigView,
    sessions_root: Option<Seq<char>>,
    refresh_interval_seconds: Option<i64>,
    include_messages_in_export: Option<bool>,
    retention_days: Option<i64>,
)
    requires
        config_is_normal(current),
    ensures
        config_is_normal(
            merged_config_spec(
                current,
                sessions_root,
                refresh_interval_seconds,
                include_messages_in_export,
                retention_days,
            ),
        ),
        ({
            let m = merged_config_spec(
                current,
                sessions_root,
                refresh_interval_seconds,
                include_messages_in_export,
                retention_days,
            );
            config_from_row_spec(
                defaults,
                Some(m.sessions_root),
                m.refresh_interval_seconds,
                if m.include_messages_in_export {
                    1
                } else {
                    0
                },
                m.retention_days,
                Some(m.update_source),
            ) == m
        }),
{
    let m = merged_config_spec(
        current,
        sessions_root,
        refresh_interval_seconds,
        include_messages_in_export,
        retention_days,
    );
    match sessions_root {
        Some(s) => {
            crate::text::lemma_trim_idempotent(s);
        },
        None => {},
    }
    lemma_default_source_normal();
    crate::text::lemma_trim_idempotent(m.sessions_root);
}

/// The default update source has no surrounding whitespace.
pub proof fn lemma_default_source_normal()
    ensures
        trim(default_update_source()) == default_update_source(),
        default_update_source().len() > 0,
{
    reveal_strlit("DonaldL81/codex-token-usage");
    let s = default_update_source();
    let p = crate::text::trim_pred(true, ' ');
    assert(!crate::text::is_ws(s[0]));
    assert(crate::text::trim_start_by(s, p) == s);
    assert(!crate::text::is_ws(s.last()));
    assert(crate::text::trim_end_by(s, p) == s);
}

} // verus!
