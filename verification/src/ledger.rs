//! The ledger's housekeeping: which folders and files a scan reads and which
//! it may skip, what a scan tallies, when actions must be backfilled, how old
//! counts expire, and where backups, exports and the stable copy live.
use vstd::prelude::*;
use crate::json::copy_string;
use crate::paths::{is_sep, parent_spec};
use crate::report::{strings_view, TokenEvent};
use crate::text::{
    ascii_lower_chars, ascii_lower_seq, chars_eq, chars_of, concat_str, extend_str, lex_compare,
    lex_lt, string_from, str_eq,
};
use crate::time::{
    date_text, format_date, instant_le, instant_le_exec, within_seconds, within_seconds_exec,
    CivilDate, UtcInstant,
};
use crate::sorting::{lemma_insert_at, sort_by};

verus! {

// ---------------------------------------------------------------------------
// Path joins
// ---------------------------------------------------------------------------

/// What `Path::join` can give for a plain name: the name after an empty
/// base, else the base and the name, with one separator between them unless
/// the base ends with one.
pub open spec fn joined(base: Seq<char>, name: Seq<char>, r: Seq<char>) -> bool {
    if base.len() == 0 {
        r == name
    } else {
        r == base + name || r == base + seq!['/'] + name || r == base + seq!['\\'] + name
    }
}

/// A name that `Path::join` appends rather than substitutes: no separator,
/// no drive colon, not empty.
pub open spec fn plain_name(name: Seq<char>) -> bool {
    name.len() > 0 && !name.contains('/') && !name.contains('\\') && !name.contains(':')
}

/// A base that may carry a Windows verbatim prefix (`\\?\` or `\??\`, either
/// separator in any place): `Path::join` rebuilds such a base, normalising
/// `.`, `..` and doubled separators, instead of appending to it.
pub open spec fn verbatim_like(base: Seq<char>) -> bool {
    &&& base.len() >= 4
    &&& is_sep(base[0])
    &&& is_sep(base[1]) || base[1] == '?'
    &&& base[2] == '?'
    &&& is_sep(base[3])
}

/// What `Path::join(base, name)` gives for a plain name: one of `joined`'s
/// forms, unless the base may be verbatim.
pub open spec fn join_result(base: Seq<char>, name: Seq<char>, r: Seq<char>) -> bool {
    !verbatim_like(base) ==> joined(base, name, r)
}

/// `Path::join(base, name)` for a plain name, as a string. Which separator
/// goes between, and whether a trailing `\` counts as one, is the
/// platform's: only that the result is one of `joined`'s forms is stated,
/// and nothing is stated for a base that may carry a verbatim prefix.
#[verifier::external_body]
pub(crate) fn join_path(base: &str, name: &str) -> (r: String)
    requires
        plain_name(name@),
    ensures
        join_result(base@, name@, r@),
{
    std::path::Path::new(base).join(name).display().to_string()
}

// ---------------------------------------------------------------------------
// Where things are
// ---------------------------------------------------------------------------

/// The folder the tool keeps its data in: under `LOCALAPPDATA`, else under
/// the home folder, else in the working directory.
pub fn default_data_dir(local_app_data: Option<&str>, home: Option<&str>) -> (r: String)
    ensures
        match (local_app_data, home) {
            (Some(l), _) => join_result(l@, "CodexTokenUsage"@, r@),
            (None, Some(h)) => join_result(h@, ".codex-token-usage"@, r@),
            (None, None) => r@ == ".codex-token-usage"@,
        },
{
    proof {
        reveal_strlit("CodexTokenUsage");
        reveal_strlit(".codex-token-usage");
    }
    match local_app_data {
        Some(l) => join_path(l, "CodexTokenUsage"),
        None => match home {
            Some(h) => join_path(h, ".codex-token-usage"),
            None => ".codex-token-usage".to_string(),
        },
    }
}

/// Where Codex keeps its session logs: `sessions` under `CODEX_HOME`, else
/// `.codex` and `sessions` under the home folder, else under `.codex` in the
/// working directory.
pub fn default_sessions_root(codex_home: Option<&str>, home: Option<&str>) -> (r: String)
    ensures
        match (codex_home, home) {
            (Some(c), _) => join_result(c@, "sessions"@, r@),
            (None, Some(h)) => exists|p: Seq<char>|
                join_result(h@, ".codex"@, p) && join_result(p, "sessions"@, r@),
            (None, None) => joined(".codex"@, "sessions"@, r@),
        },
{
    proof {
        reveal_strlit("sessions");
        reveal_strlit(".codex");
    }
    match codex_home {
        Some(c) => join_path(c, "sessions"),
        None => {
            let base = match home {
                Some(h) => join_path(h, ".codex"),
                None => ".codex".to_string(),
            };
            join_path(base.as_str(), "sessions")
        },
    }
}

/// The Codex home: `CODEX_HOME` where set, else `.codex` under the home
/// folder, else none.
pub fn default_codex_home(codex_home: Option<&str>, home: Option<&str>) -> (r: Option<String>)
    ensures
        match (codex_home, home) {
            (Some(c), _) => r matches Some(x) && x@ == c@,
            (None, Some(h)) => r matches Some(x) && join_result(h@, ".codex"@, x@),
            (None, None) => r is None,
        },
{
    proof {
        reveal_strlit(".codex");
    }
    match codex_home {
        Some(c) => Some(c.to_string()),
        None => match home {
            Some(h) => Some(join_path(h, ".codex")),
            None => None,
        },
    }
}

/// The folder of the stable copy: `Programs\CodexTokenUsage` under
/// `LOCALAPPDATA`, else under the data folder.
pub fn stable_program_dir(local_app_data: Option<&str>, data_dir: &str) -> (r: String)
    ensures
        exists|p: Seq<char>|
            join_result(
                match local_app_data {
                    Some(l) => l@,
                    None => data_dir@,
                },
                "Programs"@,
                p,
            ) && join_result(p, "CodexTokenUsage"@, r@),
{
    proof {
        reveal_strlit("CodexTokenUsage");
        reveal_strlit("Programs");
    }
    let base = match local_app_data {
        Some(l) => l,
        None => data_dir,
    };
    let programs = join_path(base, "Programs");
    join_path(programs.as_str(), "CodexTokenUsage")
}

/// The stable copy of the program.
pub fn stable_entry_path(program_dir: &str) -> (r: String)
    ensures
        join_result(program_dir@, "CodexTokenUsage.exe"@, r@),
{
    proof {
        reveal_strlit("CodexTokenUsage.exe");
    }
    join_path(program_dir, "CodexTokenUsage.exe")
}

/// The marker written beside the stable copy.
pub fn stable_marker_path(program_dir: &str) -> (r: String)
    ensures
        join_result(program_dir@, ".stable-entry"@, r@),
{
    proof {
        reveal_strlit(".stable-entry");
    }
    join_path(program_dir, ".stable-entry")
}

/// What the marker of the stable copy says.
pub open spec fn stable_marker_spec(version: Seq<char>, path: Seq<char>, updated_at: Seq<char>) -> Seq<
    char,
> {
    "version="@ + version + "\npath="@ + path + "\nupdated_at="@ + updated_at + "\n"@
}

pub fn stable_marker_text(version: &str, path: &str, updated_at: &str) -> (r: String)
    ensures
        r@ == stable_marker_spec(version@, path@, updated_at@),
{
    let mut v = chars_of("version=");
    extend_str(&mut v, version);
    extend_str(&mut v, "\npath=");
    extend_str(&mut v, path);
    extend_str(&mut v, "\nupdated_at=");
    extend_str(&mut v, updated_at);
    extend_str(&mut v, "\n");
    string_from(&v)
}

/// Whether two canonical paths name the same file (ASCII case ignored);
/// `None` is a path that could not be resolved.
pub open spec fn same_file_spec(left: Option<Seq<char>>, right: Option<Seq<char>>) -> bool {
    match (left, right) {
        (Some(l), Some(r)) => ascii_lower_seq(l) == ascii_lower_seq(r),
        _ => false,
    }
}

pub fn paths_refer_to_same_file(left_canonical: Option<&str>, right_canonical: Option<&str>) -> (r:
    bool)
    ensures
        r == same_file_spec(
            match left_canonical {
                Some(l) => Some(l@),
                None => None,
            },
            match right_canonical {
                Some(x) => Some(x@),
                None => None,
            },
        ),
{
    match (left_canonical, right_canonical) {
        (Some(l), Some(r)) => {
            let a = ascii_lower_chars(&chars_of(l));
            let b = ascii_lower_chars(&chars_of(r));
            chars_eq(&a, &b)
        },
        _ => false,
    }
}

/// The components of a path: whether it starts at a root, and its names.
pub open spec fn components(p: Seq<char>) -> (bool, Seq<Seq<char>>) {
    (p.len() > 0 && is_sep(p[0]), crate::update::nonempty_pieces(
        p.map_values(|c: char| if c == '\\' { '/' } else { c }),
        '/',
    ))
}

/// `Path::starts_with` on canonical paths: the candidate has the base's
/// root and the base's names as its first names.
pub open spec fn inside_spec(base: Option<Seq<char>>, candidate: Option<Seq<char>>) -> bool {
    match (base, candidate) {
        (Some(b), Some(c)) => components(b).0 == components(c).0 && components(b).1.len()
            <= components(c).1.len() && components(c).1.take(components(b).1.len() as int)
            == components(b).1,
        _ => false,
    }
}

fn components_exec(p: &str) -> (r: (bool, Vec<Vec<char>>))
    ensures
        r.0 == components(p@).0,
        r.1@.map_values(|v: Vec<char>| v@) == components(p@).1,
{
    let cs = chars_of(p);
    let root = cs.len() > 0 && (cs[0] == '/' || cs[0] == '\\');
    let mut unified: Vec<char> = Vec::new();
    let mut i: usize = 0;
    while i < cs.len()
        invariant
            i <= cs.len(),
            unified@ == cs@.take(i as int).map_values(|c: char| if c == '\\' { '/' } else { c }),
        decreases cs.len() - i,
    {
        if cs[i] == '\\' {
            unified.push('/');
        } else {
            unified.push(cs[i]);
        }
        assert(cs@.take(i + 1).map_values(|c: char| if c == '\\' { '/' } else { c }) == cs@.take(
            i as int,
        ).map_values(|c: char| if c == '\\' { '/' } else { c }).push(
            if cs@[i as int] == '\\' { '/' } else { cs@[i as int] },
        ));
        i = i + 1;
    }
    assert(cs@.take(cs.len() as int) == cs@);
    let names = crate::update::split_nonempty(&unified, '/');
    (root, names)
}

pub fn path_is_inside(base_canonical: Option<&str>, candidate_canonical: Option<&str>) -> (r: bool)
    ensures
        r == inside_spec(
            match base_canonical {
                Some(b) => Some(b@),
                None => None,
            },
            match candidate_canonical {
                Some(c) => Some(c@),
                None => None,
            },
        ),
{
    match (base_canonical, candidate_canonical) {
        (Some(b), Some(c)) => {
            let (broot, bnames) = components_exec(b);
            let (croot, cnames) = components_exec(c);
            let ghost bv = bnames@.map_values(|v: Vec<char>| v@);
            let ghost cv = cnames@.map_values(|v: Vec<char>| v@);
            if broot != croot || bnames.len() > cnames.len() {
                return false;
            }
            let mut k: usize = 0;
            while k < bnames.len()
                invariant
                    k <= bnames.len() <= cnames.len(),
                    base_canonical == Some(b),
                    candidate_canonical == Some(c),
                    bv == components(b@).1,
                    cv == components(c@).1,
                    broot == components(b@).0,
                    croot == components(c@).0,
                    broot == croot,
                    bv == bnames@.map_values(|v: Vec<char>| v@),
                    cv == cnames@.map_values(|v: Vec<char>| v@),
                    forall|j: int| 0 <= j < k ==> bv[j] == cv[j],
                decreases bnames.len() - k,
            {
                assert(bv[k as int] == bnames@[k as int]@);
                assert(cv[k as int] == cnames@[k as int]@);
                if !chars_eq(&bnames[k], &cnames[k]) {
                    assert(cv.take(bv.len() as int)[k as int] != bv[k as int]);
                    assert(cv.take(bv.len() as int) != bv);
                    return false;
                }
                k = k + 1;
            }
            assert(cv.take(bv.len() as int) == bv);
            true
        },
        _ => false,
    }
}

// ---------------------------------------------------------------------------
// Scanning
// ---------------------------------------------------------------------------

/// How far before the last cutoff a scan looks again, in seconds.
pub const LOOKBACK_SECONDS: i64 = 300;

/// The archived sessions folder beside a sessions folder: `archived_sessions`
/// joined to the sessions folder's parent, where it has one.
pub open spec fn archived_root_ok(sessions_root: Seq<char>, r: Option<Seq<char>>) -> bool {
    match parent_spec(sessions_root) {
        Some(p) => r matches Some(a) && join_result(p, "archived_sessions"@, a),
        None => r is None,
    }
}

pub fn archived_sessions_root(sessions_root: &str) -> (r: Option<String>)
    ensures
        archived_root_ok(sessions_root@, match r {
            Some(a) => Some(a@),
            None => None,
        }),
{
    proof {
        reveal_strlit("archived_sessions");
    }
    let cs = chars_of(sessions_root);
    match crate::paths::parent_text(&cs) {
        Some(parent) => Some(join_path(parent.as_str(), "archived_sessions")),
        None => None,
    }
}

/// The folders a scan reads: the sessions folder, and the archived one where
/// asked for and present.
pub fn scan_roots(sessions_root: &str, include_archived: bool, archived: Option<String>, archived_exists: bool) -> (r: Vec<String>)
    ensures
        r@.len() >= 1,
        r@[0]@ == sessions_root@,
        r@.len() == (if include_archived && archived is Some && archived_exists {
            2int
        } else {
            1int
        }),
        r@.len() == 2 ==> (archived matches Some(a) && r@[1]@ == a@),
{
    let mut roots: Vec<String> = Vec::new();
    roots.push(sessions_root.to_string());
    if include_archived && archived_exists {
        if let Some(a) = archived {
            roots.push(a);
        }
    }
    roots
}

/// Whether a file is a session log: its extension is exactly `jsonl`.
pub open spec fn is_session_log_spec(file_name: Seq<char>) -> bool {
    let k = crate::update::after_last(file_name, '.');
    k > 1 && file_name.skip(k as int) == "jsonl"@
}

pub fn is_session_log(file_name: &str) -> (r: bool)
    ensures
        r == is_session_log_spec(file_name@),
{
    let cs = chars_of(file_name);
    let k = crate::update::after_last_exec(&cs, '.');
    if k <= 1 {
        return false;
    }
    let ext = crate::text::slice_chars(&cs, k, cs.len());
    assert(ext@ == cs@.skip(k as int));
    chars_eq(&ext, &chars_of("jsonl"))
}

/// Whether a scan skips a file: there was an earlier scan, and the file was
/// last changed more than `LOOKBACK_SECONDS` before its cutoff.
pub open spec fn skips_file_spec(previous_cutoff: Option<UtcInstant>, modified: Option<UtcInstant>) -> bool {
    match (previous_cutoff, modified) {
        (Some(c), Some(m)) => instant_le(m, c) && !within_seconds(m, c, LOOKBACK_SECONDS as int),
        _ => false,
    }
}

pub fn skips_file(previous_cutoff: Option<UtcInstant>, modified: Option<UtcInstant>) -> (r: bool)
    requires
        previous_cutoff matches Some(c) ==> c.secs >= crate::time::earliest_secs() + LOOKBACK_SECONDS,
    ensures
        r == skips_file_spec(previous_cutoff, modified),
{
    match (previous_cutoff, modified) {
        (Some(c), Some(m)) => instant_le_exec(m, c) && !within_seconds_exec(m, c, LOOKBACK_SECONDS),
        _ => false,
    }
}

/// What a scan counts as it goes.
pub struct ScanTally {
    pub files_scanned: i64,
    pub new_events: i64,
    pub parse_errors: i64,
    pub latest_event: Option<UtcInstant>,
}

/// The later of two instants (the second where they are equal).
pub open spec fn later(a: Option<UtcInstant>, b: UtcInstant) -> UtcInstant {
    match a {
        Some(x) => if instant_le(x, b) {
            b
        } else {
            x
        },
        None => b,
    }
}

/// A scan before it reads any file: the last cutoff is its latest event.
pub fn new_scan_tally(previous_cutoff: Option<UtcInstant>) -> (r: ScanTally)
    ensures
        r.files_scanned == 0 && r.new_events == 0 && r.parse_errors == 0,
        r.latest_event == previous_cutoff,
{
    ScanTally { files_scanned: 0, new_events: 0, parse_errors: 0, latest_event: previous_cutoff }
}

/// A file read: one more file, its parse errors, and its latest event.
pub fn tally_file(tally: &mut ScanTally, parse_errors: i64, event_times: &Vec<UtcInstant>)
    requires
        old(tally).files_scanned < i64::MAX,
        0 <= parse_errors,
        old(tally).parse_errors + parse_errors <= i64::MAX,
    ensures
        final(tally).files_scanned == old(tally).files_scanned + 1,
        final(tally).parse_errors == old(tally).parse_errors + parse_errors,
        final(tally).new_events == old(tally).new_events,
        final(tally).latest_event == fold_latest(old(tally).latest_event, event_times@),
{
    tally.files_scanned = tally.files_scanned + 1;
    tally.parse_errors = tally.parse_errors + parse_errors;
    let mut i: usize = 0;
    let ghost start = tally.latest_event;
    let ghost files = tally.files_scanned;
    let ghost errors = tally.parse_errors;
    let ghost added = tally.new_events;
    while i < event_times.len()
        invariant
            i <= event_times.len(),
            tally.files_scanned == files,
            tally.parse_errors == errors,
            tally.new_events == added,
            tally.latest_event == fold_latest(start, event_times@.take(i as int)),
        decreases event_times.len() - i,
    {
        let t = event_times[i];
        let next = match tally.latest_event {
            Some(x) => if instant_le_exec(x, t) {
                t
            } else {
                x
            },
            None => t,
        };
        tally.latest_event = Some(next);
        assert(event_times@.take(i + 1).drop_last() == event_times@.take(i as int));
        i = i + 1;
    }
    assert(event_times@.take(event_times.len() as int) == event_times@);
}

/// The latest of an instant and a run of instants, taken in turn.
pub open spec fn fold_latest(start: Option<UtcInstant>, times: Seq<UtcInstant>) -> Option<UtcInstant>
    decreases times.len(),
{
    if times.len() == 0 {
        start
    } else {
        Some(later(fold_latest(start, times.drop_last()), times.last()))
    }
}

/// Counts the events a file added to the ledger.
pub fn tally_new_events(tally: &mut ScanTally, added: i64)
    requires
        0 <= added,
        old(tally).new_events + added <= i64::MAX,
    ensures
        final(tally).new_events == old(tally).new_events + added,
        final(tally).files_scanned == old(tally).files_scanned,
        final(tally).parse_errors == old(tally).parse_errors,
        final(tally).latest_event == old(tally).latest_event,
{
    tally.new_events = tally.new_events + added;
}

/// Whether the actions were already backfilled for this sessions folder and
/// archive setting (as recorded, where a record exists).
pub fn is_context_action_backfill_current(
    recorded: Option<(&str, i64)>,
    sessions_root: &str,
    include_archived: bool,
) -> (r: bool)
    ensures
        r == match recorded {
            Some((root, archived)) => root@ == sessions_root@ && archived == (if include_archived {
                1int
            } else {
                0int
            }),
            None => false,
        },
{
    match recorded {
        Some((root, archived)) => str_eq(root, sessions_root) && archived == (if include_archived {
            1
        } else {
            0
        }),
        None => false,
    }
}

/// What the ledger's scan state says.
pub struct ScanStateDto {
    pub last_cutoff_utc: Option<String>,
    pub last_run_utc: Option<String>,
    pub sessions_root: String,
    pub ledger_token_events: i64,
    pub last_run_new_token_events: i64,
    pub last_run_files_scanned: i64,
    pub last_run_parse_errors: i64,
    pub include_archived: bool,
    pub error: Option<String>,
}

/// The state of a ledger that was never scanned.
pub fn empty_scan_state(sessions_root: &str, include_archived: bool) -> (r: ScanStateDto)
    ensures
        r.last_cutoff_utc is None && r.last_run_utc is None && r.error is None,
        r.sessions_root@ == sessions_root@,
        r.ledger_token_events == 0 && r.last_run_new_token_events == 0,
        r.last_run_files_scanned == 0 && r.last_run_parse_errors == 0,
        r.include_archived == include_archived,
{
    ScanStateDto {
        last_cutoff_utc: None,
        last_run_utc: None,
        sessions_root: sessions_root.to_string(),
        ledger_token_events: 0,
        last_run_new_token_events: 0,
        last_run_files_scanned: 0,
        last_run_parse_errors: 0,
        include_archived,
        error: None,
    }
}

// ---------------------------------------------------------------------------
// Retention, backups and exports
// ---------------------------------------------------------------------------

/// The date `days` days before a date (`None` outside `chrono`'s range).
pub uninterp spec fn days_before(d: CivilDate, days: i64) -> Option<CivilDate>;

/// `NaiveDate::checked_sub_signed(TimeDelta::days(days))`: named by
/// `days_before`.
#[verifier::external_body]
pub(crate) fn subtract_days(d: CivilDate, days: i64) -> (r: Option<CivilDate>)
    requires
        0 <= days <= 3650,
    ensures
        r == days_before(d, days),
        r matches Some(x) ==> 1 <= x.month <= 12 && 1 <= x.day <= 31,
{
    chrono::NaiveDate::from_ymd_opt(d.year, d.month, d.day).and_then(
        |x| x.checked_sub_signed(chrono::TimeDelta::days(days)),
    ).map(
        |x| CivilDate {
            year: chrono::Datelike::year(&x),
            month: chrono::Datelike::month(&x),
            day: chrono::Datelike::day(&x),
        },
    )
}

/// The first date kept by a retention of `retention_days` days counted back
/// from today (`%Y-%m-%d`); nothing where the retention is off (0) or the
/// date falls outside the calendar.
pub open spec fn retention_cutoff_spec(retention_days: i64, today: CivilDate) -> Option<Seq<char>> {
    if retention_days <= 0 {
        None
    } else {
        match days_before(today, retention_days) {
            Some(d) => Some(date_text(d.year, d.month, d.day)),
            None => None,
        }
    }
}

pub fn retention_cutoff(retention_days: i64, today: CivilDate) -> (r: Option<String>)
    requires
        retention_days <= 3650,
    ensures
        crate::status::opt_view(r) == retention_cutoff_spec(retention_days, today),
{
    if retention_days <= 0 {
        return None;
    }
    match subtract_days(today, retention_days) {
        Some(d) => Some(format_date(d)),
        None => None,
    }
}

/// What applying the retention policy did.
pub struct RetentionResultDto {
    pub backup_path: Option<String>,
    pub deleted_count: usize,
    pub cutoff_date: Option<String>,
}

/// A backup of the ledger.
pub struct BackupFileDto {
    pub path: String,
    pub file_name: String,
    pub modified_local: String,
    pub size_bytes: u64,
}

/// What a backup or restore did.
pub struct BackupActionDto {
    pub backup_path: Option<String>,
    pub restored_path: Option<String>,
}

/// What a rebuild did.
pub struct RebuildResultDto {
    pub backup_path: Option<String>,
    pub scan_state: ScanStateDto,
}

/// Where an export was written and how many rows it has.
pub struct ExportResultDto {
    pub path: String,
    pub row_count: usize,
}

/// The file name of a backup taken at a time (`%Y%m%d-%H%M%S`).
pub fn backup_file_name(timestamp: &str) -> (r: String)
    ensures
        r@ == "codex-token-usage-before-rebuild-"@ + timestamp@ + ".sqlite"@,
{
    let mut v = chars_of("codex-token-usage-before-rebuild-");
    extend_str(&mut v, timestamp);
    extend_str(&mut v, ".sqlite");
    string_from(&v)
}

/// Which export.
pub enum ExportKind {
    Detail,
    Summary,
}

/// The file name of an export made at a time (`%Y%m%d-%H%M%S`).
pub fn export_file_name(kind: &ExportKind, timestamp: &str) -> (r: String)
    ensures
        r@ == "codex-token-usage-"@ + (match kind {
            ExportKind::Detail => "detail"@,
            ExportKind::Summary => "project-session-summary"@,
        }) + "-"@ + timestamp@ + ".csv"@,
{
    let mut v = chars_of("codex-token-usage-");
    match kind {
        ExportKind::Detail => extend_str(&mut v, "detail"),
        ExportKind::Summary => extend_str(&mut v, "project-session-summary"),
    }
    extend_str(&mut v, "-");
    extend_str(&mut v, timestamp);
    extend_str(&mut v, ".csv");
    string_from(&v)
}

pub open spec fn backup_view(b: BackupFileDto) -> (Seq<char>, Seq<char>, Seq<char>, u64) {
    (b.path@, b.file_name@, b.modified_local@, b.size_bytes)
}

pub open spec fn backups_view(v: Seq<BackupFileDto>) -> Seq<(Seq<char>, Seq<char>, Seq<char>, u64)> {
    v.map_values(|b: BackupFileDto| backup_view(b))
}

/// Newer backups first: by modification time text, the greatest first.
pub open spec fn newest_first() -> spec_fn(
    (Seq<char>, Seq<char>, Seq<char>, u64),
    (Seq<char>, Seq<char>, Seq<char>, u64),
) -> bool {
    |a: (Seq<char>, Seq<char>, Seq<char>, u64), b: (Seq<char>, Seq<char>, Seq<char>, u64)|
        lex_lt(b.2, a.2)
}

/// The backups, newest first (equal times kept in their order).
pub fn sort_backups(v: Vec<BackupFileDto>) -> (r: Vec<BackupFileDto>)
    ensures
        backups_view(r@) == sort_by(backups_view(v@), newest_first()),
{
    let ghost all = backups_view(v@);
    let ghost lt = newest_first();
    let mut sorted: Vec<BackupFileDto> = Vec::new();
    let mut rest = v;
    let mut i: usize = 0;
    let ghost given = rest@;
    while i < rest.len()
        invariant
            i <= rest.len(),
            rest@ == given,
            lt == newest_first(),
            all == backups_view(given),
            backups_view(sorted@) == sort_by(all.take(i as int), lt),
        decreases rest.len() - i,
    {
        let x = BackupFileDto {
            path: copy_string(&rest[i].path),
            file_name: copy_string(&rest[i].file_name),
            modified_local: copy_string(&rest[i].modified_local),
            size_bytes: rest[i].size_bytes,
        };
        let ghost xv = backup_view(x);
        assert(xv == all[i as int]);
        let xm = chars_of(x.modified_local.as_str());
        let mut j: usize = 0;
        while j < sorted.len() && lex_compare(&chars_of(sorted[j].modified_local.as_str()), &xm)
            != -1
            invariant
                j <= sorted.len(),
                lt == newest_first(),
                xv == backup_view(x),
                xm@ == x.modified_local@,
                forall|k: int| 0 <= k < j ==> !lt(xv, #[trigger] backups_view(sorted@)[k]),
            decreases sorted.len() - j,
        {
            j = j + 1;
        }
        proof {
            let t = all.take(i + 1);
            assert(t.drop_last() == all.take(i as int));
            assert(t.last() == xv);
            lemma_insert_at(backups_view(sorted@), xv, lt, j as int);
        }
        let ghost before = sorted@;
        sorted.insert(j, x);
        assert(backups_view(sorted@) == backups_view(before).take(j as int).push(xv) + backups_view(
            before,
        ).skip(j as int));
        i = i + 1;
    }
    assert(all.take(rest.len() as int) == all);
    sorted
}

/// The backups are listed newest first: no backup's modification time is
/// earlier (as text) than that of one listed after it, and the list holds
/// exactly the backups given.
pub proof fn lemma_backups_newest_first(v: Seq<(Seq<char>, Seq<char>, Seq<char>, u64)>)
    ensures
        forall|i: int, j: int|
            0 <= i < j < sort_by(v, newest_first()).len() ==> !lex_lt(
                (#[trigger] sort_by(v, newest_first())[i]).2,
                (#[trigger] sort_by(v, newest_first())[j]).2,
            ),
        sort_by(v, newest_first()).len() == v.len(),
        forall|x: (Seq<char>, Seq<char>, Seq<char>, u64)|
            #[trigger] sort_by(v, newest_first()).contains(x) == v.contains(x),
{
    let lt = newest_first();
    assert forall|a: Seq<char>| !#[trigger] lex_lt(a, a) by {
        crate::text::lemma_lex_irreflexive(a);
    }
    assert(crate::sorting::strict_order(lt)) by {
        assert forall|a: (Seq<char>, Seq<char>, Seq<char>, u64), b: (Seq<char>, Seq<char>, Seq<char>, u64), c: (Seq<char>, Seq<char>, Seq<char>, u64)|
            #[trigger] lt(a, b) && #[trigger] lt(b, c) implies lt(a, c) by {
            crate::text::lemma_lex_transitive(c.2, b.2, a.2);
        }
    }
    crate::sorting::lemma_sort_sorted(v, lt);
    let r = sort_by(v, lt);
    assert forall|i: int, j: int| 0 <= i < j < r.len() implies !lex_lt(
        (#[trigger] r[i]).2,
        (#[trigger] r[j]).2,
    ) by {
        assert(!lt(r[j], r[i]));
    }
    assert forall|x: (Seq<char>, Seq<char>, Seq<char>, u64)| #[trigger] r.contains(x) == v.contains(x) by {
        crate::sorting::lemma_sort_contains(v, lt, x);
    }
    if v.len() > 0 {
        crate::sorting::lemma_sort_contains(v, lt, v[0]);
    } else {
        assert(r.len() == 0);
    }
}

/// Why a restore was refused.
#[derive(PartialEq, Eq, Structural, Debug, Clone, Copy)]
pub enum RestoreError {
    /// The file is not in the backups folder.
    OutsideBackups,
    /// The file does not exist.
    NotFound,
}

impl RestoreError {
    pub fn message(&self, path: &str) -> (r: String)
        ensures
            *self == RestoreError::OutsideBackups ==> r@
                == "Backup path is outside the managed backups directory."@,
            *self == RestoreError::NotFound ==> r@ == "Backup file not found: "@ + path@,
    {
        match self {
            RestoreError::OutsideBackups => "Backup path is outside the managed backups directory.".to_string(),
            RestoreError::NotFound => concat_str("Backup file not found: ", path),
        }
    }
}

/// Whether a backup may be restored: it lies in the backups folder, and it
/// exists (checked in that order).
pub fn check_restore(inside_backups: bool, exists: bool) -> (r: Result<(), RestoreError>)
    ensures
        !inside_backups ==> r == Err::<(), RestoreError>(RestoreError::OutsideBackups),
        inside_backups && !exists ==> r == Err::<(), RestoreError>(RestoreError::NotFound),
        inside_backups && exists ==> r is Ok,
{
    if !inside_backups {
        return Err(RestoreError::OutsideBackups);
    }
    if !exists {
        return Err(RestoreError::NotFound);
    }
    Ok(())
}

} // verus!
