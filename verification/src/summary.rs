//! The project and session summary, with the counts of sessions and messages
//! under each row.
use vstd::prelude::*;
use crate::groups::{ascending_group_keys, ascending_keys, lemma_ascending_nonempty};
use crate::json::copy_string;
use crate::report::{
    aggregate_reason_spec, aggregate_status, aggregate_status_reason, aggregate_status_spec,
    distinct_field_keys, distinct_keys, group_events, group_of, lemma_group_in_range, short_id,
    short_id_spec, strings_view, strs_view, sum_events, sums_spec, summary_key, token_event_view,
    token_events_view, tree_key_spec, usage_in_range, Field, TokenEvent, TokenEventView,
};
use crate::sorting::{insert_sorted, lemma_insert_at, sort_by};
use crate::status::opt_view;
use crate::text::{chars_of, extend_str, str_eq, string_from};

verus! {

/// The distinct (session, turn) pairs, in the order they first appear.
pub open spec fn distinct_turns(s: Seq<TokenEventView>) -> Seq<(Seq<char>, Seq<char>)>
    decreases s.len(),
{
    if s.len() == 0 {
        Seq::empty()
    } else if distinct_turns(s.drop_last()).contains((s.last().session_id, s.last().turn_id)) {
        distinct_turns(s.drop_last())
    } else {
        distinct_turns(s.drop_last()).push((s.last().session_id, s.last().turn_id))
    }
}

pub fn count_distinct_turns(events: &Vec<TokenEvent>) -> (r: usize)
    ensures
        r == distinct_turns(token_events_view(events@)).len(),
{
    let ghost s = token_events_view(events@);
    let mut seen: Vec<(String, String)> = Vec::new();
    let mut i: usize = 0;
    while i < events.len()
        invariant
            i <= events.len(),
            s == token_events_view(events@),
            crate::names::pairs_view(seen@) == distinct_turns(s.take(i as int)),
        decreases events.len() - i,
    {
        let e = &events[i];
        proof {
            let t = s.take(i + 1);
            assert(t.drop_last() == s.take(i as int));
            assert(t.last() == token_event_view(*e));
        }
        let ghost sv = crate::names::pairs_view(seen@);
        let ghost key = (e.session_id@, e.turn_id@);
        let mut j: usize = 0;
        let mut found = false;
        while j < seen.len()
            invariant
                j <= seen.len(),
                sv == crate::names::pairs_view(seen@),
                key == (e.session_id@, e.turn_id@),
                found == (exists|k: int| 0 <= k < j && #[trigger] sv[k] == key),
            decreases seen.len() - j,
        {
            let ghost old_found = found;
            if str_eq(seen[j].0.as_str(), e.session_id.as_str()) && str_eq(
                seen[j].1.as_str(),
                e.turn_id.as_str(),
            ) {
                found = true;
                assert(sv[j as int] == key);
            }
            proof {
                if !found {
                    assert forall|k: int| 0 <= k < j + 1 implies #[trigger] sv[k] != key by {
                        if k < j {
                            assert(!old_found);
                        }
                    }
                }
            }
            j = j + 1;
        }
        assert(found == sv.contains(key));
        if !found {
            seen.push((copy_string(&e.session_id), copy_string(&e.turn_id)));
            assert(crate::names::pairs_view(seen@) == sv.push(key));
        }
        i = i + 1;
    }
    assert(s.take(events.len() as int) == s);
    seen.len()
}

/// A row of the summary.
pub struct SummaryRowDto {
    pub row_key: String,
    pub parent_key: Option<String>,
    pub has_children: bool,
    pub level: u8,
    pub name: String,
    pub project: String,
    pub session_id: String,
    pub session_count: usize,
    pub message_count: usize,
    pub input_tokens: i64,
    pub cached_input_tokens: i64,
    pub output_tokens: i64,
    pub reasoning_output_tokens: i64,
    pub total_tokens: i64,
    pub status: String,
    pub status_reason: String,
}

pub struct SummaryRowView {
    pub row_key: Seq<char>,
    pub parent_key: Option<Seq<char>>,
    pub has_children: bool,
    pub level: u8,
    pub name: Seq<char>,
    pub project: Seq<char>,
    pub session_id: Seq<char>,
    pub session_count: nat,
    pub message_count: nat,
    pub input_tokens: i64,
    pub cached_input_tokens: i64,
    pub output_tokens: i64,
    pub reasoning_output_tokens: i64,
    pub total_tokens: i64,
    pub status: Seq<char>,
    pub status_reason: Seq<char>,
}

pub open spec fn summary_row_view(r: SummaryRowDto) -> SummaryRowView {
    SummaryRowView {
        row_key: r.row_key@,
        parent_key: opt_view(r.parent_key),
        has_children: r.has_children,
        level: r.level,
        name: r.name@,
        project: r.project@,
        session_id: r.session_id@,
        session_count: r.session_count as nat,
        message_count: r.message_count as nat,
        input_tokens: r.input_tokens,
        cached_input_tokens: r.cached_input_tokens,
        output_tokens: r.output_tokens,
        reasoning_output_tokens: r.reasoning_output_tokens,
        total_tokens: r.total_tokens,
        status: r.status@,
        status_reason: r.status_reason@,
    }
}

pub open spec fn summary_rows_view(v: Seq<SummaryRowDto>) -> Seq<SummaryRowView> {
    v.map_values(|r: SummaryRowDto| summary_row_view(r))
}

/// The summary row of a group: its sums, its number of sessions and of
/// (session, turn) messages, and its grade.
pub open spec fn summary_row_spec(
    row_key: Seq<char>,
    parent_key: Option<Seq<char>>,
    has_children: bool,
    level: u8,
    name: Seq<char>,
    project: Seq<char>,
    session_id: Seq<char>,
    s: Seq<TokenEventView>,
) -> SummaryRowView {
    let sums = sums_spec(s);
    SummaryRowView {
        row_key,
        parent_key,
        has_children,
        level,
        name,
        project,
        session_id,
        session_count: distinct_keys(s, Field::Session).len(),
        message_count: distinct_turns(s).len(),
        input_tokens: sums.input_tokens,
        cached_input_tokens: sums.cached_input_tokens,
        output_tokens: sums.output_tokens,
        reasoning_output_tokens: sums.reasoning_output_tokens,
        total_tokens: sums.total_tokens,
        status: aggregate_status_spec(s),
        status_reason: aggregate_reason_spec(s),
    }
}

pub fn summary_row(
    row_key: String,
    parent_key: Option<String>,
    has_children: bool,
    level: u8,
    name: &str,
    project: &str,
    session_id: &str,
    events: &Vec<TokenEvent>,
) -> (r: SummaryRowDto)
    requires
        usage_in_range(token_events_view(events@)),
    ensures
        summary_row_view(r) == summary_row_spec(
            row_key@,
            opt_view(parent_key),
            has_children,
            level,
            name@,
            project@,
            session_id@,
            token_events_view(events@),
        ),
{
    let sums = sum_events(events);
    let sessions = distinct_field_keys(events, &Field::Session);
    let ghost sv = strings_view(sessions@);
    assert(sv.len() == sessions.len());
    SummaryRowDto {
        row_key,
        parent_key,
        has_children,
        level,
        name: name.to_string(),
        project: project.to_string(),
        session_id: session_id.to_string(),
        session_count: sessions.len(),
        message_count: count_distinct_turns(events),
        input_tokens: sums.input_tokens,
        cached_input_tokens: sums.cached_input_tokens,
        output_tokens: sums.output_tokens,
        reasoning_output_tokens: sums.reasoning_output_tokens,
        total_tokens: sums.total_tokens,
        status: aggregate_status(events),
        status_reason: aggregate_status_reason(events),
    }
}

/// A session row comes before another when its total is greater.
pub open spec fn larger_total_first() -> spec_fn(SummaryRowView, SummaryRowView) -> bool {
    |a: SummaryRowView, b: SummaryRowView| b.total_tokens < a.total_tokens
}

/// The rows of the sessions of a project, in the order of their ids.
pub open spec fn session_summary_rows(
    p: Seq<char>,
    project_key: Seq<char>,
    pe: Seq<TokenEventView>,
    keys: Seq<Seq<char>>,
) -> Seq<SummaryRowView>
    decreases keys.len(),
{
    if keys.len() == 0 {
        Seq::empty()
    } else {
        session_summary_rows(p, project_key, pe, keys.drop_last()).push(
            summary_row_spec(
                tree_key_spec("summary"@, "session"@, seq![p, keys.last()]),
                Some(project_key),
                false,
                1,
                "session "@ + short_id_spec(keys.last()),
                p,
                keys.last(),
                group_of(pe, Field::Session, keys.last()),
            ),
        )
    }
}

/// At most the first `n` elements.
pub open spec fn take_at_most<T>(s: Seq<T>, n: nat) -> Seq<T> {
    if s.len() <= n {
        s
    } else {
        s.take(n as int)
    }
}

/// A project of the summary: its row and its eight largest sessions.
pub open spec fn project_summary_spec(p: Seq<char>, pe: Seq<TokenEventView>) -> Seq<SummaryRowView> {
    let key = tree_key_spec("summary"@, "project"@, seq![p]);
    seq![summary_row_spec(key, None, true, 0, p, p, Seq::empty(), pe)] + take_at_most(
        sort_by(
            session_summary_rows(p, key, pe, ascending_keys(pe, Field::Session)),
            larger_total_first(),
        ),
        8,
    )
}

pub open spec fn projects_summary_spec(s: Seq<TokenEventView>, keys: Seq<Seq<char>>) -> Seq<
    SummaryRowView,
>
    decreases keys.len(),
{
    if keys.len() == 0 {
        Seq::empty()
    } else {
        projects_summary_spec(s, keys.drop_last()) + project_summary_spec(
            keys.last(),
            group_of(s, Field::Project, keys.last()),
        )
    }
}

/// The summary without a limit: the projects in the order of their names.
pub open spec fn all_summary_rows(s: Seq<TokenEventView>) -> Seq<SummaryRowView> {
    projects_summary_spec(s, ascending_keys(s, Field::Project))
}

fn copy_summary_row(r: &SummaryRowDto) -> (c: SummaryRowDto)
    ensures
        summary_row_view(c) == summary_row_view(*r),
{
    SummaryRowDto {
        row_key: copy_string(&r.row_key),
        parent_key: crate::session::copy_opt(&r.parent_key),
        has_children: r.has_children,
        level: r.level,
        name: copy_string(&r.name),
        project: copy_string(&r.project),
        session_id: copy_string(&r.session_id),
        session_count: r.session_count,
        message_count: r.message_count,
        input_tokens: r.input_tokens,
        cached_input_tokens: r.cached_input_tokens,
        output_tokens: r.output_tokens,
        reasoning_output_tokens: r.reasoning_output_tokens,
        total_tokens: r.total_tokens,
        status: copy_string(&r.status),
        status_reason: copy_string(&r.status_reason),
    }
}

/// Rows sorted by total, the largest first, equal totals kept in order.
fn sort_rows_by_total(rows: &Vec<SummaryRowDto>) -> (r: Vec<SummaryRowDto>)
    ensures
        summary_rows_view(r@) == sort_by(summary_rows_view(rows@), larger_total_first()),
{
    let ghost all = summary_rows_view(rows@);
    let ghost lt = larger_total_first();
    let mut sorted: Vec<SummaryRowDto> = Vec::new();
    let mut i: usize = 0;
    while i < rows.len()
        invariant
            i <= rows.len(),
            lt == larger_total_first(),
            all == summary_rows_view(rows@),
            summary_rows_view(sorted@) == sort_by(all.take(i as int), lt),
        decreases rows.len() - i,
    {
        let x = copy_summary_row(&rows[i]);
        let ghost xv = summary_row_view(x);
        assert(xv == all[i as int]);
        let mut j: usize = 0;
        while j < sorted.len() && !(sorted[j].total_tokens < x.total_tokens)
            invariant
                j <= sorted.len(),
                lt == larger_total_first(),
                xv == summary_row_view(x),
                forall|k: int| 0 <= k < j ==> !lt(xv, #[trigger] summary_rows_view(sorted@)[k]),
            decreases sorted.len() - j,
        {
            j = j + 1;
        }
        proof {
            let sv = summary_rows_view(sorted@);
            let t = all.take(i + 1);
            assert(t.drop_last() == all.take(i as int));
            assert(t.last() == xv);
            lemma_insert_at(sv, xv, lt, j as int);
        }
        let ghost before = sorted@;
        sorted.insert(j, x);
        assert(summary_rows_view(sorted@) == summary_rows_view(before).take(j as int).push(xv)
            + summary_rows_view(before).skip(j as int));
        i = i + 1;
    }
    assert(all.take(rows.len() as int) == all);
    sorted
}

fn push_project_summary(rows: &mut Vec<SummaryRowDto>, project: &str, events: &Vec<TokenEvent>)
    requires
        usage_in_range(token_events_view(events@)),
    ensures
        summary_rows_view(final(rows)@) == summary_rows_view(old(rows)@) + project_summary_spec(
            project@,
            token_events_view(events@),
        ),
{
    let ghost pe = token_events_view(events@);
    let ghost start = summary_rows_view(rows@);
    let parts: [&str; 1] = [project];
    assert(strs_view(parts@) == seq![project@]);
    let project_key = summary_key("project", &parts);
    proof {
        reveal_strlit("");
        assert(""@ == Seq::<char>::empty());
    }
    let row = summary_row(copy_string(&project_key), None, true, 0, project, project, "", events);
    rows.push(row);
    assert(summary_rows_view(rows@) == start.push(summary_row_view(row)));
    let ghost head = summary_rows_view(rows@);
    let keys = ascending_group_keys(events, &Field::Session);
    let ghost ks = ascending_keys(pe, Field::Session);
    let mut session_rows: Vec<SummaryRowDto> = Vec::new();
    let mut i: usize = 0;
    while i < keys.len()
        invariant
            i <= keys.len(),
            pe == token_events_view(events@),
            usage_in_range(pe),
            ks == ascending_keys(pe, Field::Session),
            strings_view(keys@) == ks,
            summary_rows_view(session_rows@) == session_summary_rows(
                project@,
                project_key@,
                pe,
                ks.take(i as int),
            ),
        decreases keys.len() - i,
    {
        let se = group_events(events, &Field::Session, keys[i].as_str());
        proof {
            assert(keys@[i as int]@ == ks[i as int]);
            lemma_group_in_range(pe, Field::Session, ks[i as int]);
            let t = ks.take(i + 1);
            assert(t.drop_last() == ks.take(i as int));
            assert(t.last() == ks[i as int]);
        }
        let sparts: [&str; 2] = [project, keys[i].as_str()];
        assert(strs_view(sparts@) == seq![project@, ks[i as int]]);
        let key = summary_key("session", &sparts);
        let short = short_id(keys[i].as_str());
        let name = crate::text::concat_str("session ", short.as_str());
        let r = summary_row(
            key,
            Some(copy_string(&project_key)),
            false,
            1,
            name.as_str(),
            project,
            keys[i].as_str(),
            &se,
        );
        let ghost before = session_rows@;
        session_rows.push(r);
        assert(summary_rows_view(session_rows@) == summary_rows_view(before).push(
            summary_row_view(r),
        ));
        i = i + 1;
    }
    assert(ks.take(keys.len() as int) == ks);
    let sorted = sort_rows_by_total(&session_rows);
    let ghost sv = summary_rows_view(sorted@);
    let mut k: usize = 0;
    while k < sorted.len() && k < 8
        invariant
            k <= sorted.len(),
            k <= 8,
            sv == summary_rows_view(sorted@),
            summary_rows_view(rows@) == head + sv.take(k as int),
        decreases sorted.len() - k,
    {
        let r = copy_summary_row(&sorted[k]);
        let ghost before = rows@;
        rows.push(r);
        assert(summary_row_view(r) == sv[k as int]);
        assert(summary_rows_view(rows@) == summary_rows_view(before).push(sv[k as int]));
        assert(sv.take(k + 1) == sv.take(k as int).push(sv[k as int]));
        k = k + 1;
    }
    assert(take_at_most(sv, 8) == sv.take(k as int));
    assert(summary_row_view(row) == summary_row_spec(
        project_key@,
        None,
        true,
        0,
        project@,
        project@,
        Seq::empty(),
        pe,
    ));
    assert(summary_rows_view(session_rows@) == session_summary_rows(project@, project_key@, pe, ks));
    assert(sv == sort_by(
        session_summary_rows(project@, project_key@, pe, ks),
        larger_total_first(),
    ));
    assert(summary_rows_view(rows@) == start + (seq![summary_row_view(row)] + take_at_most(sv, 8)));
}

/// Every row of the summary, without a limit.
pub fn all_summary_rows_exec(events: &Vec<TokenEvent>) -> (r: Vec<SummaryRowDto>)
    requires
        usage_in_range(token_events_view(events@)),
    ensures
        summary_rows_view(r@) == all_summary_rows(token_events_view(events@)),
{
    let ghost s = token_events_view(events@);
    let mut rows: Vec<SummaryRowDto> = Vec::new();
    let keys = ascending_group_keys(events, &Field::Project);
    let ghost ks = ascending_keys(s, Field::Project);
    assert(summary_rows_view(rows@) == Seq::<SummaryRowView>::empty());
    let mut i: usize = 0;
    while i < keys.len()
        invariant
            i <= keys.len(),
            s == token_events_view(events@),
            usage_in_range(s),
            ks == ascending_keys(s, Field::Project),
            strings_view(keys@) == ks,
            summary_rows_view(rows@) == projects_summary_spec(s, ks.take(i as int)),
        decreases keys.len() - i,
    {
        let pe = group_events(events, &Field::Project, keys[i].as_str());
        proof {
            assert(keys@[i as int]@ == ks[i as int]);
            lemma_group_in_range(s, Field::Project, ks[i as int]);
            let t = ks.take(i + 1);
            assert(t.drop_last() == ks.take(i as int));
            assert(t.last() == ks[i as int]);
        }
        push_project_summary(&mut rows, keys[i].as_str(), &pe);
        i = i + 1;
    }
    assert(ks.take(keys.len() as int) == ks);
    rows
}

/// The position of the row that fills the limit: the listing checks the
/// limit after every row.
pub open spec fn summary_stop(limit: nat, len: nat) -> Option<int> {
    if limit == 0 && len > 0 {
        Some(0)
    } else if 0 < limit <= len {
        Some(limit - 1)
    } else {
        None
    }
}

/// The first project row from position `i`.
pub open spec fn next_project_row(rows: Seq<SummaryRowView>, i: int) -> Option<int>
    decreases rows.len() - i,
{
    if i < 0 || i >= rows.len() {
        None
    } else if rows[i].level == 0 {
        Some(i)
    } else {
        next_project_row(rows, i + 1)
    }
}

/// The summary under a limit: up to the row that fills it. Where that is a
/// session row, only its project ends: the next project's row is still
/// listed.
pub open spec fn summary_cut(rows: Seq<SummaryRowView>, limit: nat) -> Seq<SummaryRowView> {
    match summary_stop(limit, rows.len()) {
        None => rows,
        Some(i) => if rows[i].level == 0 {
            rows.take(i + 1)
        } else {
            match next_project_row(rows, i + 1) {
                Some(j) => rows.take(i + 1).push(rows[j]),
                None => rows.take(i + 1),
            }
        },
    }
}

pub open spec fn summary_rows_spec(s: Seq<TokenEventView>, limit: nat) -> Seq<SummaryRowView> {
    summary_cut(all_summary_rows(s), limit)
}

pub fn build_summary_rows(events: &Vec<TokenEvent>, limit: usize) -> (r: Vec<SummaryRowDto>)
    requires
        usage_in_range(token_events_view(events@)),
    ensures
        summary_rows_view(r@) == summary_rows_spec(token_events_view(events@), limit as nat),
{
    let mut rows = all_summary_rows_exec(events);
    let ghost all = summary_rows_view(rows@);
    if rows.len() == 0 || limit > rows.len() {
        return rows;
    }
    let i: usize = if limit == 0 {
        0
    } else {
        limit - 1
    };
    assert(summary_stop(limit as nat, all.len()) == Some(i as int));
    assert(all[i as int] == summary_row_view(rows@[i as int]));
    if rows[i].level == 0 {
        rows.truncate(i + 1);
        assert(summary_rows_view(rows@) == all.take(i + 1));
        return rows;
    }
    let mut j: usize = i + 1;
    while j < rows.len() && rows[j].level != 0
        invariant
            i < j <= rows.len(),
            all == summary_rows_view(rows@),
            next_project_row(all, i + 1) == next_project_row(all, j as int),
        decreases rows.len() - j,
    {
        assert(all[j as int] == summary_row_view(rows@[j as int]));
        j = j + 1;
    }
    if j == rows.len() {
        rows.truncate(i + 1);
        assert(summary_rows_view(rows@) == all.take(i + 1));
        return rows;
    }
    assert(all[j as int] == summary_row_view(rows@[j as int]));
    let extra = rows.remove(j);
    rows.truncate(i + 1);
    rows.push(extra);
    assert(summary_rows_view(rows@) == all.take(i + 1).push(all[j as int]));
    rows
}

proof fn lemma_session_rows_at(
    p: Seq<char>,
    project_key: Seq<char>,
    pe: Seq<TokenEventView>,
    keys: Seq<Seq<char>>,
)
    ensures
        session_summary_rows(p, project_key, pe, keys).len() == keys.len(),
        forall|i: int|
            0 <= i < keys.len() ==> (#[trigger] session_summary_rows(p, project_key, pe, keys)[i]).session_id
                == keys[i] && session_summary_rows(p, project_key, pe, keys)[i].total_tokens
                == crate::report::usage_sum(group_of(pe, Field::Session, keys[i]), crate::report::Usage::Total) as i64,
    decreases keys.len(),
{
    if keys.len() > 0 {
        lemma_session_rows_at(p, project_key, pe, keys.drop_last());
        let r = session_summary_rows(p, project_key, pe, keys);
        assert forall|i: int| 0 <= i < keys.len() - 1 implies #[trigger] r[i]
            == session_summary_rows(p, project_key, pe, keys.drop_last())[i] by {}
    }
}

/// A project of the summary lists its largest sessions: at most eight, each
/// with the true sum of its tokens, the largest first; no session of the
/// project left out has more tokens than the last one listed, and where
/// fewer than eight are listed, every session is.
pub proof fn lemma_summary_sessions_largest(p: Seq<char>, pe: Seq<TokenEventView>)
    requires
        usage_in_range(pe),
    ensures
        1 <= project_summary_spec(p, pe).len() <= 9,
        forall|i: int|
            1 <= i < project_summary_spec(p, pe).len() ==> (#[trigger] project_summary_spec(
                p,
                pe,
            )[i]).total_tokens == crate::report::usage_sum(
                group_of(pe, Field::Session, project_summary_spec(p, pe)[i].session_id),
                crate::report::Usage::Total,
            ),
        forall|i: int, j: int|
            1 <= i < j < project_summary_spec(p, pe).len() ==> (#[trigger] project_summary_spec(
                p,
                pe,
            )[i]).total_tokens >= (#[trigger] project_summary_spec(p, pe)[j]).total_tokens,
        forall|i: int|
            0 <= i < pe.len() && (forall|j: int|
                1 <= j < project_summary_spec(p, pe).len() ==> (#[trigger] project_summary_spec(
                    p,
                    pe,
                )[j]).session_id != pe[i].session_id) ==> project_summary_spec(p, pe).len() == 9
                && crate::report::usage_sum(
                group_of(pe, Field::Session, #[trigger] pe[i].session_id),
                crate::report::Usage::Total,
            ) <= project_summary_spec(p, pe)[8].total_tokens,
{
    let key = tree_key_spec("summary"@, "project"@, seq![p]);
    let ks = ascending_keys(pe, Field::Session);
    let rows = session_summary_rows(p, key, pe, ks);
    let lt = larger_total_first();
    let sorted = sort_by(rows, lt);
    let tk = take_at_most(sorted, 8);
    let r = project_summary_spec(p, pe);
    lemma_session_rows_at(p, key, pe, ks);
    if rows.len() > 0 {
        crate::sorting::lemma_sort_contains(rows, lt, rows[0]);
    }
    crate::sorting::lemma_sort_contains(rows, lt, r[0]);
    assert(sorted.len() == rows.len());
    assert forall|i: int| 1 <= i < r.len() implies #[trigger] r[i] == sorted[i - 1] by {
        assert(r[i] == tk[i - 1]);
    }
    assert(crate::sorting::strict_order(lt));
    crate::sorting::lemma_sort_sorted(rows, lt);
    assert forall|m: int| 0 <= m < sorted.len() implies (#[trigger] sorted[m]).total_tokens
        == crate::report::usage_sum(
        group_of(pe, Field::Session, sorted[m].session_id),
        crate::report::Usage::Total,
    ) by {
        crate::sorting::lemma_sort_contains(rows, lt, sorted[m]);
        assert(sorted.contains(sorted[m]));
        let q = choose|q: int| 0 <= q < rows.len() && rows[q] == sorted[m];
        lemma_group_in_range(pe, Field::Session, ks[q]);
        crate::report::lemma_sum_bounded(group_of(pe, Field::Session, ks[q]), crate::report::Usage::Total);
    }
    assert forall|i: int| 1 <= i < r.len() implies (#[trigger] r[i]).total_tokens
        == crate::report::usage_sum(
        group_of(pe, Field::Session, r[i].session_id),
        crate::report::Usage::Total,
    ) by {
        assert(r[i] == sorted[i - 1]);
    }
    assert forall|i: int, j: int| 1 <= i < j < r.len() implies (#[trigger] r[i]).total_tokens
        >= (#[trigger] r[j]).total_tokens by {
        assert(r[i] == sorted[i - 1]);
        assert(r[j] == sorted[j - 1]);
        assert(!lt(sorted[j - 1], sorted[i - 1]));
    }
    assert forall|i: int|
        0 <= i < pe.len() && (forall|j: int| 1 <= j < r.len() ==> (#[trigger] r[j]).session_id
            != pe[i].session_id) implies r.len() == 9 && crate::report::usage_sum(
        group_of(pe, Field::Session, #[trigger] pe[i].session_id),
        crate::report::Usage::Total,
    ) <= r[8].total_tokens by {
        let k = pe[i].session_id;
        crate::dashboard::lemma_field_listed(pe, Field::Session, i);
        crate::sorting::lemma_sort_contains(distinct_keys(pe, Field::Session), crate::groups::lex_order(), k);
        let q = choose|q: int| 0 <= q < ks.len() && ks[q] == k;
        assert(rows[q].session_id == k);
        crate::sorting::lemma_sort_contains(rows, lt, rows[q]);
        assert(rows.contains(rows[q]));
        let m = choose|m: int| 0 <= m < sorted.len() && sorted[m] == rows[q];
        if m + 1 < r.len() {
            assert(r[m + 1] == sorted[m]);
        }
        assert(m + 1 >= r.len());
        assert(tk.len() == 8);
        assert(r[8] == sorted[7]);
        assert(!lt(sorted[m], sorted[7]));
        lemma_group_in_range(pe, Field::Session, k);
        crate::report::lemma_sum_bounded(group_of(pe, Field::Session, k), crate::report::Usage::Total);
    }
}

} // verus!
