//! The detail tree: project, session, user input, turn and token count rows,
//! each with the sums, times and grade of the counts under it.
use vstd::prelude::*;
use crate::actions::preview_text;
use crate::groups::{
    lemma_ordered_groups_nonempty, ordered_group_keys, ordered_keys, latest_count_first,
    sort_counts,
};
use crate::json::copy_string;
use crate::names::{
    lookup, lookup_name, pairs_view, project_display_name, project_display_spec, project_tooltip,
    project_tooltip_spec, DisplayNameMaps,
};
use crate::report::{
    aggregate_reason_spec, aggregate_status, aggregate_status_reason, aggregate_status_spec,
    copy_event, detail_key, detail_user_message, detail_user_message_spec, first_earliest,
    group_events, group_of, last_latest, lemma_group_in_range, short_id, short_id_spec,
    strings_view, sum_events, sums_spec, token_count_tooltip, token_event_view,
    token_events_view, token_tooltip_spec, tree_key_spec, strs_view, usage_in_range, Field, TokenEvent,
    TokenEventView, usage_abs_sum, Usage, abs,
};
use crate::sorting::sort_by;
use crate::status::{non_cached_tokens, opt_view, saturating_diff};
use crate::text::{chars_of, extend_chars, extend_str, i64_text, int_text, preview_of, string_from};

verus! {

/// A row of the detail tree.
pub struct DetailRowDto {
    pub row_key: String,
    pub parent_key: Option<String>,
    pub has_children: bool,
    pub level: u8,
    pub kind: String,
    pub node: String,
    pub node_tooltip: String,
    pub start_time: String,
    pub last_time: String,
    pub time: String,
    pub project: String,
    pub session_id: String,
    pub turn_id: String,
    pub event: String,
    pub input_tokens: i64,
    pub cached_input_tokens: i64,
    pub non_cached_input_tokens: i64,
    pub output_tokens: i64,
    pub reasoning_output_tokens: i64,
    pub total_tokens: i64,
    pub status: String,
    pub status_reason: String,
}

pub struct DetailRowView {
    pub row_key: Seq<char>,
    pub parent_key: Option<Seq<char>>,
    pub has_children: bool,
    pub level: u8,
    pub kind: Seq<char>,
    pub node: Seq<char>,
    pub node_tooltip: Seq<char>,
    pub start_time: Seq<char>,
    pub last_time: Seq<char>,
    pub time: Seq<char>,
    pub project: Seq<char>,
    pub session_id: Seq<char>,
    pub turn_id: Seq<char>,
    pub event: Seq<char>,
    pub input_tokens: i64,
    pub cached_input_tokens: i64,
    pub non_cached_input_tokens: i64,
    pub output_tokens: i64,
    pub reasoning_output_tokens: i64,
    pub total_tokens: i64,
    pub status: Seq<char>,
    pub status_reason: Seq<char>,
}

pub open spec fn detail_row_view(r: DetailRowDto) -> DetailRowView {
    DetailRowView {
        row_key: r.row_key@,
        parent_key: opt_view(r.parent_key),
        has_children: r.has_children,
        level: r.level,
        kind: r.kind@,
        node: r.node@,
        node_tooltip: r.node_tooltip@,
        start_time: r.start_time@,
        last_time: r.last_time@,
        time: r.time@,
        project: r.project@,
        session_id: r.session_id@,
        turn_id: r.turn_id@,
        event: r.event@,
        input_tokens: r.input_tokens,
        cached_input_tokens: r.cached_input_tokens,
        non_cached_input_tokens: r.non_cached_input_tokens,
        output_tokens: r.output_tokens,
        reasoning_output_tokens: r.reasoning_output_tokens,
        total_tokens: r.total_tokens,
        status: r.status@,
        status_reason: r.status_reason@,
    }
}

pub open spec fn detail_rows_view(v: Seq<DetailRowDto>) -> Seq<DetailRowView> {
    v.map_values(|r: DetailRowDto| detail_row_view(r))
}

/// The row for a non-empty group of counts: its sums, its first and last
/// local times, the project, session and turn of its first count (`-` above
/// their level), the count's number where it is one count, and its grade.
pub open spec fn detail_row_spec(
    row_key: Seq<char>,
    parent_key: Option<Seq<char>>,
    has_children: bool,
    level: u8,
    kind: Seq<char>,
    node: Seq<char>,
    node_tooltip: Seq<char>,
    s: Seq<TokenEventView>,
    event_index: Option<i64>,
) -> DetailRowView {
    let sums = sums_spec(s);
    let first = first_earliest(s);
    let last = last_latest(s);
    let identity = s[0];
    DetailRowView {
        row_key,
        parent_key,
        has_children,
        level,
        kind,
        node,
        node_tooltip,
        start_time: first.local_time,
        last_time: last.local_time,
        time: if first.utc_time == last.utc_time {
            first.local_time
        } else {
            first.local_time + " ~ "@ + last.local_time
        },
        project: identity.project,
        session_id: if level == 0 {
            "-"@
        } else {
            identity.session_id
        },
        turn_id: if level <= 1 {
            "-"@
        } else {
            identity.turn_id
        },
        event: match event_index {
            Some(v) => "#"@ + int_text(v as int),
            None => "-"@,
        },
        input_tokens: sums.input_tokens,
        cached_input_tokens: sums.cached_input_tokens,
        non_cached_input_tokens: saturating_diff(sums.input_tokens, sums.cached_input_tokens),
        output_tokens: sums.output_tokens,
        reasoning_output_tokens: sums.reasoning_output_tokens,
        total_tokens: sums.total_tokens,
        status: aggregate_status_spec(s),
        status_reason: aggregate_reason_spec(s),
    }
}

fn copy_or_dash(level_shown: bool, s: &String) -> (r: String)
    ensures
        r@ == if level_shown {
            s@
        } else {
            "-"@
        },
{
    if level_shown {
        copy_string(s)
    } else {
        "-".to_string()
    }
}

/// The row for a non-empty group of counts.
pub fn detail_row(
    row_key: String,
    parent_key: Option<String>,
    has_children: bool,
    level: u8,
    kind: &str,
    node: String,
    node_tooltip: String,
    events: &Vec<TokenEvent>,
    event_index: Option<i64>,
) -> (r: DetailRowDto)
    requires
        events.len() > 0,
        usage_in_range(token_events_view(events@)),
    ensures
        detail_row_view(r) == detail_row_spec(
            row_key@,
            opt_view(parent_key),
            has_children,
            level,
            kind@,
            node@,
            node_tooltip@,
            token_events_view(events@),
            event_index,
        ),
{
    let ghost s = token_events_view(events@);
    let sums = sum_events(events);
    let (a, b) = crate::report::earliest_and_latest(events);
    let first = &events[a];
    let last = &events[b];
    let identity = &events[0];
    assert(s[0] == token_event_view(events@[0]));
    let same = crate::text::str_eq(first.utc_time.as_str(), last.utc_time.as_str());
    let time = if same {
        copy_string(&first.local_time)
    } else {
        let mut v = chars_of(first.local_time.as_str());
        extend_str(&mut v, " ~ ");
        extend_str(&mut v, last.local_time.as_str());
        string_from(&v)
    };
    let event = match event_index {
        Some(v) => {
            let mut c = chars_of("#");
            let n = i64_text(v);
            extend_chars(&mut c, &n);
            string_from(&c)
        },
        None => "-".to_string(),
    };
    DetailRowDto {
        row_key,
        parent_key,
        has_children,
        level,
        kind: kind.to_string(),
        node,
        node_tooltip,
        start_time: copy_string(&first.local_time),
        last_time: copy_string(&last.local_time),
        time,
        project: copy_string(&identity.project),
        session_id: copy_or_dash(level != 0, &identity.session_id),
        turn_id: copy_or_dash(level > 1, &identity.turn_id),
        event,
        input_tokens: sums.input_tokens,
        cached_input_tokens: sums.cached_input_tokens,
        non_cached_input_tokens: non_cached_tokens(sums.input_tokens, sums.cached_input_tokens),
        output_tokens: sums.output_tokens,
        reasoning_output_tokens: sums.reasoning_output_tokens,
        total_tokens: sums.total_tokens,
        status: aggregate_status(events),
        status_reason: aggregate_status_reason(events),
    }
}

// ---------------------------------------------------------------------------
// The tree
// ---------------------------------------------------------------------------

/// The row of one token count of a turn.
pub open spec fn token_row_spec(
    sid: Seq<char>,
    tid: Seq<char>,
    user_message: Seq<char>,
    turn_key: Seq<char>,
    e: TokenEventView,
) -> DetailRowView {
    detail_row_spec(
        tree_key_spec("detail"@, "token"@, seq![sid, tid, int_text(e.token_event_index as int)]),
        Some(turn_key),
        false,
        4,
        "TokenCount"@,
        "TokenCount #"@ + int_text(e.token_event_index as int),
        token_tooltip_spec(e, user_message),
        seq![e],
        Some(e.token_event_index),
    )
}

pub open spec fn token_rows_spec(
    sid: Seq<char>,
    tid: Seq<char>,
    user_message: Seq<char>,
    turn_key: Seq<char>,
    s: Seq<TokenEventView>,
) -> Seq<DetailRowView>
    decreases s.len(),
{
    if s.len() == 0 {
        Seq::empty()
    } else {
        token_rows_spec(sid, tid, user_message, turn_key, s.drop_last()).push(
            token_row_spec(sid, tid, user_message, turn_key, s.last()),
        )
    }
}

/// A turn: its user input row, its turn row, and its counts, the latest
/// first.
pub open spec fn turn_block_spec(
    sid: Seq<char>,
    session_key: Seq<char>,
    tid: Seq<char>,
    te: Seq<TokenEventView>,
) -> Seq<DetailRowView> {
    let input_key = tree_key_spec("detail"@, "input"@, seq![sid, tid]);
    let turn_key = tree_key_spec("detail"@, "turn"@, seq![sid, tid]);
    let um = detail_user_message_spec(te);
    seq![
        detail_row_spec(
            input_key,
            Some(session_key),
            true,
            2,
            "UserInput"@,
            "用户输入  "@ + preview_of(um, 120),
            "用户输入\n"@ + um,
            te,
            None,
        ),
        detail_row_spec(
            turn_key,
            Some(input_key),
            true,
            3,
            "Turn"@,
            "Turn "@ + tid,
            "Turn ID："@ + tid,
            te,
            None,
        ),
    ] + token_rows_spec(sid, tid, um, turn_key, sort_by(te, latest_count_first()))
}

pub open spec fn turns_spec(
    sid: Seq<char>,
    session_key: Seq<char>,
    se: Seq<TokenEventView>,
    keys: Seq<Seq<char>>,
) -> Seq<DetailRowView>
    decreases keys.len(),
{
    if keys.len() == 0 {
        Seq::empty()
    } else {
        turns_spec(sid, session_key, se, keys.drop_last()) + turn_block_spec(
            sid,
            session_key,
            keys.last(),
            group_of(se, Field::Turn, keys.last()),
        )
    }
}

/// How a session is named: its sidebar title, else `Session` and its short id.
pub open spec fn session_node_spec(sid: Seq<char>, titles: Seq<(Seq<char>, Seq<char>)>) -> Seq<char> {
    match lookup(titles, sid) {
        Some(t) => t,
        None => "Session "@ + short_id_spec(sid),
    }
}

/// A session: its row and its turns, the most recent first.
pub open spec fn session_block_spec(
    p: Seq<char>,
    project_key: Seq<char>,
    se: Seq<TokenEventView>,
    sid: Seq<char>,
    titles: Seq<(Seq<char>, Seq<char>)>,
) -> Seq<DetailRowView> {
    let session_key = tree_key_spec("detail"@, "session"@, seq![p, sid]);
    let node = session_node_spec(sid, titles);
    seq![
        detail_row_spec(
            session_key,
            Some(project_key),
            true,
            1,
            "Session"@,
            node,
            node + "\n会话ID："@ + sid,
            se,
            None,
        ),
    ] + turns_spec(sid, session_key, se, ordered_keys(se, Field::Turn))
}

pub open spec fn sessions_spec(
    p: Seq<char>,
    project_key: Seq<char>,
    pe: Seq<TokenEventView>,
    titles: Seq<(Seq<char>, Seq<char>)>,
    keys: Seq<Seq<char>>,
) -> Seq<DetailRowView>
    decreases keys.len(),
{
    if keys.len() == 0 {
        Seq::empty()
    } else {
        sessions_spec(p, project_key, pe, titles, keys.drop_last()) + session_block_spec(
            p,
            project_key,
            group_of(pe, Field::Session, keys.last()),
            keys.last(),
            titles,
        )
    }
}

/// A project: its row and its sessions, the most recent first.
pub open spec fn project_block_spec(
    p: Seq<char>,
    pe: Seq<TokenEventView>,
    titles: Seq<(Seq<char>, Seq<char>)>,
    labels: Seq<(Seq<char>, Seq<char>)>,
) -> Seq<DetailRowView> {
    let key = tree_key_spec("detail"@, "project"@, seq![p]);
    let node = project_display_spec(p, pe, labels);
    seq![
        detail_row_spec(
            key,
            None,
            true,
            0,
            "Project"@,
            node,
            project_tooltip_spec(node, p, pe),
            pe,
            None,
        ),
    ] + sessions_spec(p, key, pe, titles, ordered_keys(pe, Field::Session))
}

pub open spec fn projects_spec(
    s: Seq<TokenEventView>,
    titles: Seq<(Seq<char>, Seq<char>)>,
    labels: Seq<(Seq<char>, Seq<char>)>,
    keys: Seq<Seq<char>>,
) -> Seq<DetailRowView>
    decreases keys.len(),
{
    if keys.len() == 0 {
        Seq::empty()
    } else {
        projects_spec(s, titles, labels, keys.drop_last()) + project_block_spec(
            keys.last(),
            group_of(s, Field::Project, keys.last()),
            titles,
            labels,
        )
    }
}

/// The whole tree: the projects, the most recent first.
pub open spec fn all_detail_rows(
    s: Seq<TokenEventView>,
    titles: Seq<(Seq<char>, Seq<char>)>,
    labels: Seq<(Seq<char>, Seq<char>)>,
) -> Seq<DetailRowView> {
    projects_spec(s, titles, labels, ordered_keys(s, Field::Project))
}

fn push_row(rows: &mut Vec<DetailRowDto>, row: DetailRowDto)
    ensures
        detail_rows_view(final(rows)@) == detail_rows_view(old(rows)@).push(detail_row_view(row)),
{
    rows.push(row);
    assert(detail_rows_view(rows@) == detail_rows_view(old(rows)@).push(detail_row_view(row)));
}

/// Adds the row of a group of counts to `rows`; an empty group adds nothing.
pub fn push_detail_row(
    rows: &mut Vec<DetailRowDto>,
    row_key: String,
    parent_key: Option<String>,
    has_children: bool,
    level: u8,
    kind: &str,
    node: String,
    node_tooltip: String,
    events: &Vec<TokenEvent>,
    event_index: Option<i64>,
)
    requires
        usage_in_range(token_events_view(events@)),
    ensures
        events.len() == 0 ==> final(rows)@ == old(rows)@,
        events.len() > 0 ==> detail_rows_view(final(rows)@) == detail_rows_view(old(rows)@).push(
            detail_row_spec(
                row_key@,
                opt_view(parent_key),
                has_children,
                level,
                kind@,
                node@,
                node_tooltip@,
                token_events_view(events@),
                event_index,
            ),
        ),
{
    if events.len() == 0 {
        return;
    }
    let row = detail_row(
        row_key,
        parent_key,
        has_children,
        level,
        kind,
        node,
        node_tooltip,
        events,
        event_index,
    );
    push_row(rows, row);
}

fn push_token_rows(
    rows: &mut Vec<DetailRowDto>,
    sid: &str,
    tid: &str,
    user_message: &str,
    turn_key: &String,
    events: &Vec<TokenEvent>,
)
    requires
        usage_in_range(token_events_view(events@)),
    ensures
        detail_rows_view(final(rows)@) == detail_rows_view(old(rows)@) + token_rows_spec(
            sid@,
            tid@,
            user_message@,
            turn_key@,
            token_events_view(events@),
        ),
{
    let ghost s = token_events_view(events@);
    let ghost start = detail_rows_view(rows@);
    let mut i: usize = 0;
    while i < events.len()
        invariant
            i <= events.len(),
            s == token_events_view(events@),
            usage_in_range(s),
            detail_rows_view(rows@) == start + token_rows_spec(
                sid@,
                tid@,
                user_message@,
                turn_key@,
                s.take(i as int),
            ),
        decreases events.len() - i,
    {
        let e = &events[i];
        proof {
            let t = s.take(i + 1);
            assert(t.drop_last() == s.take(i as int));
            assert(t.last() == token_event_view(*e));
            crate::report::lemma_single_in_range(s, i as int);
        }
        let n = i64_text(e.token_event_index);
        let index_text = string_from(&n);
        let parts: [&str; 3] = [sid, tid, index_text.as_str()];
        let key = detail_key("token", &parts);
        assert(strs_view(parts@) == seq![sid@, tid@, int_text(e.token_event_index as int)]);
        let mut node = chars_of("TokenCount #");
        extend_chars(&mut node, &n);
        let single = vec![copy_event(e)];
        assert(token_events_view(single@) == seq![token_event_view(*e)]);
        push_detail_row(
            rows,
            key,
            Some(copy_string(turn_key)),
            false,
            4,
            "TokenCount",
            string_from(&node),
            token_count_tooltip(e, user_message),
            &single,
            Some(e.token_event_index),
        );
        i = i + 1;
    }
    assert(s.take(events.len() as int) == s);
}

/// Sums of magnitudes do not depend on the order.
pub proof fn lemma_insert_abs_sum(t: Seq<TokenEventView>, x: TokenEventView, u: Usage)
    ensures
        usage_abs_sum(crate::sorting::insert_sorted(t, x, latest_count_first()), u)
            == usage_abs_sum(t, u) + abs(crate::report::usage_of(x, u) as int),
    decreases t.len(),
{
    let lt = latest_count_first();
    if t.len() == 0 {
        reveal_with_fuel(usage_abs_sum, 2);
        assert(seq![x].drop_last() == Seq::<TokenEventView>::empty());
    } else {
        lemma_abs_sum_front(t, u);
        if lt(x, t[0]) {
            lemma_abs_sum_front(seq![x] + t, u);
            assert((seq![x] + t).drop_first() == t);
        } else {
            lemma_insert_abs_sum(t.drop_first(), x, u);
            let r = seq![t[0]] + crate::sorting::insert_sorted(t.drop_first(), x, lt);
            lemma_abs_sum_front(r, u);
            assert(r.drop_first() == crate::sorting::insert_sorted(t.drop_first(), x, lt));
        }
    }
}

/// The sum of magnitudes taken from the front.
pub proof fn lemma_abs_sum_front(s: Seq<TokenEventView>, u: Usage)
    requires
        s.len() > 0,
    ensures
        usage_abs_sum(s, u) == abs(crate::report::usage_of(s[0], u) as int) + usage_abs_sum(
            s.drop_first(),
            u,
        ),
    decreases s.len(),
{
    if s.len() == 1 {
        reveal_with_fuel(usage_abs_sum, 2);
        assert(s.drop_last() == Seq::<TokenEventView>::empty());
        assert(s.drop_first() == Seq::<TokenEventView>::empty());
    } else {
        lemma_abs_sum_front(s.drop_last(), u);
        assert(s.drop_last().drop_first() == s.drop_first().drop_last());
        assert(s.drop_first().last() == s.last());
        assert(s.drop_last()[0] == s[0]);
    }
}

pub proof fn lemma_sort_abs_sum(s: Seq<TokenEventView>, u: Usage)
    ensures
        usage_abs_sum(sort_by(s, latest_count_first()), u) == usage_abs_sum(s, u),
    decreases s.len(),
{
    if s.len() > 0 {
        lemma_sort_abs_sum(s.drop_last(), u);
        lemma_insert_abs_sum(sort_by(s.drop_last(), latest_count_first()), s.last(), u);
    }
}

fn push_turn_block(
    rows: &mut Vec<DetailRowDto>,
    sid: &str,
    session_key: &String,
    tid: &str,
    events: &Vec<TokenEvent>,
)
    requires
        events.len() > 0,
        usage_in_range(token_events_view(events@)),
    ensures
        detail_rows_view(final(rows)@) == detail_rows_view(old(rows)@) + turn_block_spec(
            sid@,
            session_key@,
            tid@,
            token_events_view(events@),
        ),
{
    let ghost te = token_events_view(events@);
    let parts: [&str; 2] = [sid, tid];
    assert(strs_view(parts@) == seq![sid@, tid@]);
    let input_key = detail_key("input", &parts);
    let turn_key = detail_key("turn", &parts);
    let user_message = detail_user_message(events);
    let preview = preview_text(user_message.as_str());
    let mut node = chars_of("用户输入  ");
    extend_str(&mut node, preview.as_str());
    let mut tip = chars_of("用户输入\n");
    extend_str(&mut tip, user_message.as_str());
    let ghost start = detail_rows_view(rows@);
    push_detail_row(
        rows,
        copy_string(&input_key),
        Some(copy_string(session_key)),
        true,
        2,
        "UserInput",
        string_from(&node),
        string_from(&tip),
        events,
        None,
    );
    let mut tnode = chars_of("Turn ");
    extend_str(&mut tnode, tid);
    let mut ttip = chars_of("Turn ID：");
    extend_str(&mut ttip, tid);
    push_detail_row(
        rows,
        copy_string(&turn_key),
        Some(input_key),
        true,
        3,
        "Turn",
        string_from(&tnode),
        string_from(&ttip),
        events,
        None,
    );
    let ghost mid = detail_rows_view(rows@);
    let sorted = sort_counts(events);
    proof {
        crate::sorting::lemma_sort_contains(te, latest_count_first(), te[0]);
        assert(forall|u: Usage| #[trigger] usage_abs_sum(sort_by(te, latest_count_first()), u)
            == usage_abs_sum(te, u)) by {
            assert forall|u: Usage| #[trigger] usage_abs_sum(sort_by(te, latest_count_first()), u)
                == usage_abs_sum(te, u) by {
                lemma_sort_abs_sum(te, u);
            }
        }
    }
    push_token_rows(rows, sid, tid, user_message.as_str(), &turn_key, &sorted);
    assert(detail_rows_view(rows@) == start + turn_block_spec(sid@, session_key@, tid@, te));
}

fn push_session_block(
    rows: &mut Vec<DetailRowDto>,
    project: &str,
    project_key: &String,
    events: &Vec<TokenEvent>,
    sid: &str,
    names: &DisplayNameMaps,
)
    requires
        events.len() > 0,
        usage_in_range(token_events_view(events@)),
    ensures
        detail_rows_view(final(rows)@) == detail_rows_view(old(rows)@) + session_block_spec(
            project@,
            project_key@,
            token_events_view(events@),
            sid@,
            pairs_view(names.session_titles@),
        ),
{
    let ghost se = token_events_view(events@);
    let ghost start = detail_rows_view(rows@);
    let parts: [&str; 2] = [project, sid];
    assert(strs_view(parts@) == seq![project@, sid@]);
    let session_key = detail_key("session", &parts);
    let node = match lookup_name(&names.session_titles, sid) {
        Some(t) => t,
        None => {
            let short = short_id(sid);
            let mut v = chars_of("Session ");
            extend_str(&mut v, short.as_str());
            string_from(&v)
        },
    };
    let mut tip = chars_of(node.as_str());
    extend_str(&mut tip, "\n会话ID：");
    extend_str(&mut tip, sid);
    push_detail_row(
        rows,
        copy_string(&session_key),
        Some(copy_string(project_key)),
        true,
        1,
        "Session",
        node,
        string_from(&tip),
        events,
        None,
    );
    let ghost head = detail_rows_view(rows@);
    let keys = ordered_group_keys(events, &Field::Turn);
    let ghost ks = ordered_keys(se, Field::Turn);
    let mut i: usize = 0;
    while i < keys.len()
        invariant
            i <= keys.len(),
            se == token_events_view(events@),
            usage_in_range(se),
            ks == ordered_keys(se, Field::Turn),
            strings_view(keys@) == ks,
            detail_rows_view(rows@) == head + turns_spec(sid@, session_key@, se, ks.take(i as int)),
        decreases keys.len() - i,
    {
        let te = group_events(events, &Field::Turn, keys[i].as_str());
        proof {
            assert(keys@[i as int]@ == ks[i as int]);
            lemma_ordered_groups_nonempty(se, Field::Turn, i as int);
            lemma_group_in_range(se, Field::Turn, ks[i as int]);
            let t = ks.take(i + 1);
            assert(t.drop_last() == ks.take(i as int));
            assert(t.last() == ks[i as int]);
        }
        push_turn_block(rows, sid, &session_key, keys[i].as_str(), &te);
        i = i + 1;
    }
    assert(ks.take(keys.len() as int) == ks);
}

fn push_project_block(
    rows: &mut Vec<DetailRowDto>,
    project: &str,
    events: &Vec<TokenEvent>,
    names: &DisplayNameMaps,
)
    requires
        events.len() > 0,
        usage_in_range(token_events_view(events@)),
    ensures
        detail_rows_view(final(rows)@) == detail_rows_view(old(rows)@) + project_block_spec(
            project@,
            token_events_view(events@),
            pairs_view(names.session_titles@),
            pairs_view(names.workspace_labels@),
        ),
{
    let ghost pe = token_events_view(events@);
    let ghost titles = pairs_view(names.session_titles@);
    let parts: [&str; 1] = [project];
    assert(strs_view(parts@) == seq![project@]);
    let project_key = detail_key("project", &parts);
    let node = project_display_name(project, events, names);
    let tip = project_tooltip(node.as_str(), project, events);
    push_detail_row(
        rows,
        copy_string(&project_key),
        None,
        true,
        0,
        "Project",
        node,
        tip,
        events,
        None,
    );
    let ghost head = detail_rows_view(rows@);
    let keys = ordered_group_keys(events, &Field::Session);
    let ghost ks = ordered_keys(pe, Field::Session);
    let mut i: usize = 0;
    while i < keys.len()
        invariant
            i <= keys.len(),
            pe == token_events_view(events@),
            titles == pairs_view(names.session_titles@),
            usage_in_range(pe),
            ks == ordered_keys(pe, Field::Session),
            strings_view(keys@) == ks,
            detail_rows_view(rows@) == head + sessions_spec(
                project@,
                project_key@,
                pe,
                titles,
                ks.take(i as int),
            ),
        decreases keys.len() - i,
    {
        let se = group_events(events, &Field::Session, keys[i].as_str());
        proof {
            assert(keys@[i as int]@ == ks[i as int]);
            lemma_ordered_groups_nonempty(pe, Field::Session, i as int);
            lemma_group_in_range(pe, Field::Session, ks[i as int]);
            let t = ks.take(i + 1);
            assert(t.drop_last() == ks.take(i as int));
            assert(t.last() == ks[i as int]);
        }
        push_session_block(rows, project, &project_key, &se, keys[i].as_str(), names);
        i = i + 1;
    }
    assert(ks.take(keys.len() as int) == ks);
}

/// Every row of the tree, without a limit.
pub fn all_detail_rows_exec(events: &Vec<TokenEvent>, names: &DisplayNameMaps) -> (r: Vec<
    DetailRowDto,
>)
    requires
        usage_in_range(token_events_view(events@)),
    ensures
        detail_rows_view(r@) == all_detail_rows(
            token_events_view(events@),
            pairs_view(names.session_titles@),
            pairs_view(names.workspace_labels@),
        ),
{
    let ghost s = token_events_view(events@);
    let ghost titles = pairs_view(names.session_titles@);
    let ghost labels = pairs_view(names.workspace_labels@);
    let mut rows: Vec<DetailRowDto> = Vec::new();
    let keys = ordered_group_keys(events, &Field::Project);
    let ghost ks = ordered_keys(s, Field::Project);
    assert(detail_rows_view(rows@) == Seq::<DetailRowView>::empty());
    let mut i: usize = 0;
    while i < keys.len()
        invariant
            i <= keys.len(),
            s == token_events_view(events@),
            titles == pairs_view(names.session_titles@),
            labels == pairs_view(names.workspace_labels@),
            usage_in_range(s),
            ks == ordered_keys(s, Field::Project),
            strings_view(keys@) == ks,
            detail_rows_view(rows@) == projects_spec(s, titles, labels, ks.take(i as int)),
        decreases keys.len() - i,
    {
        let pe = group_events(events, &Field::Project, keys[i].as_str());
        proof {
            assert(keys@[i as int]@ == ks[i as int]);
            lemma_ordered_groups_nonempty(s, Field::Project, i as int);
            lemma_group_in_range(s, Field::Project, ks[i as int]);
            let t = ks.take(i + 1);
            assert(t.drop_last() == ks.take(i as int));
            assert(t.last() == ks[i as int]);
        }
        push_project_block(&mut rows, keys[i].as_str(), &pe, names);
        i = i + 1;
    }
    assert(ks.take(keys.len() as int) == ks);
    rows
}

// ---------------------------------------------------------------------------
// The limit
// ---------------------------------------------------------------------------

/// The first row from position `i` after which the listing checks the limit
/// and finds it reached: every row but a user input row is followed by such
/// a check.
pub open spec fn first_stop(rows: Seq<DetailRowView>, limit: nat, i: int) -> Option<int>
    decreases rows.len() - i,
{
    if i < 0 || i >= rows.len() {
        None
    } else if i + 1 >= limit && rows[i].level != 2 {
        Some(i)
    } else {
        first_stop(rows, limit, i + 1)
    }
}

/// The first project row from position `i`.
pub open spec fn next_project(rows: Seq<DetailRowView>, i: int) -> Option<int>
    decreases rows.len() - i,
{
    if i < 0 || i >= rows.len() {
        None
    } else if rows[i].level == 0 {
        Some(i)
    } else {
        next_project(rows, i + 1)
    }
}

/// The rows listed under a limit: all of them up to the first check that
/// finds the limit reached. A check below a project row only ends that
/// project: the next project's row is still listed, and its own check ends
/// the listing.
pub open spec fn cut_rows(rows: Seq<DetailRowView>, limit: nat) -> Seq<DetailRowView> {
    match first_stop(rows, limit, 0) {
        None => rows,
        Some(i) => if rows[i].level == 0 {
            rows.take(i + 1)
        } else {
            match next_project(rows, i + 1) {
                Some(j) => rows.take(i + 1).push(rows[j]),
                None => rows.take(i + 1),
            }
        },
    }
}

/// The detail tree of the events, at most up to `limit` rows as the listing
/// checks it.
pub open spec fn detail_rows_spec(
    s: Seq<TokenEventView>,
    limit: nat,
    titles: Seq<(Seq<char>, Seq<char>)>,
    labels: Seq<(Seq<char>, Seq<char>)>,
) -> Seq<DetailRowView> {
    cut_rows(all_detail_rows(s, titles, labels), limit)
}

pub fn build_detail_rows(events: &Vec<TokenEvent>, limit: usize, names: &DisplayNameMaps) -> (r: Vec<
    DetailRowDto,
>)
    requires
        usage_in_range(token_events_view(events@)),
    ensures
        detail_rows_view(r@) == detail_rows_spec(
            token_events_view(events@),
            limit as nat,
            pairs_view(names.session_titles@),
            pairs_view(names.workspace_labels@),
        ),
{
    let mut rows = all_detail_rows_exec(events, names);
    let ghost all = detail_rows_view(rows@);
    let mut i: usize = 0;
    while i < rows.len() && !(i + 1 >= limit && rows[i].level != 2)
        invariant
            i <= rows.len(),
            all == detail_rows_view(rows@),
            first_stop(all, limit as nat, 0) == first_stop(all, limit as nat, i as int),
        decreases rows.len() - i,
    {
        assert(all[i as int] == detail_row_view(rows@[i as int]));
        i = i + 1;
    }
    if i == rows.len() {
        return rows;
    }
    assert(all[i as int] == detail_row_view(rows@[i as int]));
    if rows[i].level == 0 {
        rows.truncate(i + 1);
        assert(detail_rows_view(rows@) == all.take(i + 1));
        return rows;
    }
    let mut j: usize = i + 1;
    while j < rows.len() && rows[j].level != 0
        invariant
            i < j <= rows.len(),
            all == detail_rows_view(rows@),
            next_project(all, i + 1) == next_project(all, j as int),
        decreases rows.len() - j,
    {
        assert(all[j as int] == detail_row_view(rows@[j as int]));
        j = j + 1;
    }
    if j == rows.len() {
        rows.truncate(i + 1);
        assert(detail_rows_view(rows@) == all.take(i + 1));
        return rows;
    }
    assert(all[j as int] == detail_row_view(rows@[j as int]));
    let extra = rows.remove(j);
    rows.truncate(i + 1);
    let ghost kept = rows@;
    rows.push(extra);
    assert(detail_rows_view(rows@) == all.take(i + 1).push(all[j as int]));
    rows
}

// ---------------------------------------------------------------------------
// Laws of the tree
// ---------------------------------------------------------------------------

/// Every row with a parent names `k` or a row above it; only rows below the
/// top level have a parent.
pub open spec fn tree_links(rows: Seq<DetailRowView>, k: Option<Seq<char>>) -> bool {
    &&& forall|i: int|
        0 <= i < rows.len() && #[trigger] rows[i].parent_key is Some ==> rows[i].parent_key == k
            || exists|j: int| 0 <= j < i && Some(#[trigger] rows[j].row_key) == rows[i].parent_key
    &&& forall|i: int| 0 <= i < rows.len() && #[trigger] rows[i].level == 0 ==> rows[i].parent_key is None
}

proof fn lemma_links_concat(a: Seq<DetailRowView>, b: Seq<DetailRowView>, k: Option<Seq<char>>)
    requires
        tree_links(a, k),
        tree_links(b, k),
    ensures
        tree_links(a + b, k),
{
    let r = a + b;
    assert forall|i: int| 0 <= i < r.len() && #[trigger] r[i].parent_key is Some implies r[i].parent_key
        == k || exists|j: int| 0 <= j < i && Some(#[trigger] r[j].row_key) == r[i].parent_key by {
        if i < a.len() {
            assert(r[i] == a[i]);
            if r[i].parent_key != k {
                let j = choose|j: int| 0 <= j < i && Some(#[trigger] a[j].row_key) == a[i].parent_key;
                assert(r[j] == a[j]);
            }
        } else {
            assert(r[i] == b[i - a.len()]);
            if r[i].parent_key != k {
                let j = choose|j: int|
                    0 <= j < i - a.len() && Some(#[trigger] b[j].row_key) == b[i - a.len()].parent_key;
                assert(r[j + a.len()] == b[j]);
            }
        }
    }
    assert forall|i: int| 0 <= i < r.len() && #[trigger] r[i].level == 0 implies r[i].parent_key is None by {
        if i < a.len() {
            assert(r[i] == a[i]);
        } else {
            assert(r[i] == b[i - a.len()]);
        }
    }
}

proof fn lemma_links_head(row: DetailRowView, rest: Seq<DetailRowView>, k: Option<Seq<char>>)
    requires
        row.parent_key is None || row.parent_key == k,
        row.level == 0 ==> row.parent_key is None,
        tree_links(rest, Some(row.row_key)),
    ensures
        tree_links(seq![row] + rest, k),
{
    let r = seq![row] + rest;
    assert(r[0] == row);
    assert forall|i: int| 0 <= i < r.len() && #[trigger] r[i].parent_key is Some implies r[i].parent_key
        == k || exists|j: int| 0 <= j < i && Some(#[trigger] r[j].row_key) == r[i].parent_key by {
        if i > 0 {
            assert(r[i] == rest[i - 1]);
            if r[i].parent_key == Some(row.row_key) {
                assert(Some(r[0].row_key) == r[i].parent_key);
            } else {
                let j = choose|j: int|
                    0 <= j < i - 1 && Some(#[trigger] rest[j].row_key) == rest[i - 1].parent_key;
                assert(r[j + 1] == rest[j]);
            }
        }
    }
    assert forall|i: int| 0 <= i < r.len() && #[trigger] r[i].level == 0 implies r[i].parent_key is None by {
        if i > 0 {
            assert(r[i] == rest[i - 1]);
        }
    }
}

proof fn lemma_links_prefix(rows: Seq<DetailRowView>, k: Option<Seq<char>>, n: int)
    requires
        tree_links(rows, k),
        0 <= n <= rows.len(),
    ensures
        tree_links(rows.take(n), k),
{
    let t = rows.take(n);
    assert forall|i: int| 0 <= i < t.len() && #[trigger] t[i].parent_key is Some implies t[i].parent_key
        == k || exists|j: int| 0 <= j < i && Some(#[trigger] t[j].row_key) == t[i].parent_key by {
        assert(t[i] == rows[i]);
        if t[i].parent_key != k {
            let j = choose|j: int| 0 <= j < i && Some(#[trigger] rows[j].row_key) == rows[i].parent_key;
            assert(t[j] == rows[j]);
        }
    }
    assert forall|i: int| 0 <= i < t.len() && #[trigger] t[i].level == 0 implies t[i].parent_key is None by {
        assert(t[i] == rows[i]);
    }
}

proof fn lemma_token_rows_links(
    sid: Seq<char>,
    tid: Seq<char>,
    um: Seq<char>,
    turn_key: Seq<char>,
    s: Seq<TokenEventView>,
)
    ensures
        tree_links(token_rows_spec(sid, tid, um, turn_key, s), Some(turn_key)),
    decreases s.len(),
{
    if s.len() > 0 {
        lemma_token_rows_links(sid, tid, um, turn_key, s.drop_last());
        let row = token_row_spec(sid, tid, um, turn_key, s.last());
        assert(row.parent_key == Some(turn_key));
        assert(row.level == 4);
        assert(tree_links(seq![row], Some(turn_key)));
        lemma_links_concat(
            token_rows_spec(sid, tid, um, turn_key, s.drop_last()),
            seq![row],
            Some(turn_key),
        );
        assert(token_rows_spec(sid, tid, um, turn_key, s) == token_rows_spec(
            sid,
            tid,
            um,
            turn_key,
            s.drop_last(),
        ) + seq![row]);
    }
}

proof fn lemma_turns_links(
    sid: Seq<char>,
    session_key: Seq<char>,
    se: Seq<TokenEventView>,
    keys: Seq<Seq<char>>,
)
    ensures
        tree_links(turns_spec(sid, session_key, se, keys), Some(session_key)),
    decreases keys.len(),
{
    if keys.len() > 0 {
        lemma_turns_links(sid, session_key, se, keys.drop_last());
        let tid = keys.last();
        let te = group_of(se, Field::Turn, tid);
        let input_key = tree_key_spec("detail"@, "input"@, seq![sid, tid]);
        let turn_key = tree_key_spec("detail"@, "turn"@, seq![sid, tid]);
        let um = detail_user_message_spec(te);
        let block = turn_block_spec(sid, session_key, tid, te);
        let tokens = token_rows_spec(sid, tid, um, turn_key, sort_by(te, latest_count_first()));
        lemma_token_rows_links(sid, tid, um, turn_key, sort_by(te, latest_count_first()));
        let input_row = block[0];
        let turn_row = block[1];
        assert(block == seq![input_row] + (seq![turn_row] + tokens));
        lemma_links_head(turn_row, tokens, Some(input_key));
        lemma_links_head(input_row, seq![turn_row] + tokens, Some(session_key));
        lemma_links_concat(turns_spec(sid, session_key, se, keys.drop_last()), block, Some(session_key));
    }
}

proof fn lemma_sessions_links(
    p: Seq<char>,
    project_key: Seq<char>,
    pe: Seq<TokenEventView>,
    titles: Seq<(Seq<char>, Seq<char>)>,
    keys: Seq<Seq<char>>,
)
    ensures
        tree_links(sessions_spec(p, project_key, pe, titles, keys), Some(project_key)),
    decreases keys.len(),
{
    if keys.len() > 0 {
        lemma_sessions_links(p, project_key, pe, titles, keys.drop_last());
        let sid = keys.last();
        let se = group_of(pe, Field::Session, sid);
        let session_key = tree_key_spec("detail"@, "session"@, seq![p, sid]);
        let block = session_block_spec(p, project_key, se, sid, titles);
        let turns = turns_spec(sid, session_key, se, ordered_keys(se, Field::Turn));
        lemma_turns_links(sid, session_key, se, ordered_keys(se, Field::Turn));
        assert(block == seq![block[0]] + turns);
        lemma_links_head(block[0], turns, Some(project_key));
        lemma_links_concat(
            sessions_spec(p, project_key, pe, titles, keys.drop_last()),
            block,
            Some(project_key),
        );
    }
}

proof fn lemma_projects_links(
    s: Seq<TokenEventView>,
    titles: Seq<(Seq<char>, Seq<char>)>,
    labels: Seq<(Seq<char>, Seq<char>)>,
    keys: Seq<Seq<char>>,
)
    ensures
        tree_links(projects_spec(s, titles, labels, keys), None),
    decreases keys.len(),
{
    if keys.len() > 0 {
        lemma_projects_links(s, titles, labels, keys.drop_last());
        let p = keys.last();
        let pe = group_of(s, Field::Project, p);
        let key = tree_key_spec("detail"@, "project"@, seq![p]);
        let block = project_block_spec(p, pe, titles, labels);
        let sessions = sessions_spec(p, key, pe, titles, ordered_keys(pe, Field::Session));
        lemma_sessions_links(p, key, pe, titles, ordered_keys(pe, Field::Session));
        assert(block == seq![block[0]] + sessions);
        lemma_links_head(block[0], sessions, None);
        lemma_links_concat(projects_spec(s, titles, labels, keys.drop_last()), block, None);
    }
}

/// In the detail tree, as listed under any limit, every row that has a
/// parent comes after the row its parent key names: a turn under its user
/// input, the input under its session, the session under its project, a
/// token count under its turn.
pub proof fn lemma_detail_parents_come_first(
    s: Seq<TokenEventView>,
    limit: nat,
    titles: Seq<(Seq<char>, Seq<char>)>,
    labels: Seq<(Seq<char>, Seq<char>)>,
)
    ensures
        forall|i: int|
            0 <= i < detail_rows_spec(s, limit, titles, labels).len() && (
            #[trigger] detail_rows_spec(s, limit, titles, labels)[i]).parent_key is Some ==> exists|
                j: int,
            |
                0 <= j < i && Some(detail_rows_spec(s, limit, titles, labels)[j].row_key)
                    == detail_rows_spec(s, limit, titles, labels)[i].parent_key,
{
    let all = all_detail_rows(s, titles, labels);
    let rows = detail_rows_spec(s, limit, titles, labels);
    lemma_projects_links(s, titles, labels, ordered_keys(s, Field::Project));
    match first_stop(all, limit, 0) {
        None => {},
        Some(i) => {
            lemma_first_stop_range(all, limit, 0);
            lemma_links_prefix(all, None, i + 1);
            if all[i].level != 0 {
                match next_project(all, i + 1) {
                    Some(j) => {
                        lemma_next_project_range(all, i + 1);
                        assert(all[j].level == 0);
                        assert(all[j].parent_key is None);
                        assert(tree_links(seq![all[j]], None));
                        lemma_links_concat(all.take(i + 1), seq![all[j]], None);
                        assert(rows == all.take(i + 1) + seq![all[j]]);
                    },
                    None => {},
                }
            }
        },
    }
    assert forall|i: int| 0 <= i < rows.len() && #[trigger] rows[i].parent_key is Some implies exists|
        j: int,
    | 0 <= j < i && Some(rows[j].row_key) == rows[i].parent_key by {
        assert(tree_links(rows, None));
        let j = choose|j: int| 0 <= j < i && Some(#[trigger] rows[j].row_key) == rows[i].parent_key;
    }
}

proof fn lemma_first_stop_range(rows: Seq<DetailRowView>, limit: nat, i: int)
    ensures
        first_stop(rows, limit, i) matches Some(k) ==> i <= k < rows.len() && rows[k].level != 2,
    decreases rows.len() - i,
{
    if 0 <= i < rows.len() && !(i + 1 >= limit && rows[i].level != 2) {
        lemma_first_stop_range(rows, limit, i + 1);
    }
}

proof fn lemma_next_project_range(rows: Seq<DetailRowView>, i: int)
    ensures
        next_project(rows, i) matches Some(k) ==> i <= k < rows.len() && rows[k].level == 0,
    decreases rows.len() - i,
{
    if 0 <= i < rows.len() && rows[i].level != 0 {
        lemma_next_project_range(rows, i + 1);
    }
}

/// One of a row's five sums.
pub open spec fn row_usage(r: DetailRowView, u: Usage) -> int {
    match u {
        Usage::Input => r.input_tokens as int,
        Usage::Cached => r.cached_input_tokens as int,
        Usage::Output => r.output_tokens as int,
        Usage::Reasoning => r.reasoning_output_tokens as int,
        Usage::Total => r.total_tokens as int,
    }
}

/// A row of counts in range carries their exact sums.
proof fn lemma_row_usage(
    row_key: Seq<char>,
    parent_key: Option<Seq<char>>,
    has_children: bool,
    level: u8,
    kind: Seq<char>,
    node: Seq<char>,
    node_tooltip: Seq<char>,
    s: Seq<TokenEventView>,
    event_index: Option<i64>,
    u: Usage,
)
    requires
        usage_in_range(s),
    ensures
        row_usage(
            detail_row_spec(
                row_key,
                parent_key,
                has_children,
                level,
                kind,
                node,
                node_tooltip,
                s,
                event_index,
            ),
            u,
        ) == crate::report::usage_sum(s, u),
{
    crate::report::lemma_sum_bounded(s, u);
}

/// The turns of a session in the detail tree share out the session's sums:
/// for each of the five counts, the turn rows add up to the session row.
pub proof fn lemma_detail_turns_add_up(
    p: Seq<char>,
    project_key: Seq<char>,
    se: Seq<TokenEventView>,
    sid: Seq<char>,
    titles: Seq<(Seq<char>, Seq<char>)>,
    u: Usage,
)
    requires
        usage_in_range(se),
    ensures
        crate::sorting::sum_of(
            ordered_keys(se, Field::Turn),
            |k: Seq<char>|
                row_usage(
                    turn_block_spec(
                        sid,
                        tree_key_spec("detail"@, "session"@, seq![p, sid]),
                        k,
                        group_of(se, Field::Turn, k),
                    )[0],
                    u,
                ),
        ) == row_usage(session_block_spec(p, project_key, se, sid, titles)[0], u),
{
    let session_key = tree_key_spec("detail"@, "session"@, seq![p, sid]);
    let f = |k: Seq<char>|
        row_usage(turn_block_spec(sid, session_key, k, group_of(se, Field::Turn, k))[0], u);
    let g = crate::groups::group_total(se, Field::Turn, u);
    assert forall|k: Seq<char>| #[trigger] f(k) == g(k) by {
        let te = group_of(se, Field::Turn, k);
        lemma_group_in_range(se, Field::Turn, k);
        let um = detail_user_message_spec(te);
        lemma_row_usage(
            tree_key_spec("detail"@, "input"@, seq![sid, k]),
            Some(session_key),
            true,
            2,
            "UserInput"@,
            "用户输入  "@ + preview_of(um, 120),
            "用户输入\n"@ + um,
            te,
            None,
            u,
        );
    }
    assert(f =~= g);
    crate::groups::lemma_group_totals_add_up(se, Field::Turn, u);
    let node = session_node_spec(sid, titles);
    lemma_row_usage(
        session_key,
        Some(project_key),
        true,
        1,
        "Session"@,
        node,
        node + "\n会话ID："@ + sid,
        se,
        None,
        u,
    );
}

/// The sessions of a project in the detail tree share out the project's
/// sums: for each of the five counts, the session rows add up to the project
/// row.
pub proof fn lemma_detail_sessions_add_up(
    p: Seq<char>,
    pe: Seq<TokenEventView>,
    titles: Seq<(Seq<char>, Seq<char>)>,
    labels: Seq<(Seq<char>, Seq<char>)>,
    u: Usage,
)
    requires
        usage_in_range(pe),
    ensures
        crate::sorting::sum_of(
            ordered_keys(pe, Field::Session),
            |k: Seq<char>|
                row_usage(
                    session_block_spec(
                        p,
                        tree_key_spec("detail"@, "project"@, seq![p]),
                        group_of(pe, Field::Session, k),
                        k,
                        titles,
                    )[0],
                    u,
                ),
        ) == row_usage(project_block_spec(p, pe, titles, labels)[0], u),
{
    let key = tree_key_spec("detail"@, "project"@, seq![p]);
    let f = |k: Seq<char>|
        row_usage(session_block_spec(p, key, group_of(pe, Field::Session, k), k, titles)[0], u);
    let g = crate::groups::group_total(pe, Field::Session, u);
    assert forall|k: Seq<char>| #[trigger] f(k) == g(k) by {
        let se = group_of(pe, Field::Session, k);
        lemma_group_in_range(pe, Field::Session, k);
        let node = session_node_spec(k, titles);
        lemma_row_usage(
            tree_key_spec("detail"@, "session"@, seq![p, k]),
            Some(key),
            true,
            1,
            "Session"@,
            node,
            node + "\n会话ID："@ + k,
            se,
            None,
            u,
        );
    }
    assert(f =~= g);
    crate::groups::lemma_group_totals_add_up(pe, Field::Session, u);
    let node = project_display_spec(p, pe, labels);
    lemma_row_usage(
        key,
        None,
        true,
        0,
        "Project"@,
        node,
        project_tooltip_spec(node, p, pe),
        pe,
        None,
        u,
    );
}

/// The projects of the detail tree share out all counts: for each of the
/// five counts, the project rows add up to the sum over all counts.
pub proof fn lemma_detail_projects_add_up(
    s: Seq<TokenEventView>,
    titles: Seq<(Seq<char>, Seq<char>)>,
    labels: Seq<(Seq<char>, Seq<char>)>,
    u: Usage,
)
    requires
        usage_in_range(s),
    ensures
        crate::sorting::sum_of(
            ordered_keys(s, Field::Project),
            |k: Seq<char>|
                row_usage(project_block_spec(k, group_of(s, Field::Project, k), titles, labels)[0], u),
        ) == crate::report::usage_sum(s, u),
{
    let f = |k: Seq<char>|
        row_usage(project_block_spec(k, group_of(s, Field::Project, k), titles, labels)[0], u);
    let g = crate::groups::group_total(s, Field::Project, u);
    assert forall|k: Seq<char>| #[trigger] f(k) == g(k) by {
        let pe = group_of(s, Field::Project, k);
        lemma_group_in_range(s, Field::Project, k);
        let node = project_display_spec(k, pe, labels);
        lemma_row_usage(
            tree_key_spec("detail"@, "project"@, seq![k]),
            None,
            true,
            0,
            "Project"@,
            node,
            project_tooltip_spec(node, k, pe),
            pe,
            None,
            u,
        );
    }
    assert(f =~= g);
    crate::groups::lemma_group_totals_add_up(s, Field::Project, u);
}

proof fn lemma_sum_of_usage(s: Seq<TokenEventView>, u: Usage)
    ensures
        crate::sorting::sum_of(s, |e: TokenEventView| crate::report::usage_of(e, u) as int)
            == crate::report::usage_sum(s, u),
    decreases s.len(),
{
    if s.len() > 0 {
        lemma_sum_of_usage(s.drop_last(), u);
    }
}

/// The token counts of a turn in the detail tree share out the turn's sums:
/// for each of the five counts, the count rows add up to the turn row.
pub proof fn lemma_detail_counts_add_up(
    sid: Seq<char>,
    session_key: Seq<char>,
    tid: Seq<char>,
    te: Seq<TokenEventView>,
    u: Usage,
)
    requires
        usage_in_range(te),
    ensures
        crate::sorting::sum_of(
            sort_by(te, latest_count_first()),
            |e: TokenEventView|
                row_usage(
                    token_row_spec(
                        sid,
                        tid,
                        detail_user_message_spec(te),
                        tree_key_spec("detail"@, "turn"@, seq![sid, tid]),
                        e,
                    ),
                    u,
                ),
        ) == row_usage(turn_block_spec(sid, session_key, tid, te)[1], u),
{
    let um = detail_user_message_spec(te);
    let turn_key = tree_key_spec("detail"@, "turn"@, seq![sid, tid]);
    let f = |e: TokenEventView| row_usage(token_row_spec(sid, tid, um, turn_key, e), u);
    let g = |e: TokenEventView| crate::report::usage_of(e, u) as int;
    assert forall|e: TokenEventView| #[trigger] f(e) == g(e) by {
        reveal_with_fuel(crate::report::usage_sum, 2);
        assert(seq![e].drop_last() == Seq::<TokenEventView>::empty());
    }
    assert(f =~= g);
    crate::sorting::lemma_sum_sort(te, latest_count_first(), f);
    lemma_sum_of_usage(te, u);
    lemma_row_usage(
        turn_key,
        Some(tree_key_spec("detail"@, "input"@, seq![sid, tid])),
        true,
        3,
        "Turn"@,
        "Turn "@ + tid,
        "Turn ID："@ + tid,
        te,
        None,
        u,
    );
}

} // verus!
