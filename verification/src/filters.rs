//! Which token counts a dashboard shows: by date, project, session, grade
//! and search text; and the window of recent months its trend covers.
use vstd::prelude::*;
use crate::dashboard::{trend_spec, trend_view, trends_view, TrendBucketDto, TrendBucketView};
use crate::json::copy_string;
use crate::names::{lookup, lookup_name, pairs_view, project_display_name, project_display_spec, DisplayNameMaps};
use crate::report::{
    aggregate_status, aggregate_status_spec, copy_event, token_event_view, token_events_view,
    usage_in_range, usage_sum, TokenEvent, TokenEventView, Usage, usage_abs_sum, sum_events,
};
use crate::session::copy_opt;
use crate::status::{is_super_high, is_super_high_status, opt_view};
use crate::text::{
    chars_of, contains, contains_seq, extend_chars, extend_str, i64_text, int_text, lex_compare,
    lex_lt, nat_text, str_eq, string_from, to_lowercase, trim, trim_str, unicode_lower,
    u128_text,
};
use crate::time::{date_text, filter_date, format_date, parse_filter_date, CivilDate};

verus! {

/// What a dashboard is asked to show. Empty texts filter nothing.
pub struct UsageFilters {
    pub date_from: Option<String>,
    pub date_to: Option<String>,
    pub project: Option<String>,
    pub session: Option<String>,
    pub search: Option<String>,
    pub only_anomalies: Option<bool>,
}

pub struct FiltersView {
    pub date_from: Option<Seq<char>>,
    pub date_to: Option<Seq<char>>,
    pub project: Option<Seq<char>>,
    pub session: Option<Seq<char>>,
    pub search: Option<Seq<char>>,
    pub only_anomalies: Option<bool>,
}

pub open spec fn filters_view(f: UsageFilters) -> FiltersView {
    FiltersView {
        date_from: opt_view(f.date_from),
        date_to: opt_view(f.date_to),
        project: opt_view(f.project),
        session: opt_view(f.session),
        search: opt_view(f.search),
        only_anomalies: f.only_anomalies,
    }
}

pub fn copy_filters(f: &UsageFilters) -> (r: UsageFilters)
    ensures
        filters_view(r) == filters_view(*f),
{
    UsageFilters {
        date_from: copy_opt(&f.date_from),
        date_to: copy_opt(&f.date_to),
        project: copy_opt(&f.project),
        session: copy_opt(&f.session),
        search: copy_opt(&f.search),
        only_anomalies: f.only_anomalies,
    }
}

/// A filter text that is there and not empty.
pub open spec fn given(o: Option<Seq<char>>) -> Option<Seq<char>> {
    match o {
        Some(v) => if v.len() > 0 {
            Some(v)
        } else {
            None
        },
        None => None,
    }
}

/// The search text: trimmed and lower-cased, where not empty.
pub open spec fn search_term(f: FiltersView) -> Option<Seq<char>> {
    match f.search {
        Some(v) => if unicode_lower(trim(v)).len() > 0 {
            Some(unicode_lower(trim(v)))
        } else {
            None
        },
        None => None,
    }
}

/// Everything a search looks through for a count, separated by spaces.
pub open spec fn haystack(
    e: TokenEventView,
    titles: Seq<(Seq<char>, Seq<char>)>,
    labels: Seq<(Seq<char>, Seq<char>)>,
) -> Seq<char> {
    let session_name = match lookup(titles, e.session_id) {
        Some(t) => t,
        None => Seq::empty(),
    };
    let action = match e.preceding_action {
        Some(a) => a,
        None => Seq::empty(),
    };
    e.project + " "@ + project_display_spec(e.project, seq![e], labels) + " "@ + e.session_id
        + " "@ + session_name + " "@ + e.turn_id + " "@ + e.user_message + " "@
        + e.user_message_preview + " "@ + e.cwd + " "@ + e.utc_time + " "@ + action
}

/// Whether a count passes the filters.
pub open spec fn keeps(
    f: FiltersView,
    e: TokenEventView,
    titles: Seq<(Seq<char>, Seq<char>)>,
    labels: Seq<(Seq<char>, Seq<char>)>,
) -> bool {
    &&& (given(f.date_from) matches Some(from) ==> !lex_lt(e.date, from))
    &&& (given(f.date_to) matches Some(to) ==> !lex_lt(to, e.date))
    &&& (given(f.project) matches Some(p) ==> e.project == p)
    &&& (given(f.session) matches Some(sid) ==> e.session_id == sid)
    &&& (f.only_anomalies == Some(true) ==> is_super_high(e.status))
    &&& (search_term(f) matches Some(t) ==> contains_seq(
        unicode_lower(haystack(e, titles, labels)),
        t,
    ))
}

/// The counts that pass the filters, in their order.
pub open spec fn filtered(
    s: Seq<TokenEventView>,
    f: FiltersView,
    titles: Seq<(Seq<char>, Seq<char>)>,
    labels: Seq<(Seq<char>, Seq<char>)>,
) -> Seq<TokenEventView>
    decreases s.len(),
{
    if s.len() == 0 {
        Seq::empty()
    } else if keeps(f, s.last(), titles, labels) {
        filtered(s.drop_last(), f, titles, labels).push(s.last())
    } else {
        filtered(s.drop_last(), f, titles, labels)
    }
}

fn given_text(o: &Option<String>) -> (r: Option<Vec<char>>)
    ensures
        match r {
            Some(v) => given(opt_view(*o)) == Some(v@),
            None => given(opt_view(*o)) is None,
        },
{
    match o {
        Some(v) => {
            let cs = chars_of(v.as_str());
            if cs.len() > 0 {
                Some(cs)
            } else {
                None
            }
        },
        None => None,
    }
}

fn search_text(f: &UsageFilters) -> (r: Option<Vec<char>>)
    ensures
        match r {
            Some(v) => search_term(filters_view(*f)) == Some(v@),
            None => search_term(filters_view(*f)) is None,
        },
{
    match &f.search {
        Some(v) => {
            let t = trim_str(v.as_str());
            let ts = string_from(&t);
            let lower = to_lowercase(ts.as_str());
            let lc = chars_of(lower.as_str());
            if lc.len() > 0 {
                Some(lc)
            } else {
                None
            }
        },
        None => None,
    }
}

fn haystack_text(e: &TokenEvent, names: &DisplayNameMaps) -> (r: String)
    ensures
        r@ == haystack(
            token_event_view(*e),
            pairs_view(names.session_titles@),
            pairs_view(names.workspace_labels@),
        ),
{
    let single = vec![copy_event(e)];
    assert(token_events_view(single@) == seq![token_event_view(*e)]);
    let project_name = project_display_name(e.project.as_str(), &single, names);
    let session_name = match lookup_name(&names.session_titles, e.session_id.as_str()) {
        Some(t) => t,
        None => String::new(),
    };
    let mut v = chars_of(e.project.as_str());
    extend_str(&mut v, " ");
    extend_str(&mut v, project_name.as_str());
    extend_str(&mut v, " ");
    extend_str(&mut v, e.session_id.as_str());
    extend_str(&mut v, " ");
    extend_str(&mut v, session_name.as_str());
    extend_str(&mut v, " ");
    extend_str(&mut v, e.turn_id.as_str());
    extend_str(&mut v, " ");
    extend_str(&mut v, e.user_message.as_str());
    extend_str(&mut v, " ");
    extend_str(&mut v, e.user_message_preview.as_str());
    extend_str(&mut v, " ");
    extend_str(&mut v, e.cwd.as_str());
    extend_str(&mut v, " ");
    extend_str(&mut v, e.utc_time.as_str());
    extend_str(&mut v, " ");
    match &e.preceding_action {
        Some(a) => extend_str(&mut v, a.as_str()),
        None => {},
    }
    string_from(&v)
}

fn keeps_event(
    f: &UsageFilters,
    search: &Option<Vec<char>>,
    e: &TokenEvent,
    names: &DisplayNameMaps,
) -> (r: bool)
    requires
        match search {
            Some(v) => search_term(filters_view(*f)) == Some(v@),
            None => search_term(filters_view(*f)) is None,
        },
    ensures
        r == keeps(
            filters_view(*f),
            token_event_view(*e),
            pairs_view(names.session_titles@),
            pairs_view(names.workspace_labels@),
        ),
{
    let date = chars_of(e.date.as_str());
    if let Some(from) = given_text(&f.date_from) {
        if lex_compare(&date, &from) == -1 {
            return false;
        }
    }
    if let Some(to) = given_text(&f.date_to) {
        if lex_compare(&to, &date) == -1 {
            return false;
        }
    }
    if let Some(p) = given_text(&f.project) {
        if !crate::text::chars_eq(&chars_of(e.project.as_str()), &p) {
            return false;
        }
    }
    if let Some(sid) = given_text(&f.session) {
        if !crate::text::chars_eq(&chars_of(e.session_id.as_str()), &sid) {
            return false;
        }
    }
    let only = match f.only_anomalies {
        Some(b) => b,
        None => false,
    };
    if only && !is_super_high_status(e.status.as_str()) {
        return false;
    }
    if let Some(t) = search {
        let h = haystack_text(e, names);
        let lower = to_lowercase(h.as_str());
        let lc = chars_of(lower.as_str());
        if !contains(&lc, t) {
            return false;
        }
    }
    true
}

/// The counts that pass the filters.
pub fn apply_filters(events: &Vec<TokenEvent>, filters: &UsageFilters, names: &DisplayNameMaps) -> (r:
    Vec<TokenEvent>)
    ensures
        token_events_view(r@) == filtered(
            token_events_view(events@),
            filters_view(*filters),
            pairs_view(names.session_titles@),
            pairs_view(names.workspace_labels@),
        ),
{
    let ghost s = token_events_view(events@);
    let ghost fv = filters_view(*filters);
    let ghost titles = pairs_view(names.session_titles@);
    let ghost labels = pairs_view(names.workspace_labels@);
    let search = search_text(filters);
    let mut out: Vec<TokenEvent> = Vec::new();
    let mut i: usize = 0;
    while i < events.len()
        invariant
            i <= events.len(),
            s == token_events_view(events@),
            fv == filters_view(*filters),
            titles == pairs_view(names.session_titles@),
            labels == pairs_view(names.workspace_labels@),
            match search {
                Some(v) => search_term(fv) == Some(v@),
                None => search_term(fv) is None,
            },
            token_events_view(out@) == filtered(s.take(i as int), fv, titles, labels),
        decreases events.len() - i,
    {
        let e = &events[i];
        proof {
            let t = s.take(i + 1);
            assert(t.drop_last() == s.take(i as int));
            assert(t.last() == token_event_view(*e));
        }
        if keeps_event(filters, &search, e, names) {
            let ghost before = out@;
            out.push(copy_event(e));
            assert(token_events_view(out@) == token_events_view(before).push(
                token_event_view(*e),
            ));
        }
        i = i + 1;
    }
    assert(s.take(events.len() as int) == s);
    out
}

/// Filtering twice is filtering once.
pub proof fn lemma_filter_idempotent(
    s: Seq<TokenEventView>,
    f: FiltersView,
    titles: Seq<(Seq<char>, Seq<char>)>,
    labels: Seq<(Seq<char>, Seq<char>)>,
)
    ensures
        filtered(filtered(s, f, titles, labels), f, titles, labels) == filtered(
            s,
            f,
            titles,
            labels,
        ),
    decreases s.len(),
{
    if s.len() > 0 {
        lemma_filter_idempotent(s.drop_last(), f, titles, labels);
        let t = filtered(s.drop_last(), f, titles, labels);
        if keeps(f, s.last(), titles, labels) {
            assert(t.push(s.last()).drop_last() == t);
            assert(t.push(s.last()).last() == s.last());
        }
    }
}

/// Every count filtering keeps passes the filters and comes from the input;
/// no more counts come out than went in.
pub proof fn lemma_filter_keeps_only_passing(
    s: Seq<TokenEventView>,
    f: FiltersView,
    titles: Seq<(Seq<char>, Seq<char>)>,
    labels: Seq<(Seq<char>, Seq<char>)>,
)
    ensures
        filtered(s, f, titles, labels).len() <= s.len(),
        forall|i: int|
            0 <= i < filtered(s, f, titles, labels).len() ==> keeps(
                f,
                #[trigger] filtered(s, f, titles, labels)[i],
                titles,
                labels,
            ) && s.contains(filtered(s, f, titles, labels)[i]),
    decreases s.len(),
{
    if s.len() > 0 {
        lemma_filter_keeps_only_passing(s.drop_last(), f, titles, labels);
        let t = filtered(s.drop_last(), f, titles, labels);
        let r = filtered(s, f, titles, labels);
        assert forall|i: int| 0 <= i < r.len() implies keeps(f, #[trigger] r[i], titles, labels)
            && s.contains(r[i]) by {
            if i < t.len() {
                assert(r[i] == t[i]);
                assert(s.drop_last().contains(t[i]));
                let k = choose|k: int| 0 <= k < s.drop_last().len() && s.drop_last()[k] == t[i];
                assert(s[k] == t[i]);
            } else {
                assert(r[i] == s.last());
                assert(s[s.len() - 1] == s.last());
            }
        }
    }
}

/// A count of `s` that passes the filters is kept.
proof fn lemma_passing_kept(
    s: Seq<TokenEventView>,
    f: FiltersView,
    titles: Seq<(Seq<char>, Seq<char>)>,
    labels: Seq<(Seq<char>, Seq<char>)>,
    i: int,
)
    requires
        0 <= i < s.len(),
        keeps(f, s[i], titles, labels),
    ensures
        filtered(s, f, titles, labels).contains(s[i]),
    decreases s.len(),
{
    let t = filtered(s.drop_last(), f, titles, labels);
    if i < s.len() - 1 {
        assert(s.drop_last()[i] == s[i]);
        lemma_passing_kept(s.drop_last(), f, titles, labels, i);
        let m = choose|m: int| 0 <= m < t.len() && t[m] == s[i];
        if keeps(f, s.last(), titles, labels) {
            assert(t.push(s.last())[m] == t[m]);
        }
    } else {
        assert(t.push(s.last())[t.len() as int] == s.last());
    }
}

/// What the filters do to each count: a kept count lies within the given
/// dates (compared as text, bounds included), belongs to the given project
/// and session, and is graded "超高" (or the older "异常") where only
/// anomalies are asked for.
/// Without a search text, every count that meets these is kept, so with
/// no filter given, every count is kept.
pub proof fn lemma_filters_select(
    s: Seq<TokenEventView>,
    f: FiltersView,
    titles: Seq<(Seq<char>, Seq<char>)>,
    labels: Seq<(Seq<char>, Seq<char>)>,
)
    ensures
        forall|i: int|
            #![trigger filtered(s, f, titles, labels)[i]]
            0 <= i < filtered(s, f, titles, labels).len() ==> {
                let e = filtered(s, f, titles, labels)[i];
                &&& s.contains(e)
                &&& (f.session matches Some(sid) ==> sid.len() > 0 ==> e.session_id == sid)
                &&& (f.project matches Some(p) ==> p.len() > 0 ==> e.project == p)
                &&& (f.date_from matches Some(from) ==> from.len() > 0 ==> !lex_lt(e.date, from))
                &&& (f.date_to matches Some(to) ==> to.len() > 0 ==> !lex_lt(to, e.date))
                &&& (f.only_anomalies == Some(true) ==> e.status == "超高"@ || e.status == "异常"@)
            },
        forall|i: int|
            #![trigger s[i]]
            0 <= i < s.len() && search_term(f) is None && f.only_anomalies != Some(true) && (
            f.session matches Some(sid) ==> sid.len() > 0 ==> s[i].session_id == sid) && (
            f.project matches Some(p) ==> p.len() > 0 ==> s[i].project == p) && (f.date_from matches Some(from) ==> from.len() > 0 ==> !lex_lt(s[i].date, from)) && (f.date_to matches Some(to) ==> to.len() > 0 ==> !lex_lt(to, s[i].date)) ==> filtered(
                s,
                f,
                titles,
                labels,
            ).contains(s[i]),
{
    lemma_filter_keeps_only_passing(s, f, titles, labels);
    assert forall|i: int|
        #![trigger s[i]]
        0 <= i < s.len() && search_term(f) is None && f.only_anomalies != Some(true) && (
        f.session matches Some(sid) ==> sid.len() > 0 ==> s[i].session_id == sid) && (
        f.project matches Some(p) ==> p.len() > 0 ==> s[i].project == p) && (f.date_from matches Some(from) ==> from.len() > 0 ==> !lex_lt(s[i].date, from)) && (f.date_to matches Some(to) ==> to.len() > 0 ==> !lex_lt(to, s[i].date)) implies filtered(
            s,
            f,
            titles,
            labels,
        ).contains(s[i]) by {
        lemma_passing_kept(s, f, titles, labels, i);
    }
}

/// Filtered counts stay in range.
pub proof fn lemma_filtered_in_range(
    s: Seq<TokenEventView>,
    f: FiltersView,
    titles: Seq<(Seq<char>, Seq<char>)>,
    labels: Seq<(Seq<char>, Seq<char>)>,
)
    requires
        usage_in_range(s),
    ensures
        usage_in_range(filtered(s, f, titles, labels)),
{
    lemma_filtered_abs_sum(s, f, titles, labels, Usage::Input);
    lemma_filtered_abs_sum(s, f, titles, labels, Usage::Cached);
    lemma_filtered_abs_sum(s, f, titles, labels, Usage::Output);
    lemma_filtered_abs_sum(s, f, titles, labels, Usage::Reasoning);
    lemma_filtered_abs_sum(s, f, titles, labels, Usage::Total);
}

proof fn lemma_filtered_abs_sum(
    s: Seq<TokenEventView>,
    f: FiltersView,
    titles: Seq<(Seq<char>, Seq<char>)>,
    labels: Seq<(Seq<char>, Seq<char>)>,
    u: Usage,
)
    ensures
        usage_abs_sum(filtered(s, f, titles, labels), u) <= usage_abs_sum(s, u),
    decreases s.len(),
{
    if s.len() > 0 {
        lemma_filtered_abs_sum(s.drop_last(), f, titles, labels, u);
        let t = filtered(s.drop_last(), f, titles, labels);
        if keeps(f, s.last(), titles, labels) {
            assert(t.push(s.last()).drop_last() == t);
        }
    }
}

// ---------------------------------------------------------------------------
// The recent months of the trend
// ---------------------------------------------------------------------------

/// A month number as two digits.
pub open spec fn two_digits(n: nat) -> Seq<char> {
    if n < 10 {
        seq!['0'] + nat_text(n)
    } else {
        nat_text(n)
    }
}

/// The label `YYYY-MM` of a month counted from year 0 (`year * 12 + month - 1`).
pub open spec fn month_label_spec(index: int) -> Seq<char> {
    int_text(index / 12) + "-"@ + two_digits((index % 12 + 1) as nat)
}

pub fn month_label_from_index(index: i32) -> (r: String)
    ensures
        r@ == month_label_spec(index as int),
{
    let shifted: u64 = (index as i64 + 3_221_225_472) as u64;
    let q: i64 = (shifted / 12) as i64 - 268_435_456;
    let m: u64 = shifted % 12 + 1;
    assert(q == (index as int) / 12 && m == (index as int) % 12 + 1) by {
        assert(shifted == index as int + 12 * 268_435_456);
    }
    let mut v = i64_text(q);
    extend_str(&mut v, "-");
    if m < 10 {
        v.push('0');
        let d = u128_text(m as u128);
        extend_chars(&mut v, &d);
        assert(v@ == int_text(q as int) + "-"@ + (seq!['0'] + nat_text(m as nat)));
    } else {
        let d = u128_text(m as u128);
        extend_chars(&mut v, &d);
    }
    string_from(&v)
}

/// The last day of the trend window: the `date_to` filter where it reads
/// as a date, else today.
pub open spec fn window_end_date(f: FiltersView, today: CivilDate) -> CivilDate {
    match f.date_to {
        Some(t) => match filter_date(t) {
            Some(d) => d,
            None => today,
        },
        None => today,
    }
}

fn window_end(filters: &UsageFilters, today: CivilDate) -> (r: CivilDate)
    requires
        1 <= today.month <= 12,
        -262143 <= today.year <= 262142,
    ensures
        r == window_end_date(filters_view(*filters), today),
        1 <= r.month <= 12,
        -262143 <= r.year <= 262142,
{
    match &filters.date_to {
        Some(t) => match parse_filter_date(t.as_str()) {
            Some(d) => d,
            None => today,
        },
        None => today,
    }
}

/// `month_window_end`: the last day of the trend window as `%Y-%m-%d`.
pub fn month_window_end(filters: &UsageFilters, today: CivilDate) -> (r: String)
    requires
        1 <= today.month <= 12,
        -262143 <= today.year <= 262142,
    ensures
        r@ == ({
            let d = window_end_date(filters_view(*filters), today);
            date_text(d.year, d.month, d.day)
        }),
{
    let d = window_end(filters, today);
    format_date(d)
}

/// The labels of the `months` months that end with the window's last month.
pub open spec fn recent_month_labels_spec(f: FiltersView, months: nat, today: CivilDate) -> Seq<
    Seq<char>,
> {
    let end = window_end_date(f, today);
    let end_index = end.year * 12 + end.month - 1;
    let start = end_index - (if months > 0 {
        months - 1
    } else {
        0
    });
    Seq::new(months, |k: int| month_label_spec(start + k))
}

/// The most months a trend can cover without its first month falling out of
/// range (`chrono`'s earliest year is -262143).
pub open spec fn max_months() -> int {
    i32::MAX - 262_143 * 12 + 2
}

pub fn recent_month_labels(filters: &UsageFilters, months: usize, today: CivilDate) -> (r: Vec<
    String,
>)
    requires
        1 <= today.month <= 12,
        -262143 <= today.year <= 262142,
        months <= max_months(),
    ensures
        strings_of(r@) == recent_month_labels_spec(filters_view(*filters), months as nat, today),
{
    let end = window_end(filters, today);
    let end_index: i32 = end.year * 12 + end.month as i32 - 1;
    let back: i32 = if months > 0 {
        (months - 1) as i32
    } else {
        0
    };
    let start: i32 = end_index - back;
    let ghost want = recent_month_labels_spec(filters_view(*filters), months as nat, today);
    let mut out: Vec<String> = Vec::new();
    let mut k: usize = 0;
    while k < months
        invariant
            k <= months <= max_months(),
            start as int + months - 1 <= i32::MAX,
            want.len() == months,
            forall|j: int| 0 <= j < months ==> #[trigger] want[j] == month_label_spec(start + j),
            strings_of(out@) == want.take(k as int),
        decreases months - k,
    {
        let label = month_label_from_index(start + k as i32);
        let ghost before = out@;
        out.push(label);
        assert(strings_of(out@) == strings_of(before).push(label@));
        assert(want.take(k + 1) == want.take(k as int).push(want[k as int]));
        k = k + 1;
    }
    assert(want.take(months as int) == want);
    out
}

pub open spec fn strings_of(v: Seq<String>) -> Seq<Seq<char>> {
    v.map_values(|x: String| x@)
}

/// The filters of the trend: from the first day of its first month to the
/// window's last day.
pub open spec fn recent_month_filters_spec(f: FiltersView, months: nat, today: CivilDate) -> FiltersView {
    let labels = recent_month_labels_spec(f, months, today);
    let end = window_end_date(f, today);
    FiltersView {
        date_from: if labels.len() > 0 {
            Some(labels[0] + "-01"@)
        } else {
            f.date_from
        },
        date_to: Some(date_text(end.year, end.month, end.day)),
        ..f
    }
}

pub fn recent_month_filters(filters: &UsageFilters, months: usize, today: CivilDate) -> (r:
    UsageFilters)
    requires
        1 <= today.month <= 12,
        -262143 <= today.year <= 262142,
        months <= max_months(),
    ensures
        filters_view(r) == recent_month_filters_spec(filters_view(*filters), months as nat, today),
{
    let labels = recent_month_labels(filters, months, today);
    let mut next = copy_filters(filters);
    if labels.len() > 0 {
        let mut v = chars_of(labels[0].as_str());
        extend_str(&mut v, "-01");
        next.date_from = Some(string_from(&v));
    }
    next.date_to = Some(month_window_end(filters, today));
    next
}

/// The month of a date: its first seven characters.
pub open spec fn month_of(date: Seq<char>) -> Seq<char> {
    if date.len() <= 7 {
        date
    } else {
        date.take(7)
    }
}

/// The events of one month.
pub open spec fn month_group(s: Seq<TokenEventView>, label: Seq<char>) -> Seq<TokenEventView>
    decreases s.len(),
{
    if s.len() == 0 {
        Seq::empty()
    } else if month_of(s.last().date) == label {
        month_group(s.drop_last(), label).push(s.last())
    } else {
        month_group(s.drop_last(), label)
    }
}

proof fn lemma_month_abs_sum(s: Seq<TokenEventView>, label: Seq<char>, u: Usage)
    ensures
        usage_abs_sum(month_group(s, label), u) <= usage_abs_sum(s, u),
    decreases s.len(),
{
    if s.len() > 0 {
        lemma_month_abs_sum(s.drop_last(), label, u);
        let g = month_group(s.drop_last(), label);
        if month_of(s.last().date) == label {
            assert(g.push(s.last()).drop_last() == g);
        }
    }
}

proof fn lemma_month_in_range(s: Seq<TokenEventView>, label: Seq<char>)
    requires
        usage_in_range(s),
    ensures
        usage_in_range(month_group(s, label)),
{
    lemma_month_abs_sum(s, label, Usage::Input);
    lemma_month_abs_sum(s, label, Usage::Cached);
    lemma_month_abs_sum(s, label, Usage::Output);
    lemma_month_abs_sum(s, label, Usage::Reasoning);
    lemma_month_abs_sum(s, label, Usage::Total);
}

fn month_events(events: &Vec<TokenEvent>, label: &str) -> (r: Vec<TokenEvent>)
    ensures
        token_events_view(r@) == month_group(token_events_view(events@), label@),
{
    let ghost s = token_events_view(events@);
    let lc = chars_of(label);
    let mut out: Vec<TokenEvent> = Vec::new();
    let mut i: usize = 0;
    while i < events.len()
        invariant
            i <= events.len(),
            s == token_events_view(events@),
            lc@ == label@,
            token_events_view(out@) == month_group(s.take(i as int), label@),
        decreases events.len() - i,
    {
        let e = &events[i];
        proof {
            let t = s.take(i + 1);
            assert(t.drop_last() == s.take(i as int));
            assert(t.last() == token_event_view(*e));
        }
        let d = chars_of(e.date.as_str());
        let m = if d.len() <= 7 {
            d
        } else {
            let t = crate::text::slice_chars(&d, 0, 7);
            assert(d@.subrange(0, 7) == d@.take(7));
            t
        };
        if crate::text::chars_eq(&m, &lc) {
            let ghost before = out@;
            out.push(copy_event(e));
            assert(token_events_view(out@) == token_events_view(before).push(
                token_event_view(*e),
            ));
        }
        i = i + 1;
    }
    assert(s.take(events.len() as int) == s);
    out
}

/// One bucket for each of the recent months, empty ones included.
pub open spec fn monthly_buckets_spec(
    s: Seq<TokenEventView>,
    f: FiltersView,
    months: nat,
    today: CivilDate,
) -> Seq<TrendBucketView> {
    recent_month_labels_spec(f, months, today).map_values(
        |label: Seq<char>| trend_spec(label, month_group(s, label)),
    )
}

pub fn build_recent_monthly_buckets(
    events: &Vec<TokenEvent>,
    filters: &UsageFilters,
    months: usize,
    today: CivilDate,
) -> (r: Vec<TrendBucketDto>)
    requires
        usage_in_range(token_events_view(events@)),
        1 <= today.month <= 12,
        -262143 <= today.year <= 262142,
        months <= max_months(),
    ensures
        trends_view(r@) == monthly_buckets_spec(
            token_events_view(events@),
            filters_view(*filters),
            months as nat,
            today,
        ),
{
    let ghost s = token_events_view(events@);
    let labels = recent_month_labels(filters, months, today);
    let ghost ls = recent_month_labels_spec(filters_view(*filters), months as nat, today);
    let ghost f = |label: Seq<char>| trend_spec(label, month_group(s, label));
    let mut out: Vec<TrendBucketDto> = Vec::new();
    let mut i: usize = 0;
    while i < labels.len()
        invariant
            i <= labels.len(),
            s == token_events_view(events@),
            usage_in_range(s),
            strings_of(labels@) == ls,
            f == (|label: Seq<char>| trend_spec(label, month_group(s, label))),
            trends_view(out@) == ls.take(i as int).map_values(f),
        decreases labels.len() - i,
    {
        let g = month_events(events, labels[i].as_str());
        proof {
            assert(labels@[i as int]@ == ls[i as int]);
            lemma_month_in_range(s, ls[i as int]);
        }
        let sums = sum_events(&g);
        let b = TrendBucketDto {
            label: copy_string(&labels[i]),
            total_tokens: sums.total_tokens,
            status: aggregate_status(&g),
        };
        let ghost before = out@;
        out.push(b);
        assert(trends_view(out@) == trends_view(before).push(trend_view(b)));
        assert(ls.take(i + 1).map_values(f) == ls.take(i as int).map_values(f).push(
            f(ls[i as int]),
        ));
        i = i + 1;
    }
    assert(ls.take(labels.len() as int) == ls);
    out
}

} // verus!
