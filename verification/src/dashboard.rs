//! The dashboard's figures: trend and hourly buckets, the token mix, the
//! largest sessions and projects, the filter options and the headline
//! metrics.
use vstd::prelude::*;
use crate::detail::session_node_spec;
use crate::groups::{ascending_group_keys, ascending_keys, lemma_ascending_nonempty, lex_order};
use crate::json::copy_string;
use crate::names::{
    lookup, lookup_name, pairs_view, project_display_name, project_display_spec, DisplayNameMaps,
};
use crate::report::{
    abs, aggregate_status, aggregate_status_spec, copy_event, distinct_field_keys, distinct_keys,
    group_events, group_of, lemma_group_in_range, lemma_sum_bounded, short_id, short_id_spec,
    strings_view, sum_events, sums_spec, token_event_view, token_events_view, usage_abs_sum,
    usage_in_range, usage_of, usage_sum, Field, TokenEvent, TokenEventView, Usage,
};
use crate::sorting::{lemma_insert_at, lemma_sort_contains, sort_by};
use crate::status::{is_super_high, is_super_high_status, non_cached_tokens, saturating_diff};
use crate::summary::{count_distinct_turns, distinct_turns};
use crate::text::{chars_of, extend_str, lex_compare, lex_lt, str_eq, string_from};

verus! {

// ---------------------------------------------------------------------------
// Trend buckets
// ---------------------------------------------------------------------------

/// A bucket of a trend: its label, total tokens and grade.
pub struct TrendBucketDto {
    pub label: String,
    pub total_tokens: i64,
    pub status: String,
}

pub struct TrendBucketView {
    pub label: Seq<char>,
    pub total_tokens: i64,
    pub status: Seq<char>,
}

pub open spec fn trend_view(b: TrendBucketDto) -> TrendBucketView {
    TrendBucketView { label: b.label@, total_tokens: b.total_tokens, status: b.status@ }
}

pub open spec fn trends_view(v: Seq<TrendBucketDto>) -> Seq<TrendBucketView> {
    v.map_values(|b: TrendBucketDto| trend_view(b))
}

/// The bucket of a group.
pub open spec fn trend_spec(label: Seq<char>, g: Seq<TokenEventView>) -> TrendBucketView {
    TrendBucketView {
        label,
        total_tokens: usage_sum(g, Usage::Total) as i64,
        status: aggregate_status_spec(g),
    }
}

fn trend_bucket(label: String, events: &Vec<TokenEvent>) -> (r: TrendBucketDto)
    requires
        usage_in_range(token_events_view(events@)),
    ensures
        trend_view(r) == trend_spec(label@, token_events_view(events@)),
{
    let sums = sum_events(events);
    TrendBucketDto { label, total_tokens: sums.total_tokens, status: aggregate_status(events) }
}

/// One bucket per day, in the order of the dates.
pub open spec fn daily_buckets_spec(s: Seq<TokenEventView>) -> Seq<TrendBucketView> {
    ascending_keys(s, Field::Date).map_values(
        |d: Seq<char>| trend_spec(d, group_of(s, Field::Date, d)),
    )
}

pub fn build_daily_buckets(events: &Vec<TokenEvent>) -> (r: Vec<TrendBucketDto>)
    requires
        usage_in_range(token_events_view(events@)),
    ensures
        trends_view(r@) == daily_buckets_spec(token_events_view(events@)),
{
    let ghost s = token_events_view(events@);
    let keys = ascending_group_keys(events, &Field::Date);
    let ghost ks = ascending_keys(s, Field::Date);
    let mut out: Vec<TrendBucketDto> = Vec::new();
    let mut i: usize = 0;
    while i < keys.len()
        invariant
            i <= keys.len(),
            s == token_events_view(events@),
            usage_in_range(s),
            ks == ascending_keys(s, Field::Date),
            strings_view(keys@) == ks,
            trends_view(out@) == ks.take(i as int).map_values(
                |d: Seq<char>| trend_spec(d, group_of(s, Field::Date, d)),
            ),
        decreases keys.len() - i,
    {
        let g = group_events(events, &Field::Date, keys[i].as_str());
        proof {
            assert(keys@[i as int]@ == ks[i as int]);
            lemma_group_in_range(s, Field::Date, ks[i as int]);
        }
        let b = trend_bucket(copy_string(&keys[i]), &g);
        let ghost before = out@;
        out.push(b);
        assert(trends_view(out@) == trends_view(before).push(trend_view(b)));
        assert(ks.take(i + 1).map_values(|d: Seq<char>| trend_spec(d, group_of(s, Field::Date, d)))
            == ks.take(i as int).map_values(
            |d: Seq<char>| trend_spec(d, group_of(s, Field::Date, d)),
        ).push(trend_spec(ks[i as int], group_of(s, Field::Date, ks[i as int]))));
        i = i + 1;
    }
    assert(ks.take(keys.len() as int) == ks);
    out
}

// ---------------------------------------------------------------------------
// Hourly buckets
// ---------------------------------------------------------------------------

/// The distinct (date, hour) pairs, in the order they first appear.
pub open spec fn distinct_hours(s: Seq<TokenEventView>) -> Seq<(Seq<char>, u32)>
    decreases s.len(),
{
    if s.len() == 0 {
        Seq::empty()
    } else if distinct_hours(s.drop_last()).contains((s.last().date, s.last().hour)) {
        distinct_hours(s.drop_last())
    } else {
        distinct_hours(s.drop_last()).push((s.last().date, s.last().hour))
    }
}

/// The events of one hour of one date.
pub open spec fn hour_group(s: Seq<TokenEventView>, date: Seq<char>, hour: u32) -> Seq<TokenEventView>
    decreases s.len(),
{
    if s.len() == 0 {
        Seq::empty()
    } else if s.last().date == date && s.last().hour == hour {
        hour_group(s.drop_last(), date, hour).push(s.last())
    } else {
        hour_group(s.drop_last(), date, hour)
    }
}

/// Dates in the order of `str`, hours in order within a date.
pub open spec fn hour_order() -> spec_fn((Seq<char>, u32), (Seq<char>, u32)) -> bool {
    |a: (Seq<char>, u32), b: (Seq<char>, u32)| lex_lt(a.0, b.0) || (a.0 == b.0 && a.1 < b.1)
}

/// A bucket of one hour of one date.
pub struct HourlyBucketDto {
    pub date: String,
    pub hour: u32,
    pub total_tokens: i64,
    pub status: String,
}

pub struct HourlyBucketView {
    pub date: Seq<char>,
    pub hour: u32,
    pub total_tokens: i64,
    pub status: Seq<char>,
}

pub open spec fn hourly_view(b: HourlyBucketDto) -> HourlyBucketView {
    HourlyBucketView { date: b.date@, hour: b.hour, total_tokens: b.total_tokens, status: b.status@ }
}

pub open spec fn hourlies_view(v: Seq<HourlyBucketDto>) -> Seq<HourlyBucketView> {
    v.map_values(|b: HourlyBucketDto| hourly_view(b))
}

pub open spec fn hourly_spec(s: Seq<TokenEventView>, k: (Seq<char>, u32)) -> HourlyBucketView {
    HourlyBucketView {
        date: k.0,
        hour: k.1,
        total_tokens: usage_sum(hour_group(s, k.0, k.1), Usage::Total) as i64,
        status: aggregate_status_spec(hour_group(s, k.0, k.1)),
    }
}

/// One bucket per hour of each date, in the order of dates and hours.
pub open spec fn hourly_buckets_spec(s: Seq<TokenEventView>) -> Seq<HourlyBucketView> {
    sort_by(distinct_hours(s), hour_order()).map_values(
        |k: (Seq<char>, u32)| hourly_spec(s, k),
    )
}

/// The hourly buckets come in time order: by date (as text), then by hour;
/// no bucket comes after a later one.
pub proof fn lemma_hours_in_time_order(s: Seq<TokenEventView>)
    ensures
        forall|i: int, j: int|
            0 <= i < j < hourly_buckets_spec(s).len() ==> !lex_lt(
                (#[trigger] hourly_buckets_spec(s)[j]).date,
                (#[trigger] hourly_buckets_spec(s)[i]).date,
            ) && (hourly_buckets_spec(s)[i].date == hourly_buckets_spec(s)[j].date
                ==> hourly_buckets_spec(s)[i].hour <= hourly_buckets_spec(s)[j].hour),
{
    let lt = hour_order();
    assert forall|a: Seq<char>| !#[trigger] lex_lt(a, a) by {
        crate::text::lemma_lex_irreflexive(a);
    }
    assert(crate::sorting::strict_order(lt)) by {
        assert forall|a: (Seq<char>, u32), b: (Seq<char>, u32), c: (Seq<char>, u32)|
            #[trigger] lt(a, b) && #[trigger] lt(b, c) implies lt(a, c) by {
            if lex_lt(a.0, b.0) && lex_lt(b.0, c.0) {
                crate::text::lemma_lex_transitive(a.0, b.0, c.0);
            }
        }
    }
    let k = sort_by(distinct_hours(s), lt);
    crate::sorting::lemma_sort_sorted(distinct_hours(s), lt);
    let r = hourly_buckets_spec(s);
    assert forall|i: int, j: int| 0 <= i < j < r.len() implies !lex_lt(
        (#[trigger] r[j]).date,
        (#[trigger] r[i]).date,
    ) && (r[i].date == r[j].date ==> r[i].hour <= r[j].hour) by {
        assert(r[i] == hourly_spec(s, k[i]));
        assert(r[j] == hourly_spec(s, k[j]));
        assert(!lt(k[j], k[i]));
        crate::text::lemma_lex_trichotomy(k[i].0, k[j].0);
    }
}

pub proof fn lemma_hour_group_in_range(s: Seq<TokenEventView>, date: Seq<char>, hour: u32)
    requires
        usage_in_range(s),
    ensures
        usage_in_range(hour_group(s, date, hour)),
{
    lemma_hour_abs_sum(s, date, hour, Usage::Input);
    lemma_hour_abs_sum(s, date, hour, Usage::Cached);
    lemma_hour_abs_sum(s, date, hour, Usage::Output);
    lemma_hour_abs_sum(s, date, hour, Usage::Reasoning);
    lemma_hour_abs_sum(s, date, hour, Usage::Total);
}

proof fn lemma_hour_abs_sum(s: Seq<TokenEventView>, date: Seq<char>, hour: u32, u: Usage)
    ensures
        usage_abs_sum(hour_group(s, date, hour), u) <= usage_abs_sum(s, u),
    decreases s.len(),
{
    if s.len() > 0 {
        lemma_hour_abs_sum(s.drop_last(), date, hour, u);
        let g = hour_group(s.drop_last(), date, hour);
        if s.last().date == date && s.last().hour == hour {
            assert(g.push(s.last()).drop_last() == g);
        }
    }
}

pub open spec fn hours_view(v: Seq<(String, u32)>) -> Seq<(Seq<char>, u32)> {
    v.map_values(|p: (String, u32)| (p.0@, p.1))
}

fn distinct_hour_keys(events: &Vec<TokenEvent>) -> (r: Vec<(String, u32)>)
    ensures
        hours_view(r@) == distinct_hours(token_events_view(events@)),
{
    let ghost s = token_events_view(events@);
    let mut seen: Vec<(String, u32)> = Vec::new();
    let mut i: usize = 0;
    while i < events.len()
        invariant
            i <= events.len(),
            s == token_events_view(events@),
            hours_view(seen@) == distinct_hours(s.take(i as int)),
        decreases events.len() - i,
    {
        let e = &events[i];
        proof {
            let t = s.take(i + 1);
            assert(t.drop_last() == s.take(i as int));
            assert(t.last() == token_event_view(*e));
        }
        let ghost sv = hours_view(seen@);
        let ghost key = (e.date@, e.hour);
        let mut j: usize = 0;
        let mut found = false;
        while j < seen.len()
            invariant
                j <= seen.len(),
                sv == hours_view(seen@),
                key == (e.date@, e.hour),
                found == (exists|k: int| 0 <= k < j && #[trigger] sv[k] == key),
            decreases seen.len() - j,
        {
            let ghost old_found = found;
            if str_eq(seen[j].0.as_str(), e.date.as_str()) && seen[j].1 == e.hour {
                found = true;
                assert(sv[j as int] == key);
            }
            proof {
                if !found {
                    assert forall|k: int| 0 <= k < j + 1 implies #[trigger] sv[k] != key by {
                        if k < j {
                            assert(!old_found);
                        }
                    }
                }
            }
            j = j + 1;
        }
        assert(found == sv.contains(key));
        if !found {
            seen.push((copy_string(&e.date), e.hour));
            assert(hours_view(seen@) == sv.push(key));
        }
        i = i + 1;
    }
    assert(s.take(events.len() as int) == s);
    seen
}

fn hour_before(a: &(String, u32), b: &(String, u32)) -> (r: bool)
    ensures
        r == (hour_order())((a.0@, a.1), (b.0@, b.1)),
{
    let c = lex_compare(&chars_of(a.0.as_str()), &chars_of(b.0.as_str()));
    c == -1 || (c == 0 && a.1 < b.1)
}

fn sort_hours(v: &Vec<(String, u32)>) -> (r: Vec<(String, u32)>)
    ensures
        hours_view(r@) == sort_by(hours_view(v@), hour_order()),
{
    let ghost all = hours_view(v@);
    let ghost lt = hour_order();
    let mut sorted: Vec<(String, u32)> = Vec::new();
    let mut i: usize = 0;
    while i < v.len()
        invariant
            i <= v.len(),
            lt == hour_order(),
            all == hours_view(v@),
            hours_view(sorted@) == sort_by(all.take(i as int), lt),
        decreases v.len() - i,
    {
        let x = (copy_string(&v[i].0), v[i].1);
        let ghost xv = (x.0@, x.1);
        assert(xv == all[i as int]);
        let mut j: usize = 0;
        while j < sorted.len() && !hour_before(&x, &sorted[j])
            invariant
                j <= sorted.len(),
                lt == hour_order(),
                xv == (x.0@, x.1),
                forall|k: int| 0 <= k < j ==> !lt(xv, #[trigger] hours_view(sorted@)[k]),
            decreases sorted.len() - j,
        {
            j = j + 1;
        }
        proof {
            let t = all.take(i + 1);
            assert(t.drop_last() == all.take(i as int));
            assert(t.last() == xv);
            lemma_insert_at(hours_view(sorted@), xv, lt, j as int);
        }
        let ghost before = sorted@;
        sorted.insert(j, x);
        assert(hours_view(sorted@) == hours_view(before).take(j as int).push(xv) + hours_view(
            before,
        ).skip(j as int));
        i = i + 1;
    }
    assert(all.take(v.len() as int) == all);
    sorted
}

fn hour_events(events: &Vec<TokenEvent>, date: &str, hour: u32) -> (r: Vec<TokenEvent>)
    ensures
        token_events_view(r@) == hour_group(token_events_view(events@), date@, hour),
{
    let ghost s = token_events_view(events@);
    let mut out: Vec<TokenEvent> = Vec::new();
    let mut i: usize = 0;
    while i < events.len()
        invariant
            i <= events.len(),
            s == token_events_view(events@),
            token_events_view(out@) == hour_group(s.take(i as int), date@, hour),
        decreases events.len() - i,
    {
        let e = &events[i];
        proof {
            let t = s.take(i + 1);
            assert(t.drop_last() == s.take(i as int));
            assert(t.last() == token_event_view(*e));
        }
        if str_eq(e.date.as_str(), date) && e.hour == hour {
            let ghost before = out@;
            out.push(copy_event(e));
            assert(token_events_view(out@) == token_events_view(before).push(
                token_event_view(*e),
            ));
        }
        i = i + 1;
    }
    assert(s.take(events.len() as int) == s);
    out
}

pub fn build_hourly_buckets(events: &Vec<TokenEvent>) -> (r: Vec<HourlyBucketDto>)
    requires
        usage_in_range(token_events_view(events@)),
    ensures
        hourlies_view(r@) == hourly_buckets_spec(token_events_view(events@)),
{
    let ghost s = token_events_view(events@);
    let keys = distinct_hour_keys(events);
    let sorted = sort_hours(&keys);
    let ghost ks = sort_by(distinct_hours(s), hour_order());
    let mut out: Vec<HourlyBucketDto> = Vec::new();
    let mut i: usize = 0;
    while i < sorted.len()
        invariant
            i <= sorted.len(),
            s == token_events_view(events@),
            usage_in_range(s),
            ks == sort_by(distinct_hours(s), hour_order()),
            hours_view(sorted@) == ks,
            hourlies_view(out@) == ks.take(i as int).map_values(
                |k: (Seq<char>, u32)| hourly_spec(s, k),
            ),
        decreases sorted.len() - i,
    {
        let g = hour_events(events, sorted[i].0.as_str(), sorted[i].1);
        proof {
            assert(ks[i as int] == (sorted@[i as int].0@, sorted@[i as int].1));
            lemma_hour_group_in_range(s, ks[i as int].0, ks[i as int].1);
        }
        let sums = sum_events(&g);
        let b = HourlyBucketDto {
            date: copy_string(&sorted[i].0),
            hour: sorted[i].1,
            total_tokens: sums.total_tokens,
            status: aggregate_status(&g),
        };
        let ghost before = out@;
        out.push(b);
        assert(hourlies_view(out@) == hourlies_view(before).push(hourly_view(b)));
        assert(ks.take(i + 1).map_values(|k: (Seq<char>, u32)| hourly_spec(s, k)) == ks.take(
            i as int,
        ).map_values(|k: (Seq<char>, u32)| hourly_spec(s, k)).push(hourly_spec(s, ks[i as int])));
        i = i + 1;
    }
    assert(ks.take(sorted.len() as int) == ks);
    out
}

// ---------------------------------------------------------------------------
// Headline metrics
// ---------------------------------------------------------------------------

/// The events whose user message preview is not empty.
pub open spec fn with_preview(s: Seq<TokenEventView>) -> Seq<TokenEventView>
    decreases s.len(),
{
    if s.len() == 0 {
        Seq::empty()
    } else if s.last().user_message_preview.len() > 0 {
        with_preview(s.drop_last()).push(s.last())
    } else {
        with_preview(s.drop_last())
    }
}

/// How many events are graded "超高".
pub open spec fn super_high_count(s: Seq<TokenEventView>) -> nat
    decreases s.len(),
{
    if s.len() == 0 {
        0
    } else if is_super_high(s.last().status) {
        super_high_count(s.drop_last()) + 1
    } else {
        super_high_count(s.drop_last())
    }
}

/// Integer division rounding toward zero, as `i64 /` does.
pub open spec fn trunc_div(a: int, n: int) -> int {
    if a >= 0 {
        a / n
    } else {
        -((-a) / n)
    }
}

/// The greatest total of the buckets, 0 where there are none.
pub open spec fn peak_total(b: Seq<HourlyBucketView>) -> i64
    decreases b.len(),
{
    if b.len() == 0 {
        0
    } else if b.len() == 1 {
        b[0].total_tokens
    } else if peak_total(b.drop_last()) <= b.last().total_tokens {
        b.last().total_tokens
    } else {
        peak_total(b.drop_last())
    }
}

/// The dashboard's headline figures (the cache rate, a ratio, is worked out
/// by the caller from the input and cached sums).
pub struct UsageMetrics {
    pub total_tokens: i64,
    pub input_tokens: i64,
    pub cached_input_tokens: i64,
    pub non_cached_input_tokens: i64,
    pub output_tokens: i64,
    pub reasoning_output_tokens: i64,
    pub token_event_count: usize,
    pub project_count: usize,
    pub session_count: usize,
    pub turn_count: usize,
    pub user_message_count: usize,
    pub abnormal_count: usize,
    pub daily_average_tokens: i64,
    pub hourly_peak_tokens: i64,
}

/// What the figures of a set of events are.
pub open spec fn metrics_hold(m: UsageMetrics, s: Seq<TokenEventView>) -> bool {
    let sums = sums_spec(s);
    let days = distinct_keys(s, Field::Date).len();
    &&& m.total_tokens == sums.total_tokens
    &&& m.input_tokens == sums.input_tokens
    &&& m.cached_input_tokens == sums.cached_input_tokens
    &&& m.non_cached_input_tokens == saturating_diff(sums.input_tokens, sums.cached_input_tokens)
    &&& m.output_tokens == sums.output_tokens
    &&& m.reasoning_output_tokens == sums.reasoning_output_tokens
    &&& m.token_event_count == s.len()
    &&& m.project_count == distinct_keys(s, Field::Project).len()
    &&& m.session_count == distinct_keys(s, Field::Session).len()
    &&& m.turn_count == distinct_turns(s).len()
    &&& m.user_message_count == distinct_turns(with_preview(s)).len()
    &&& m.abnormal_count == super_high_count(s)
    &&& m.daily_average_tokens == (if days == 0 {
        0
    } else {
        trunc_div(sums.total_tokens as int, days as int)
    })
    &&& m.hourly_peak_tokens == peak_total(hourly_buckets_spec(s))
}

fn preview_events(events: &Vec<TokenEvent>) -> (r: Vec<TokenEvent>)
    ensures
        token_events_view(r@) == with_preview(token_events_view(events@)),
{
    let ghost s = token_events_view(events@);
    let mut out: Vec<TokenEvent> = Vec::new();
    let mut i: usize = 0;
    while i < events.len()
        invariant
            i <= events.len(),
            s == token_events_view(events@),
            token_events_view(out@) == with_preview(s.take(i as int)),
        decreases events.len() - i,
    {
        let e = &events[i];
        proof {
            let t = s.take(i + 1);
            assert(t.drop_last() == s.take(i as int));
            assert(t.last() == token_event_view(*e));
        }
        let p = chars_of(e.user_message_preview.as_str());
        if p.len() > 0 {
            let ghost before = out@;
            out.push(copy_event(e));
            assert(token_events_view(out@) == token_events_view(before).push(
                token_event_view(*e),
            ));
        }
        i = i + 1;
    }
    assert(s.take(events.len() as int) == s);
    out
}

fn count_super_high(events: &Vec<TokenEvent>) -> (r: usize)
    ensures
        r == super_high_count(token_events_view(events@)),
{
    let ghost s = token_events_view(events@);
    let mut n: usize = 0;
    let mut i: usize = 0;
    while i < events.len()
        invariant
            i <= events.len(),
            s == token_events_view(events@),
            n == super_high_count(s.take(i as int)),
            n <= i,
        decreases events.len() - i,
    {
        let e = &events[i];
        proof {
            let t = s.take(i + 1);
            assert(t.drop_last() == s.take(i as int));
            assert(t.last() == token_event_view(*e));
        }
        if is_super_high_status(e.status.as_str()) {
            n = n + 1;
        }
        i = i + 1;
    }
    assert(s.take(events.len() as int) == s);
    n
}

fn peak_of(buckets: &Vec<HourlyBucketDto>) -> (r: i64)
    ensures
        r == peak_total(hourlies_view(buckets@)),
{
    let ghost b = hourlies_view(buckets@);
    if buckets.len() == 0 {
        return 0;
    }
    let mut best = buckets[0].total_tokens;
    let mut i: usize = 1;
    assert(b.take(1).len() == 1);
    assert(b.take(1)[0] == b[0]);
    while i < buckets.len()
        invariant
            1 <= i <= buckets.len(),
            b == hourlies_view(buckets@),
            best == peak_total(b.take(i as int)),
        decreases buckets.len() - i,
    {
        proof {
            let t = b.take(i + 1);
            assert(t.drop_last() == b.take(i as int));
            assert(t.last() == hourly_view(buckets@[i as int]));
        }
        if best <= buckets[i].total_tokens {
            best = buckets[i].total_tokens;
        }
        i = i + 1;
    }
    assert(b.take(buckets.len() as int) == b);
    best
}

pub fn build_metrics(events: &Vec<TokenEvent>) -> (r: UsageMetrics)
    requires
        usage_in_range(token_events_view(events@)),
    ensures
        metrics_hold(r, token_events_view(events@)),
{
    let ghost s = token_events_view(events@);
    let sums = sum_events(events);
    let projects = distinct_field_keys(events, &Field::Project);
    let sessions = distinct_field_keys(events, &Field::Session);
    let dates = distinct_field_keys(events, &Field::Date);
    let with_messages = preview_events(events);
    let hourly = build_hourly_buckets(events);
    assert(strings_view(projects@).len() == projects.len());
    assert(strings_view(sessions@).len() == sessions.len());
    assert(strings_view(dates@).len() == dates.len());
    let daily_average_tokens = if dates.len() == 0 {
        0
    } else {
        assert(dates.len() <= events.len()) by {
            lemma_distinct_len(s, Field::Date);
        }
        let n = dates.len() as i128;
        let t = sums.total_tokens as i128;
        if t >= 0 {
            (t / n) as i64
        } else {
            let m = (-t) / n;
            assert(0 <= m <= -t);
            (-m) as i64
        }
    };
    UsageMetrics {
        total_tokens: sums.total_tokens,
        input_tokens: sums.input_tokens,
        cached_input_tokens: sums.cached_input_tokens,
        non_cached_input_tokens: non_cached_tokens(sums.input_tokens, sums.cached_input_tokens),
        output_tokens: sums.output_tokens,
        reasoning_output_tokens: sums.reasoning_output_tokens,
        token_event_count: events.len(),
        project_count: projects.len(),
        session_count: sessions.len(),
        turn_count: count_distinct_turns(events),
        user_message_count: count_distinct_turns(&with_messages),
        abnormal_count: count_super_high(events),
        daily_average_tokens,
        hourly_peak_tokens: peak_of(&hourly),
    }
}

/// There are no more distinct keys than events.
pub proof fn lemma_distinct_len(s: Seq<TokenEventView>, f: Field)
    ensures
        distinct_keys(s, f).len() <= s.len(),
    decreases s.len(),
{
    if s.len() > 0 {
        lemma_distinct_len(s.drop_last(), f);
    }
}

// ---------------------------------------------------------------------------
// The token mix
// ---------------------------------------------------------------------------

/// One part of the token mix, with the colour it is drawn in.
pub struct CompositionPart {
    pub name: String,
    pub total_tokens: i64,
    pub tone: String,
}

pub open spec fn part_view(p: CompositionPart) -> (Seq<char>, i64, Seq<char>) {
    (p.name@, p.total_tokens, p.tone@)
}

pub open spec fn parts_view(v: Seq<CompositionPart>) -> Seq<(Seq<char>, i64, Seq<char>)> {
    v.map_values(|p: CompositionPart| part_view(p))
}

/// The five parts of the token mix.
pub open spec fn composition_spec(s: Seq<TokenEventView>) -> Seq<(Seq<char>, i64, Seq<char>)> {
    let sums = sums_spec(s);
    seq![
        ("输入"@, sums.input_tokens, "blue"@),
        ("缓存输入"@, sums.cached_input_tokens, "green"@),
        ("非缓存输入"@, saturating_diff(sums.input_tokens, sums.cached_input_tokens), "orange"@),
        ("输出"@, sums.output_tokens, "purple"@),
        ("推理输出"@, sums.reasoning_output_tokens, "red"@),
    ]
}

/// The parts of the token mix, and the total their shares are taken of (the
/// total tokens, at least 1).
pub fn build_composition(events: &Vec<TokenEvent>) -> (r: (Vec<CompositionPart>, i64))
    requires
        usage_in_range(token_events_view(events@)),
    ensures
        parts_view(r.0@) == composition_spec(token_events_view(events@)),
        r.1 == if sums_spec(token_events_view(events@)).total_tokens >= 1 {
            sums_spec(token_events_view(events@)).total_tokens
        } else {
            1
        },
{
    let sums = sum_events(events);
    let total = if sums.total_tokens >= 1 {
        sums.total_tokens
    } else {
        1
    };
    let mut parts: Vec<CompositionPart> = Vec::new();
    parts.push(
        CompositionPart {
            name: "输入".to_string(),
            total_tokens: sums.input_tokens,
            tone: "blue".to_string(),
        },
    );
    parts.push(
        CompositionPart {
            name: "缓存输入".to_string(),
            total_tokens: sums.cached_input_tokens,
            tone: "green".to_string(),
        },
    );
    parts.push(
        CompositionPart {
            name: "非缓存输入".to_string(),
            total_tokens: non_cached_tokens(sums.input_tokens, sums.cached_input_tokens),
            tone: "orange".to_string(),
        },
    );
    parts.push(
        CompositionPart {
            name: "输出".to_string(),
            total_tokens: sums.output_tokens,
            tone: "purple".to_string(),
        },
    );
    parts.push(
        CompositionPart {
            name: "推理输出".to_string(),
            total_tokens: sums.reasoning_output_tokens,
            tone: "red".to_string(),
        },
    );
    assert(parts_view(parts@) == composition_spec(token_events_view(events@)));
    (parts, total)
}

// ---------------------------------------------------------------------------
// The largest projects and sessions
// ---------------------------------------------------------------------------

/// A project and its total.
pub struct TopProjectDto {
    pub project: String,
    pub project_name: String,
    pub total_tokens: i64,
}

pub open spec fn top_project_view(t: TopProjectDto) -> (Seq<char>, Seq<char>, i64) {
    (t.project@, t.project_name@, t.total_tokens)
}

pub open spec fn top_projects_view(v: Seq<TopProjectDto>) -> Seq<(Seq<char>, Seq<char>, i64)> {
    v.map_values(|t: TopProjectDto| top_project_view(t))
}

pub open spec fn larger_project_first() -> spec_fn(
    (Seq<char>, Seq<char>, i64),
    (Seq<char>, Seq<char>, i64),
) -> bool {
    |a: (Seq<char>, Seq<char>, i64), b: (Seq<char>, Seq<char>, i64)| b.2 < a.2
}

/// Each project with its name and total, in the order of the projects.
pub open spec fn project_totals(s: Seq<TokenEventView>, labels: Seq<(Seq<char>, Seq<char>)>) -> Seq<
    (Seq<char>, Seq<char>, i64),
> {
    ascending_keys(s, Field::Project).map_values(
        |p: Seq<char>|
            (
                p,
                project_display_spec(p, group_of(s, Field::Project, p), labels),
                usage_sum(group_of(s, Field::Project, p), Usage::Total) as i64,
            ),
    )
}

/// The `limit` projects with the most tokens, the largest first (equal
/// totals in the order of the projects).
pub open spec fn top_projects_spec(
    s: Seq<TokenEventView>,
    limit: nat,
    labels: Seq<(Seq<char>, Seq<char>)>,
) -> Seq<(Seq<char>, Seq<char>, i64)> {
    crate::summary::take_at_most(sort_by(project_totals(s, labels), larger_project_first()), limit)
}

/// Every value a field takes among the counts is one of its distinct keys.
pub proof fn lemma_field_listed(s: Seq<TokenEventView>, f: Field, i: int)
    requires
        0 <= i < s.len(),
    ensures
        distinct_keys(s, f).contains(crate::report::field_of(s[i], f)),
    decreases s.len(),
{
    let d = distinct_keys(s.drop_last(), f);
    if i < s.len() - 1 {
        lemma_field_listed(s.drop_last(), f, i);
        assert(s.drop_last()[i] == s[i]);
        let m = choose|m: int| 0 <= m < d.len() && d[m] == crate::report::field_of(s[i], f);
        if !d.contains(crate::report::field_of(s.last(), f)) {
            assert(d.push(crate::report::field_of(s.last(), f))[m] == d[m]);
        }
    } else {
        if !d.contains(crate::report::field_of(s.last(), f)) {
            let r = d.push(crate::report::field_of(s.last(), f));
            assert(r[d.len() as int] == crate::report::field_of(s.last(), f));
        }
    }
}

/// The top projects are the largest ones: each is listed with the true sum
/// of its tokens, the largest first; no project left out has more tokens
/// than the last one listed; and where fewer than `limit` are listed, every
/// project is.
pub proof fn lemma_top_projects_largest(
    s: Seq<TokenEventView>,
    limit: nat,
    labels: Seq<(Seq<char>, Seq<char>)>,
)
    requires
        usage_in_range(s),
    ensures
        top_projects_spec(s, limit, labels).len() <= limit,
        forall|i: int|
            0 <= i < top_projects_spec(s, limit, labels).len() ==> (#[trigger] top_projects_spec(
                s,
                limit,
                labels,
            )[i]).2 == usage_sum(
                group_of(s, Field::Project, top_projects_spec(s, limit, labels)[i].0),
                Usage::Total,
            ),
        forall|i: int, j: int|
            0 <= i < j < top_projects_spec(s, limit, labels).len() ==> (#[trigger] top_projects_spec(
                s,
                limit,
                labels,
            )[i]).2 >= (#[trigger] top_projects_spec(s, limit, labels)[j]).2,
        forall|i: int|
            0 <= i < s.len() && (forall|j: int|
                0 <= j < top_projects_spec(s, limit, labels).len() ==> (#[trigger] top_projects_spec(
                    s,
                    limit,
                    labels,
                )[j]).0 != s[i].project) ==> top_projects_spec(s, limit, labels).len() == limit
                && (limit > 0 ==> usage_sum(
                group_of(s, Field::Project, #[trigger] s[i].project),
                Usage::Total,
            ) <= top_projects_spec(s, limit, labels)[limit - 1].2),
{
    let pt = project_totals(s, labels);
    let lt = larger_project_first();
    let sorted = sort_by(pt, lt);
    let t = top_projects_spec(s, limit, labels);
    let ks = ascending_keys(s, Field::Project);
    let fp = |p: Seq<char>|
        (
            p,
            project_display_spec(p, group_of(s, Field::Project, p), labels),
            usage_sum(group_of(s, Field::Project, p), Usage::Total) as i64,
        );
    assert(pt == ks.map_values(fp));
    lemma_sort_contains(pt, lt, pt[0]);
    assert(sorted.len() == pt.len());
    assert forall|i: int| 0 <= i < t.len() implies #[trigger] t[i] == sorted[i] by {}
    assert(crate::sorting::strict_order(lt));
    crate::sorting::lemma_sort_sorted(pt, lt);
    // Each listed entry is a project with its true total.
    assert forall|m: int| 0 <= m < sorted.len() implies (#[trigger] sorted[m]).2 == usage_sum(
        group_of(s, Field::Project, sorted[m].0),
        Usage::Total,
    ) by {
        lemma_sort_contains(pt, lt, sorted[m]);
        assert(sorted.contains(sorted[m]));
        let q = choose|q: int| 0 <= q < pt.len() && pt[q] == sorted[m];
        assert(pt[q] == fp(ks[q]));
        lemma_group_in_range(s, Field::Project, ks[q]);
        lemma_sum_bounded(group_of(s, Field::Project, ks[q]), Usage::Total);
    }
    assert forall|i: int, j: int| 0 <= i < j < t.len() implies (#[trigger] t[i]).2 >= (#[trigger] t[j]).2 by {
        assert(!lt(sorted[j], sorted[i]));
    }
    assert forall|i: int|
        0 <= i < s.len() && (forall|j: int| 0 <= j < t.len() ==> (#[trigger] t[j]).0 != s[i].project)
            implies t.len() == limit && (limit > 0 ==> usage_sum(
            group_of(s, Field::Project, #[trigger] s[i].project),
            Usage::Total,
        ) <= t[limit - 1].2) by {
        let k = s[i].project;
        lemma_field_listed(s, Field::Project, i);
        lemma_sort_contains(distinct_keys(s, Field::Project), lex_order(), k);
        let q = choose|q: int| 0 <= q < ks.len() && ks[q] == k;
        assert(pt[q] == fp(k));
        lemma_sort_contains(pt, lt, fp(k));
        assert(pt.contains(fp(k)));
        let m = choose|m: int| 0 <= m < sorted.len() && sorted[m] == fp(k);
        if m < t.len() {
            assert(t[m].0 == k);
        }
        assert(m >= t.len());
        assert(t.len() == limit);
        if limit > 0 {
            assert(t[limit - 1] == sorted[limit - 1]);
            assert(!lt(sorted[m], sorted[limit - 1]));
        }
        lemma_group_in_range(s, Field::Project, k);
        lemma_sum_bounded(group_of(s, Field::Project, k), Usage::Total);
    }
}

fn copy_top_project(t: &TopProjectDto) -> (r: TopProjectDto)
    ensures
        top_project_view(r) == top_project_view(*t),
{
    TopProjectDto {
        project: copy_string(&t.project),
        project_name: copy_string(&t.project_name),
        total_tokens: t.total_tokens,
    }
}

fn sort_top_projects(v: &Vec<TopProjectDto>) -> (r: Vec<TopProjectDto>)
    ensures
        top_projects_view(r@) == sort_by(top_projects_view(v@), larger_project_first()),
{
    let ghost all = top_projects_view(v@);
    let ghost lt = larger_project_first();
    let mut sorted: Vec<TopProjectDto> = Vec::new();
    let mut i: usize = 0;
    while i < v.len()
        invariant
            i <= v.len(),
            lt == larger_project_first(),
            all == top_projects_view(v@),
            top_projects_view(sorted@) == sort_by(all.take(i as int), lt),
        decreases v.len() - i,
    {
        let x = copy_top_project(&v[i]);
        let ghost xv = top_project_view(x);
        assert(xv == all[i as int]);
        let mut j: usize = 0;
        while j < sorted.len() && !(sorted[j].total_tokens < x.total_tokens)
            invariant
                j <= sorted.len(),
                lt == larger_project_first(),
                xv == top_project_view(x),
                forall|k: int| 0 <= k < j ==> !lt(xv, #[trigger] top_projects_view(sorted@)[k]),
            decreases sorted.len() - j,
        {
            j = j + 1;
        }
        proof {
            let t = all.take(i + 1);
            assert(t.drop_last() == all.take(i as int));
            assert(t.last() == xv);
            lemma_insert_at(top_projects_view(sorted@), xv, lt, j as int);
        }
        let ghost before = sorted@;
        sorted.insert(j, x);
        assert(top_projects_view(sorted@) == top_projects_view(before).take(j as int).push(xv) + top_projects_view(
            before,
        ).skip(j as int));
        i = i + 1;
    }
    assert(all.take(v.len() as int) == all);
    sorted
}

pub fn build_top_projects(events: &Vec<TokenEvent>, limit: usize, names: &DisplayNameMaps) -> (r:
    Vec<TopProjectDto>)
    requires
        usage_in_range(token_events_view(events@)),
    ensures
        top_projects_view(r@) == top_projects_spec(
            token_events_view(events@),
            limit as nat,
            pairs_view(names.workspace_labels@),
        ),
{
    let ghost s = token_events_view(events@);
    let ghost labels = pairs_view(names.workspace_labels@);
    let keys = ascending_group_keys(events, &Field::Project);
    let ghost ks = ascending_keys(s, Field::Project);
    let ghost f = |p: Seq<char>|
        (
            p,
            project_display_spec(p, group_of(s, Field::Project, p), labels),
            usage_sum(group_of(s, Field::Project, p), Usage::Total) as i64,
        );
    let mut rows: Vec<TopProjectDto> = Vec::new();
    let mut i: usize = 0;
    while i < keys.len()
        invariant
            i <= keys.len(),
            s == token_events_view(events@),
            labels == pairs_view(names.workspace_labels@),
            usage_in_range(s),
            ks == ascending_keys(s, Field::Project),
            strings_view(keys@) == ks,
            f == (|p: Seq<char>|
                (
                    p,
                    project_display_spec(p, group_of(s, Field::Project, p), labels),
                    usage_sum(group_of(s, Field::Project, p), Usage::Total) as i64,
                )),
            top_projects_view(rows@) == ks.take(i as int).map_values(f),
        decreases keys.len() - i,
    {
        let g = group_events(events, &Field::Project, keys[i].as_str());
        proof {
            assert(keys@[i as int]@ == ks[i as int]);
            lemma_group_in_range(s, Field::Project, ks[i as int]);
        }
        let sums = sum_events(&g);
        let row = TopProjectDto {
            project: copy_string(&keys[i]),
            project_name: project_display_name(keys[i].as_str(), &g, names),
            total_tokens: sums.total_tokens,
        };
        let ghost before = rows@;
        rows.push(row);
        assert(top_projects_view(rows@) == top_projects_view(before).push(top_project_view(row)));
        assert(ks.take(i + 1).map_values(f) == ks.take(i as int).map_values(f).push(
            f(ks[i as int]),
        ));
        i = i + 1;
    }
    assert(ks.take(keys.len() as int) == ks);
    assert(top_projects_view(rows@) == project_totals(s, labels));
    let mut sorted = sort_top_projects(&rows);
    sorted.truncate(limit);
    sorted
}

/// A session and its total, with its project.
pub struct TopSessionDto {
    pub session_id: String,
    pub session_name: String,
    pub project: String,
    pub project_name: String,
    pub total_tokens: i64,
}

pub struct TopSessionView {
    pub session_id: Seq<char>,
    pub session_name: Seq<char>,
    pub project: Seq<char>,
    pub project_name: Seq<char>,
    pub total_tokens: i64,
}

pub open spec fn top_session_view(t: TopSessionDto) -> TopSessionView {
    TopSessionView {
        session_id: t.session_id@,
        session_name: t.session_name@,
        project: t.project@,
        project_name: t.project_name@,
        total_tokens: t.total_tokens,
    }
}

pub open spec fn top_sessions_view(v: Seq<TopSessionDto>) -> Seq<TopSessionView> {
    v.map_values(|t: TopSessionDto| top_session_view(t))
}

pub open spec fn larger_session_first() -> spec_fn(TopSessionView, TopSessionView) -> bool {
    |a: TopSessionView, b: TopSessionView| b.total_tokens < a.total_tokens
}

/// A session with its title, its project (that of its first count) and
/// total.
pub open spec fn session_total_spec(
    s: Seq<TokenEventView>,
    sid: Seq<char>,
    titles: Seq<(Seq<char>, Seq<char>)>,
    labels: Seq<(Seq<char>, Seq<char>)>,
) -> TopSessionView {
    let g = group_of(s, Field::Session, sid);
    TopSessionView {
        session_id: sid,
        session_name: session_node_spec(sid, titles),
        project: g[0].project,
        project_name: project_display_spec(g[0].project, g, labels),
        total_tokens: usage_sum(g, Usage::Total) as i64,
    }
}

/// The `limit` sessions with the most tokens, the largest first (equal
/// totals in the order of the session ids).
pub open spec fn top_sessions_spec(
    s: Seq<TokenEventView>,
    limit: nat,
    titles: Seq<(Seq<char>, Seq<char>)>,
    labels: Seq<(Seq<char>, Seq<char>)>,
) -> Seq<TopSessionView> {
    crate::summary::take_at_most(
        sort_by(
            ascending_keys(s, Field::Session).map_values(
                |sid: Seq<char>| session_total_spec(s, sid, titles, labels),
            ),
            larger_session_first(),
        ),
        limit,
    )
}

/// The top sessions are the largest ones: each is listed with the true sum
/// of its tokens, the largest first; no session left out has more tokens
/// than the last one listed; and where fewer than `limit` are listed, every
/// session is.
pub proof fn lemma_top_sessions_largest(
    s: Seq<TokenEventView>,
    limit: nat,
    titles: Seq<(Seq<char>, Seq<char>)>,
    labels: Seq<(Seq<char>, Seq<char>)>,
)
    requires
        usage_in_range(s),
    ensures
        top_sessions_spec(s, limit, titles, labels).len() <= limit,
        forall|i: int|
            0 <= i < top_sessions_spec(s, limit, titles, labels).len() ==> (
            #[trigger] top_sessions_spec(s, limit, titles, labels)[i]).total_tokens == usage_sum(
                group_of(s, Field::Session, top_sessions_spec(s, limit, titles, labels)[i].session_id),
                Usage::Total,
            ),
        forall|i: int, j: int|
            0 <= i < j < top_sessions_spec(s, limit, titles, labels).len() ==> (
            #[trigger] top_sessions_spec(s, limit, titles, labels)[i]).total_tokens >= (
            #[trigger] top_sessions_spec(s, limit, titles, labels)[j]).total_tokens,
        forall|i: int|
            0 <= i < s.len() && (forall|j: int|
                0 <= j < top_sessions_spec(s, limit, titles, labels).len() ==> (
                #[trigger] top_sessions_spec(s, limit, titles, labels)[j]).session_id
                    != s[i].session_id) ==> top_sessions_spec(s, limit, titles, labels).len() == limit
                && (limit > 0 ==> usage_sum(
                group_of(s, Field::Session, #[trigger] s[i].session_id),
                Usage::Total,
            ) <= top_sessions_spec(s, limit, titles, labels)[limit - 1].total_tokens),
{
    let ks = ascending_keys(s, Field::Session);
    let fp = |sid: Seq<char>| session_total_spec(s, sid, titles, labels);
    let pt = ks.map_values(fp);
    let lt = larger_session_first();
    let sorted = sort_by(pt, lt);
    let t = top_sessions_spec(s, limit, titles, labels);
    assert(t == crate::summary::take_at_most(sorted, limit));
    if pt.len() > 0 {
        lemma_sort_contains(pt, lt, pt[0]);
    } else {
        lemma_sort_contains(pt, lt, fp(Seq::empty()));
    }
    assert(sorted.len() == pt.len());
    assert forall|i: int| 0 <= i < t.len() implies #[trigger] t[i] == sorted[i] by {}
    assert(crate::sorting::strict_order(lt));
    crate::sorting::lemma_sort_sorted(pt, lt);
    assert forall|m: int| 0 <= m < sorted.len() implies (#[trigger] sorted[m]).total_tokens
        == usage_sum(group_of(s, Field::Session, sorted[m].session_id), Usage::Total) by {
        lemma_sort_contains(pt, lt, sorted[m]);
        assert(sorted.contains(sorted[m]));
        let q = choose|q: int| 0 <= q < pt.len() && pt[q] == sorted[m];
        assert(pt[q] == fp(ks[q]));
        lemma_group_in_range(s, Field::Session, ks[q]);
        lemma_sum_bounded(group_of(s, Field::Session, ks[q]), Usage::Total);
    }
    assert forall|i: int, j: int| 0 <= i < j < t.len() implies (#[trigger] t[i]).total_tokens
        >= (#[trigger] t[j]).total_tokens by {
        assert(!lt(sorted[j], sorted[i]));
    }
    assert forall|i: int|
        0 <= i < s.len() && (forall|j: int| 0 <= j < t.len() ==> (#[trigger] t[j]).session_id
            != s[i].session_id) implies t.len() == limit && (limit > 0 ==> usage_sum(
            group_of(s, Field::Session, #[trigger] s[i].session_id),
            Usage::Total,
        ) <= t[limit - 1].total_tokens) by {
        let k = s[i].session_id;
        lemma_field_listed(s, Field::Session, i);
        lemma_sort_contains(distinct_keys(s, Field::Session), lex_order(), k);
        let q = choose|q: int| 0 <= q < ks.len() && ks[q] == k;
        assert(pt[q] == fp(k));
        lemma_sort_contains(pt, lt, fp(k));
        assert(pt.contains(fp(k)));
        let m = choose|m: int| 0 <= m < sorted.len() && sorted[m] == fp(k);
        if m < t.len() {
            assert(t[m].session_id == k);
        }
        assert(m >= t.len());
        assert(t.len() == limit);
        if limit > 0 {
            assert(t[limit - 1] == sorted[limit - 1]);
            assert(!lt(sorted[m], sorted[limit - 1]));
        }
        lemma_group_in_range(s, Field::Session, k);
        lemma_sum_bounded(group_of(s, Field::Session, k), Usage::Total);
    }
}

fn copy_top_session(t: &TopSessionDto) -> (r: TopSessionDto)
    ensures
        top_session_view(r) == top_session_view(*t),
{
    TopSessionDto {
        session_id: copy_string(&t.session_id),
        session_name: copy_string(&t.session_name),
        project: copy_string(&t.project),
        project_name: copy_string(&t.project_name),
        total_tokens: t.total_tokens,
    }
}

fn sort_top_sessions(v: &Vec<TopSessionDto>) -> (r: Vec<TopSessionDto>)
    ensures
        top_sessions_view(r@) == sort_by(top_sessions_view(v@), larger_session_first()),
{
    let ghost all = top_sessions_view(v@);
    let ghost lt = larger_session_first();
    let mut sorted: Vec<TopSessionDto> = Vec::new();
    let mut i: usize = 0;
    while i < v.len()
        invariant
            i <= v.len(),
            lt == larger_session_first(),
            all == top_sessions_view(v@),
            top_sessions_view(sorted@) == sort_by(all.take(i as int), lt),
        decreases v.len() - i,
    {
        let x = copy_top_session(&v[i]);
        let ghost xv = top_session_view(x);
        assert(xv == all[i as int]);
        let mut j: usize = 0;
        while j < sorted.len() && !(sorted[j].total_tokens < x.total_tokens)
            invariant
                j <= sorted.len(),
                lt == larger_session_first(),
                xv == top_session_view(x),
                forall|k: int| 0 <= k < j ==> !lt(xv, #[trigger] top_sessions_view(sorted@)[k]),
            decreases sorted.len() - j,
        {
            j = j + 1;
        }
        proof {
            let t = all.take(i + 1);
            assert(t.drop_last() == all.take(i as int));
            assert(t.last() == xv);
            lemma_insert_at(top_sessions_view(sorted@), xv, lt, j as int);
        }
        let ghost before = sorted@;
        sorted.insert(j, x);
        assert(top_sessions_view(sorted@) == top_sessions_view(before).take(j as int).push(xv) + top_sessions_view(
            before,
        ).skip(j as int));
        i = i + 1;
    }
    assert(all.take(v.len() as int) == all);
    sorted
}

/// The name of a session: its title, else `Session` and its short id.
pub fn session_name(sid: &str, names: &DisplayNameMaps) -> (r: String)
    ensures
        r@ == session_node_spec(sid@, pairs_view(names.session_titles@)),
{
    match lookup_name(&names.session_titles, sid) {
        Some(t) => t,
        None => {
            let short = short_id(sid);
            crate::text::concat_str("Session ", short.as_str())
        },
    }
}

pub fn build_top_sessions(events: &Vec<TokenEvent>, limit: usize, names: &DisplayNameMaps) -> (r:
    Vec<TopSessionDto>)
    requires
        usage_in_range(token_events_view(events@)),
    ensures
        top_sessions_view(r@) == top_sessions_spec(
            token_events_view(events@),
            limit as nat,
            pairs_view(names.session_titles@),
            pairs_view(names.workspace_labels@),
        ),
{
    let ghost s = token_events_view(events@);
    let ghost titles = pairs_view(names.session_titles@);
    let ghost labels = pairs_view(names.workspace_labels@);
    let keys = ascending_group_keys(events, &Field::Session);
    let ghost ks = ascending_keys(s, Field::Session);
    let ghost f = |sid: Seq<char>| session_total_spec(s, sid, titles, labels);
    let mut rows: Vec<TopSessionDto> = Vec::new();
    let mut i: usize = 0;
    while i < keys.len()
        invariant
            i <= keys.len(),
            s == token_events_view(events@),
            titles == pairs_view(names.session_titles@),
            labels == pairs_view(names.workspace_labels@),
            usage_in_range(s),
            ks == ascending_keys(s, Field::Session),
            strings_view(keys@) == ks,
            f == (|sid: Seq<char>| session_total_spec(s, sid, titles, labels)),
            top_sessions_view(rows@) == ks.take(i as int).map_values(f),
        decreases keys.len() - i,
    {
        let g = group_events(events, &Field::Session, keys[i].as_str());
        proof {
            assert(keys@[i as int]@ == ks[i as int]);
            lemma_group_in_range(s, Field::Session, ks[i as int]);
            lemma_ascending_nonempty(s, Field::Session, i as int);
        }
        assert(token_event_view(g@[0]) == token_events_view(g@)[0]);
        let sums = sum_events(&g);
        let project = copy_string(&g[0].project);
        let project_name = project_display_name(project.as_str(), &g, names);
        let row = TopSessionDto {
            session_id: copy_string(&keys[i]),
            session_name: session_name(keys[i].as_str(), names),
            project,
            project_name,
            total_tokens: sums.total_tokens,
        };
        let ghost before = rows@;
        rows.push(row);
        assert(top_sessions_view(rows@) == top_sessions_view(before).push(top_session_view(row)));
        assert(ks.take(i + 1).map_values(f) == ks.take(i as int).map_values(f).push(
            f(ks[i as int]),
        ));
        i = i + 1;
    }
    assert(ks.take(keys.len() as int) == ks);
    let mut sorted = sort_top_sessions(&rows);
    sorted.truncate(limit);
    sorted
}

// ---------------------------------------------------------------------------
// Filter options
// ---------------------------------------------------------------------------

/// A choice offered by a filter.
pub struct FilterOptionDto {
    pub value: String,
    pub label: String,
    pub title: String,
    pub project: Option<String>,
}

pub struct FilterOptionView {
    pub value: Seq<char>,
    pub label: Seq<char>,
    pub title: Seq<char>,
    pub project: Option<Seq<char>>,
}

pub open spec fn option_view(o: FilterOptionDto) -> FilterOptionView {
    FilterOptionView {
        value: o.value@,
        label: o.label@,
        title: o.title@,
        project: crate::status::opt_view(o.project),
    }
}

pub open spec fn options_view(v: Seq<FilterOptionDto>) -> Seq<FilterOptionView> {
    v.map_values(|o: FilterOptionDto| option_view(o))
}

/// Options in the order of their labels, then of their values.
pub open spec fn label_order() -> spec_fn(FilterOptionView, FilterOptionView) -> bool {
    |a: FilterOptionView, b: FilterOptionView|
        lex_lt(a.label, b.label) || (a.label == b.label && lex_lt(a.value, b.value))
}

fn option_before(a: &FilterOptionDto, b: &FilterOptionDto) -> (r: bool)
    ensures
        r == (label_order())(option_view(*a), option_view(*b)),
{
    let c = lex_compare(&chars_of(a.label.as_str()), &chars_of(b.label.as_str()));
    c == -1 || (c == 0 && lex_compare(&chars_of(a.value.as_str()), &chars_of(b.value.as_str()))
        == -1)
}

fn copy_option(o: &FilterOptionDto) -> (r: FilterOptionDto)
    ensures
        option_view(r) == option_view(*o),
{
    FilterOptionDto {
        value: copy_string(&o.value),
        label: copy_string(&o.label),
        title: copy_string(&o.title),
        project: crate::session::copy_opt(&o.project),
    }
}

fn sort_options(v: &Vec<FilterOptionDto>) -> (r: Vec<FilterOptionDto>)
    ensures
        options_view(r@) == sort_by(options_view(v@), label_order()),
{
    let ghost all = options_view(v@);
    let ghost lt = label_order();
    let mut sorted: Vec<FilterOptionDto> = Vec::new();
    let mut i: usize = 0;
    while i < v.len()
        invariant
            i <= v.len(),
            lt == label_order(),
            all == options_view(v@),
            options_view(sorted@) == sort_by(all.take(i as int), lt),
        decreases v.len() - i,
    {
        let x = copy_option(&v[i]);
        let ghost xv = option_view(x);
        assert(xv == all[i as int]);
        let mut j: usize = 0;
        while j < sorted.len() && !option_before(&x, &sorted[j])
            invariant
                j <= sorted.len(),
                lt == label_order(),
                xv == option_view(x),
                forall|k: int| 0 <= k < j ==> !lt(xv, #[trigger] options_view(sorted@)[k]),
            decreases sorted.len() - j,
        {
            j = j + 1;
        }
        proof {
            let t = all.take(i + 1);
            assert(t.drop_last() == all.take(i as int));
            assert(t.last() == xv);
            lemma_insert_at(options_view(sorted@), xv, lt, j as int);
        }
        let ghost before = sorted@;
        sorted.insert(j, x);
        assert(options_view(sorted@) == options_view(before).take(j as int).push(xv) + options_view(
            before,
        ).skip(j as int));
        i = i + 1;
    }
    assert(all.take(v.len() as int) == all);
    sorted
}

/// The option of a project: named by its label, with the project in its
/// title where the label differs.
pub open spec fn project_option_spec(
    s: Seq<TokenEventView>,
    p: Seq<char>,
    labels: Seq<(Seq<char>, Seq<char>)>,
) -> FilterOptionView {
    let label = project_display_spec(p, group_of(s, Field::Project, p), labels);
    FilterOptionView {
        value: p,
        label,
        title: if label == p {
            p
        } else {
            label + "\n项目："@ + p
        },
        project: None,
    }
}

/// The project options, in the order of their labels.
pub open spec fn project_options_spec(s: Seq<TokenEventView>, labels: Seq<(Seq<char>, Seq<char>)>) -> Seq<
    FilterOptionView,
> {
    sort_by(
        ascending_keys(s, Field::Project).map_values(
            |p: Seq<char>| project_option_spec(s, p, labels),
        ),
        label_order(),
    )
}

pub fn build_project_options(events: &Vec<TokenEvent>, names: &DisplayNameMaps) -> (r: Vec<
    FilterOptionDto,
>)
    ensures
        options_view(r@) == project_options_spec(
            token_events_view(events@),
            pairs_view(names.workspace_labels@),
        ),
{
    let ghost s = token_events_view(events@);
    let ghost labels = pairs_view(names.workspace_labels@);
    let keys = ascending_group_keys(events, &Field::Project);
    let ghost ks = ascending_keys(s, Field::Project);
    let ghost f = |p: Seq<char>| project_option_spec(s, p, labels);
    let mut options: Vec<FilterOptionDto> = Vec::new();
    let mut i: usize = 0;
    while i < keys.len()
        invariant
            i <= keys.len(),
            s == token_events_view(events@),
            labels == pairs_view(names.workspace_labels@),
            ks == ascending_keys(s, Field::Project),
            strings_view(keys@) == ks,
            f == (|p: Seq<char>| project_option_spec(s, p, labels)),
            options_view(options@) == ks.take(i as int).map_values(f),
        decreases keys.len() - i,
    {
        let p = keys[i].as_str();
        let g = group_events(events, &Field::Project, p);
        assert(keys@[i as int]@ == ks[i as int]);
        let label = project_display_name(p, &g, names);
        let title = if str_eq(label.as_str(), p) {
            copy_string(&keys[i])
        } else {
            let mut v = chars_of(label.as_str());
            extend_str(&mut v, "\n项目：");
            extend_str(&mut v, p);
            string_from(&v)
        };
        let o = FilterOptionDto { value: copy_string(&keys[i]), label, title, project: None };
        let ghost before = options@;
        options.push(o);
        assert(options_view(options@) == options_view(before).push(option_view(o)));
        assert(ks.take(i + 1).map_values(f) == ks.take(i as int).map_values(f).push(
            f(ks[i as int]),
        ));
        i = i + 1;
    }
    assert(ks.take(keys.len() as int) == ks);
    sort_options(&options)
}

/// The option of a session: named by its title, with its project in its
/// title.
pub open spec fn session_option_spec(
    s: Seq<TokenEventView>,
    sid: Seq<char>,
    titles: Seq<(Seq<char>, Seq<char>)>,
    labels: Seq<(Seq<char>, Seq<char>)>,
) -> FilterOptionView {
    let g = group_of(s, Field::Session, sid);
    let project = g[0].project;
    let label = session_node_spec(sid, titles);
    FilterOptionView {
        value: sid,
        label,
        title: label + "\n项目："@ + project_display_spec(project, g, labels) + "\nSession ID："@
            + sid,
        project: Some(project),
    }
}

/// The session options, in the order of their labels.
pub open spec fn session_options_spec(
    s: Seq<TokenEventView>,
    titles: Seq<(Seq<char>, Seq<char>)>,
    labels: Seq<(Seq<char>, Seq<char>)>,
) -> Seq<FilterOptionView> {
    sort_by(
        ascending_keys(s, Field::Session).map_values(
            |sid: Seq<char>| session_option_spec(s, sid, titles, labels),
        ),
        label_order(),
    )
}

pub fn build_session_options(events: &Vec<TokenEvent>, names: &DisplayNameMaps) -> (r: Vec<
    FilterOptionDto,
>)
    ensures
        options_view(r@) == session_options_spec(
            token_events_view(events@),
            pairs_view(names.session_titles@),
            pairs_view(names.workspace_labels@),
        ),
{
    let ghost s = token_events_view(events@);
    let ghost titles = pairs_view(names.session_titles@);
    let ghost labels = pairs_view(names.workspace_labels@);
    let keys = ascending_group_keys(events, &Field::Session);
    let ghost ks = ascending_keys(s, Field::Session);
    let ghost f = |sid: Seq<char>| session_option_spec(s, sid, titles, labels);
    let mut options: Vec<FilterOptionDto> = Vec::new();
    let mut i: usize = 0;
    while i < keys.len()
        invariant
            i <= keys.len(),
            s == token_events_view(events@),
            titles == pairs_view(names.session_titles@),
            labels == pairs_view(names.workspace_labels@),
            ks == ascending_keys(s, Field::Session),
            strings_view(keys@) == ks,
            f == (|sid: Seq<char>| session_option_spec(s, sid, titles, labels)),
            options_view(options@) == ks.take(i as int).map_values(f),
        decreases keys.len() - i,
    {
        let sid = keys[i].as_str();
        let g = group_events(events, &Field::Session, sid);
        proof {
            assert(keys@[i as int]@ == ks[i as int]);
            lemma_ascending_nonempty(s, Field::Session, i as int);
        }
        assert(token_event_view(g@[0]) == token_events_view(g@)[0]);
        let label = session_name(sid, names);
        let project_name = project_display_name(g[0].project.as_str(), &g, names);
        let mut v = chars_of(label.as_str());
        extend_str(&mut v, "\n项目：");
        extend_str(&mut v, project_name.as_str());
        extend_str(&mut v, "\nSession ID：");
        extend_str(&mut v, sid);
        let o = FilterOptionDto {
            value: copy_string(&keys[i]),
            label,
            title: string_from(&v),
            project: Some(copy_string(&g[0].project)),
        };
        let ghost before = options@;
        options.push(o);
        assert(options_view(options@) == options_view(before).push(option_view(o)));
        assert(ks.take(i + 1).map_values(f) == ks.take(i as int).map_values(f).push(
            f(ks[i as int]),
        ));
        i = i + 1;
    }
    assert(ks.take(keys.len() as int) == ks);
    sort_options(&options)
}

} // verus!
