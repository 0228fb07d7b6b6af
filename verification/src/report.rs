//! Token counts as the ledger returns them, and what every report computes
//! over a group of them: sums, grades, reasons, tooltips and row keys.
use vstd::prelude::*;
use crate::json::copy_string;
use crate::session::copy_opt;
use crate::status::{
    classify_status_reason, is_super_high, is_super_high_status, opt_view, status_reason_spec,
};
use crate::text::{
    chars_of, extend_chars, extend_str, i64_text, int_text, lex_le, lex_lt, str_eq, string_from,
    trim, trim_chars, trim_str,
};

verus! {

/// One token count as stored in the ledger, with the action found before it.
pub struct TokenEvent {
    pub event_key: String,
    pub local_time: String,
    pub utc_time: String,
    pub date: String,
    pub hour: u32,
    pub session_id: String,
    pub turn_id: String,
    pub token_event_index: i64,
    pub project: String,
    pub cwd: String,
    pub user_message: String,
    pub user_message_preview: String,
    pub last_input_tokens: i64,
    pub last_cached_input_tokens: i64,
    pub last_output_tokens: i64,
    pub last_reasoning_output_tokens: i64,
    pub last_total_tokens: i64,
    /// The primary quota use, as the decimal text of a percentage.
    pub primary_used_percent: Option<String>,
    pub status: String,
    pub preceding_action: Option<String>,
}

pub struct TokenEventView {
    pub event_key: Seq<char>,
    pub local_time: Seq<char>,
    pub utc_time: Seq<char>,
    pub date: Seq<char>,
    pub hour: u32,
    pub session_id: Seq<char>,
    pub turn_id: Seq<char>,
    pub token_event_index: i64,
    pub project: Seq<char>,
    pub cwd: Seq<char>,
    pub user_message: Seq<char>,
    pub user_message_preview: Seq<char>,
    pub input: i64,
    pub cached_input: i64,
    pub output: i64,
    pub reasoning_output: i64,
    pub total: i64,
    pub primary_used_percent: Option<Seq<char>>,
    pub status: Seq<char>,
    pub preceding_action: Option<Seq<char>>,
}

pub open spec fn token_event_view(e: TokenEvent) -> TokenEventView {
    TokenEventView {
        event_key: e.event_key@,
        local_time: e.local_time@,
        utc_time: e.utc_time@,
        date: e.date@,
        hour: e.hour,
        session_id: e.session_id@,
        turn_id: e.turn_id@,
        token_event_index: e.token_event_index,
        project: e.project@,
        cwd: e.cwd@,
        user_message: e.user_message@,
        user_message_preview: e.user_message_preview@,
        input: e.last_input_tokens,
        cached_input: e.last_cached_input_tokens,
        output: e.last_output_tokens,
        reasoning_output: e.last_reasoning_output_tokens,
        total: e.last_total_tokens,
        primary_used_percent: opt_view(e.primary_used_percent),
        status: e.status@,
        preceding_action: opt_view(e.preceding_action),
    }
}

pub open spec fn token_events_view(v: Seq<TokenEvent>) -> Seq<TokenEventView> {
    v.map_values(|e: TokenEvent| token_event_view(e))
}

pub fn copy_event(e: &TokenEvent) -> (r: TokenEvent)
    ensures
        token_event_view(r) == token_event_view(*e),
{
    TokenEvent {
        event_key: copy_string(&e.event_key),
        local_time: copy_string(&e.local_time),
        utc_time: copy_string(&e.utc_time),
        date: copy_string(&e.date),
        hour: e.hour,
        session_id: copy_string(&e.session_id),
        turn_id: copy_string(&e.turn_id),
        token_event_index: e.token_event_index,
        project: copy_string(&e.project),
        cwd: copy_string(&e.cwd),
        user_message: copy_string(&e.user_message),
        user_message_preview: copy_string(&e.user_message_preview),
        last_input_tokens: e.last_input_tokens,
        last_cached_input_tokens: e.last_cached_input_tokens,
        last_output_tokens: e.last_output_tokens,
        last_reasoning_output_tokens: e.last_reasoning_output_tokens,
        last_total_tokens: e.last_total_tokens,
        primary_used_percent: copy_opt(&e.primary_used_percent),
        status: copy_string(&e.status),
        preceding_action: copy_opt(&e.preceding_action),
    }
}

// ---------------------------------------------------------------------------
// Sums
// ---------------------------------------------------------------------------

/// Which of the five token counts.
pub enum Usage {
    Input,
    Cached,
    Output,
    Reasoning,
    Total,
}

pub open spec fn usage_of(e: TokenEventView, u: Usage) -> i64 {
    match u {
        Usage::Input => e.input,
        Usage::Cached => e.cached_input,
        Usage::Output => e.output,
        Usage::Reasoning => e.reasoning_output,
        Usage::Total => e.total,
    }
}

/// The sum of one count over a group.
pub open spec fn usage_sum(s: Seq<TokenEventView>, u: Usage) -> int
    decreases s.len(),
{
    if s.len() == 0 {
        0
    } else {
        usage_sum(s.drop_last(), u) + usage_of(s.last(), u)
    }
}

pub open spec fn abs(x: int) -> int {
    if x < 0 {
        -x
    } else {
        x
    }
}

/// The sum of the magnitudes of one count over a group.
pub open spec fn usage_abs_sum(s: Seq<TokenEventView>, u: Usage) -> int
    decreases s.len(),
{
    if s.len() == 0 {
        0
    } else {
        usage_abs_sum(s.drop_last(), u) + abs(usage_of(s.last(), u) as int)
    }
}

/// Whether every sum over a part of the events, taken in any order, stays
/// within `i64`: for each count, the magnitudes add up to at most `i64::MAX`.
pub open spec fn usage_in_range(s: Seq<TokenEventView>) -> bool {
    &&& usage_abs_sum(s, Usage::Input) <= i64::MAX
    &&& usage_abs_sum(s, Usage::Cached) <= i64::MAX
    &&& usage_abs_sum(s, Usage::Output) <= i64::MAX
    &&& usage_abs_sum(s, Usage::Reasoning) <= i64::MAX
    &&& usage_abs_sum(s, Usage::Total) <= i64::MAX
}

pub proof fn lemma_sum_bounded(s: Seq<TokenEventView>, u: Usage)
    ensures
        abs(usage_sum(s, u)) <= usage_abs_sum(s, u),
        0 <= usage_abs_sum(s, u),
    decreases s.len(),
{
    if s.len() > 0 {
        lemma_sum_bounded(s.drop_last(), u);
    }
}

pub proof fn lemma_abs_sum_prefix(s: Seq<TokenEventView>, u: Usage, k: int)
    requires
        0 <= k <= s.len(),
    ensures
        usage_abs_sum(s.take(k), u) <= usage_abs_sum(s, u),
    decreases s.len(),
{
    if k < s.len() {
        lemma_abs_sum_prefix(s.drop_last(), u, k);
        assert(s.drop_last().take(k) == s.take(k));
    } else {
        assert(s.take(k) == s);
    }
}

/// The magnitude of a count.
fn magnitude(v: i64) -> (r: i128)
    ensures
        r == abs(v as int),
{
    let a = v as i128;
    if a < 0 {
        -a
    } else {
        a
    }
}

/// Whether the counts are small enough for every sum the reports take.
pub fn usage_fits(events: &Vec<TokenEvent>) -> (r: bool)
    ensures
        r == usage_in_range(token_events_view(events@)),
{
    let ghost s = token_events_view(events@);
    let limit: i128 = 0x7fff_ffff_ffff_ffff;
    let mut a_in: i128 = 0;
    let mut a_ca: i128 = 0;
    let mut a_out: i128 = 0;
    let mut a_re: i128 = 0;
    let mut a_tot: i128 = 0;
    let mut i: usize = 0;
    while i < events.len()
        invariant
            i <= events.len(),
            s == token_events_view(events@),
            limit == i64::MAX,
            a_in == usage_abs_sum(s.take(i as int), Usage::Input),
            a_ca == usage_abs_sum(s.take(i as int), Usage::Cached),
            a_out == usage_abs_sum(s.take(i as int), Usage::Output),
            a_re == usage_abs_sum(s.take(i as int), Usage::Reasoning),
            a_tot == usage_abs_sum(s.take(i as int), Usage::Total),
            0 <= a_in <= limit,
            0 <= a_ca <= limit,
            0 <= a_out <= limit,
            0 <= a_re <= limit,
            0 <= a_tot <= limit,
        decreases events.len() - i,
    {
        let e = &events[i];
        proof {
            let t = s.take(i + 1);
            assert(t.drop_last() == s.take(i as int));
            assert(t.last() == token_event_view(events@[i as int]));
        }
        a_in = a_in + magnitude(e.last_input_tokens);
        a_ca = a_ca + magnitude(e.last_cached_input_tokens);
        a_out = a_out + magnitude(e.last_output_tokens);
        a_re = a_re + magnitude(e.last_reasoning_output_tokens);
        a_tot = a_tot + magnitude(e.last_total_tokens);
        if a_in > limit || a_ca > limit || a_out > limit || a_re > limit || a_tot > limit {
            proof {
                lemma_abs_sum_prefix(s, Usage::Input, i + 1);
                lemma_abs_sum_prefix(s, Usage::Cached, i + 1);
                lemma_abs_sum_prefix(s, Usage::Output, i + 1);
                lemma_abs_sum_prefix(s, Usage::Reasoning, i + 1);
                lemma_abs_sum_prefix(s, Usage::Total, i + 1);
            }
            return false;
        }
        i = i + 1;
    }
    assert(s.take(events.len() as int) == s);
    true
}

/// The five sums of a group.
#[derive(Clone, Copy, PartialEq, Eq, Structural, Debug)]
pub struct TokenSums {
    pub input_tokens: i64,
    pub cached_input_tokens: i64,
    pub output_tokens: i64,
    pub reasoning_output_tokens: i64,
    pub total_tokens: i64,
}

pub open spec fn sums_spec(s: Seq<TokenEventView>) -> TokenSums {
    TokenSums {
        input_tokens: usage_sum(s, Usage::Input) as i64,
        cached_input_tokens: usage_sum(s, Usage::Cached) as i64,
        output_tokens: usage_sum(s, Usage::Output) as i64,
        reasoning_output_tokens: usage_sum(s, Usage::Reasoning) as i64,
        total_tokens: usage_sum(s, Usage::Total) as i64,
    }
}

pub fn sum_events(events: &Vec<TokenEvent>) -> (r: TokenSums)
    requires
        usage_in_range(token_events_view(events@)),
    ensures
        r == sums_spec(token_events_view(events@)),
        r.input_tokens == usage_sum(token_events_view(events@), Usage::Input),
        r.cached_input_tokens == usage_sum(token_events_view(events@), Usage::Cached),
        r.output_tokens == usage_sum(token_events_view(events@), Usage::Output),
        r.reasoning_output_tokens == usage_sum(token_events_view(events@), Usage::Reasoning),
        r.total_tokens == usage_sum(token_events_view(events@), Usage::Total),
{
    let ghost s = token_events_view(events@);
    let mut sums = TokenSums {
        input_tokens: 0,
        cached_input_tokens: 0,
        output_tokens: 0,
        reasoning_output_tokens: 0,
        total_tokens: 0,
    };
    let mut i: usize = 0;
    while i < events.len()
        invariant
            i <= events.len(),
            s == token_events_view(events@),
            usage_in_range(s),
            sums.input_tokens == usage_sum(s.take(i as int), Usage::Input),
            sums.cached_input_tokens == usage_sum(s.take(i as int), Usage::Cached),
            sums.output_tokens == usage_sum(s.take(i as int), Usage::Output),
            sums.reasoning_output_tokens == usage_sum(s.take(i as int), Usage::Reasoning),
            sums.total_tokens == usage_sum(s.take(i as int), Usage::Total),
        decreases events.len() - i,
    {
        let e = &events[i];
        proof {
            let t = s.take(i + 1);
            assert(t.drop_last() == s.take(i as int));
            assert(t.last() == token_event_view(events@[i as int]));
            lemma_abs_sum_prefix(s, Usage::Input, i + 1);
            lemma_abs_sum_prefix(s, Usage::Cached, i + 1);
            lemma_abs_sum_prefix(s, Usage::Output, i + 1);
            lemma_abs_sum_prefix(s, Usage::Reasoning, i + 1);
            lemma_abs_sum_prefix(s, Usage::Total, i + 1);
            lemma_sum_bounded(t, Usage::Input);
            lemma_sum_bounded(t, Usage::Cached);
            lemma_sum_bounded(t, Usage::Output);
            lemma_sum_bounded(t, Usage::Reasoning);
            lemma_sum_bounded(t, Usage::Total);
        }
        sums.input_tokens = sums.input_tokens + e.last_input_tokens;
        sums.cached_input_tokens = sums.cached_input_tokens + e.last_cached_input_tokens;
        sums.output_tokens = sums.output_tokens + e.last_output_tokens;
        sums.reasoning_output_tokens = sums.reasoning_output_tokens + e.last_reasoning_output_tokens;
        sums.total_tokens = sums.total_tokens + e.last_total_tokens;
        i = i + 1;
    }
    assert(s.take(events.len() as int) == s);
    sums
}

// ---------------------------------------------------------------------------
// Groups
// ---------------------------------------------------------------------------

/// The text a report groups token counts by.
pub enum Field {
    Project,
    Session,
    Turn,
    Date,
}

pub open spec fn field_of(e: TokenEventView, f: Field) -> Seq<char> {
    match f {
        Field::Project => e.project,
        Field::Session => e.session_id,
        Field::Turn => e.turn_id,
        Field::Date => e.date,
    }
}

fn field_str<'a>(e: &'a TokenEvent, f: &Field) -> (r: &'a String)
    ensures
        r@ == field_of(token_event_view(*e), *f),
{
    match f {
        Field::Project => &e.project,
        Field::Session => &e.session_id,
        Field::Turn => &e.turn_id,
        Field::Date => &e.date,
    }
}

/// The events whose field `f` is `k`, in their order.
pub open spec fn group_of(s: Seq<TokenEventView>, f: Field, k: Seq<char>) -> Seq<TokenEventView>
    decreases s.len(),
{
    if s.len() == 0 {
        Seq::empty()
    } else if field_of(s.last(), f) == k {
        group_of(s.drop_last(), f, k).push(s.last())
    } else {
        group_of(s.drop_last(), f, k)
    }
}

/// The values of field `f`, each once, in the order they first appear.
pub open spec fn distinct_keys(s: Seq<TokenEventView>, f: Field) -> Seq<Seq<char>>
    decreases s.len(),
{
    if s.len() == 0 {
        Seq::empty()
    } else if distinct_keys(s.drop_last(), f).contains(field_of(s.last(), f)) {
        distinct_keys(s.drop_last(), f)
    } else {
        distinct_keys(s.drop_last(), f).push(field_of(s.last(), f))
    }
}

pub proof fn lemma_group_abs_sum(s: Seq<TokenEventView>, f: Field, k: Seq<char>, u: Usage)
    ensures
        usage_abs_sum(group_of(s, f, k), u) <= usage_abs_sum(s, u),
    decreases s.len(),
{
    if s.len() > 0 {
        lemma_group_abs_sum(s.drop_last(), f, k, u);
        let g = group_of(s.drop_last(), f, k);
        if field_of(s.last(), f) == k {
            assert(g.push(s.last()).drop_last() == g);
        }
    }
}

/// A group of events in range is in range.
pub proof fn lemma_group_in_range(s: Seq<TokenEventView>, f: Field, k: Seq<char>)
    requires
        usage_in_range(s),
    ensures
        usage_in_range(group_of(s, f, k)),
{
    lemma_group_abs_sum(s, f, k, Usage::Input);
    lemma_group_abs_sum(s, f, k, Usage::Cached);
    lemma_group_abs_sum(s, f, k, Usage::Output);
    lemma_group_abs_sum(s, f, k, Usage::Reasoning);
    lemma_group_abs_sum(s, f, k, Usage::Total);
}

/// Every key that appears has a non-empty group.
pub proof fn lemma_distinct_keys_nonempty(s: Seq<TokenEventView>, f: Field, k: Seq<char>)
    requires
        distinct_keys(s, f).contains(k),
    ensures
        group_of(s, f, k).len() > 0,
    decreases s.len(),
{
    if s.len() > 0 {
        if field_of(s.last(), f) != k {
            lemma_distinct_keys_nonempty(s.drop_last(), f, k);
        }
    }
}

/// The events of a group.
pub fn group_events(events: &Vec<TokenEvent>, f: &Field, key: &str) -> (r: Vec<TokenEvent>)
    ensures
        token_events_view(r@) == group_of(token_events_view(events@), *f, key@),
{
    let ghost s = token_events_view(events@);
    let mut out: Vec<TokenEvent> = Vec::new();
    let mut i: usize = 0;
    while i < events.len()
        invariant
            i <= events.len(),
            s == token_events_view(events@),
            token_events_view(out@) == group_of(s.take(i as int), *f, key@),
        decreases events.len() - i,
    {
        let e = &events[i];
        proof {
            let t = s.take(i + 1);
            assert(t.drop_last() == s.take(i as int));
            assert(t.last() == token_event_view(events@[i as int]));
        }
        if str_eq(field_str(e, f).as_str(), key) {
            let ghost before = out@;
            out.push(copy_event(e));
            assert(token_events_view(out@) == token_events_view(before).push(
                token_event_view(*e),
            ));
        }
        i = i + 1;
    }
    assert(s.take(events.len() as int) == s);
    out
}

pub open spec fn strings_view(v: Seq<String>) -> Seq<Seq<char>> {
    v.map_values(|x: String| x@)
}

fn contains_string(v: &Vec<String>, x: &str) -> (r: bool)
    ensures
        r == strings_view(v@).contains(x@),
{
    let mut i: usize = 0;
    while i < v.len()
        invariant
            i <= v.len(),
            forall|j: int| 0 <= j < i ==> strings_view(v@)[j] != x@,
        decreases v.len() - i,
    {
        if str_eq(v[i].as_str(), x) {
            assert(strings_view(v@)[i as int] == x@);
            return true;
        }
        i = i + 1;
    }
    false
}

/// The values of field `f`, each once, in the order they first appear.
pub fn distinct_field_keys(events: &Vec<TokenEvent>, f: &Field) -> (r: Vec<String>)
    ensures
        strings_view(r@) == distinct_keys(token_events_view(events@), *f),
{
    let ghost s = token_events_view(events@);
    let mut out: Vec<String> = Vec::new();
    let mut i: usize = 0;
    while i < events.len()
        invariant
            i <= events.len(),
            s == token_events_view(events@),
            strings_view(out@) == distinct_keys(s.take(i as int), *f),
        decreases events.len() - i,
    {
        let e = &events[i];
        proof {
            let t = s.take(i + 1);
            assert(t.drop_last() == s.take(i as int));
            assert(t.last() == token_event_view(events@[i as int]));
        }
        let k = field_str(e, f);
        if !contains_string(&out, k.as_str()) {
            let ghost before = out@;
            out.push(copy_string(k));
            assert(strings_view(out@) == strings_view(before).push(k@));
        }
        i = i + 1;
    }
    assert(s.take(events.len() as int) == s);
    out
}

// ---------------------------------------------------------------------------
// Times
// ---------------------------------------------------------------------------

/// The latest UTC time of a group (the greatest text), `""` for none.
pub open spec fn latest_utc_spec(s: Seq<TokenEventView>) -> Seq<char>
    decreases s.len(),
{
    if s.len() == 0 {
        Seq::empty()
    } else if lex_lt(latest_utc_spec(s.drop_last()), s.last().utc_time) {
        s.last().utc_time
    } else {
        latest_utc_spec(s.drop_last())
    }
}

pub fn latest_utc(events: &Vec<TokenEvent>) -> (r: String)
    ensures
        r@ == latest_utc_spec(token_events_view(events@)),
{
    let ghost s = token_events_view(events@);
    let mut best: Vec<char> = Vec::new();
    let mut i: usize = 0;
    while i < events.len()
        invariant
            i <= events.len(),
            s == token_events_view(events@),
            best@ == latest_utc_spec(s.take(i as int)),
        decreases events.len() - i,
    {
        proof {
            let t = s.take(i + 1);
            assert(t.drop_last() == s.take(i as int));
            assert(t.last() == token_event_view(events@[i as int]));
        }
        let u = chars_of(events[i].utc_time.as_str());
        if crate::text::lex_compare(&best, &u) == -1 {
            best = u;
        }
        i = i + 1;
    }
    assert(s.take(events.len() as int) == s);
    string_from(&best)
}

/// The first of the events with the earliest UTC time.
pub open spec fn first_earliest(s: Seq<TokenEventView>) -> TokenEventView
    recommends
        s.len() > 0,
    decreases s.len(),
{
    if s.len() <= 1 {
        s[0]
    } else if lex_lt(s.last().utc_time, first_earliest(s.drop_last()).utc_time) {
        s.last()
    } else {
        first_earliest(s.drop_last())
    }
}

/// The last of the events with the latest UTC time.
pub open spec fn last_latest(s: Seq<TokenEventView>) -> TokenEventView
    recommends
        s.len() > 0,
    decreases s.len(),
{
    if s.len() <= 1 {
        s[0]
    } else if lex_lt(s.last().utc_time, last_latest(s.drop_last()).utc_time) {
        last_latest(s.drop_last())
    } else {
        s.last()
    }
}

/// Positions of `first_earliest` and `last_latest`.
pub fn earliest_and_latest(events: &Vec<TokenEvent>) -> (r: (usize, usize))
    requires
        events.len() > 0,
    ensures
        r.0 < events.len() && r.1 < events.len(),
        token_event_view(events@[r.0 as int]) == first_earliest(token_events_view(events@)),
        token_event_view(events@[r.1 as int]) == last_latest(token_events_view(events@)),
{
    let ghost s = token_events_view(events@);
    let mut a: usize = 0;
    let mut b: usize = 0;
    let mut i: usize = 1;
    assert(s.take(1).len() == 1);
    while i < events.len()
        invariant
            1 <= i <= events.len(),
            a < i && b < i,
            s == token_events_view(events@),
            token_event_view(events@[a as int]) == first_earliest(s.take(i as int)),
            token_event_view(events@[b as int]) == last_latest(s.take(i as int)),
        decreases events.len() - i,
    {
        proof {
            let t = s.take(i + 1);
            assert(t.drop_last() == s.take(i as int));
            assert(t.last() == token_event_view(events@[i as int]));
        }
        let u = chars_of(events[i].utc_time.as_str());
        let ua = chars_of(events[a].utc_time.as_str());
        let ub = chars_of(events[b].utc_time.as_str());
        if crate::text::lex_compare(&u, &ua) == -1 {
            a = i;
        }
        if crate::text::lex_compare(&u, &ub) != -1 {
            b = i;
        }
        i = i + 1;
    }
    assert(s.take(events.len() as int) == s);
    (a, b)
}

// ---------------------------------------------------------------------------
// Grades and reasons of a group
// ---------------------------------------------------------------------------

pub open spec fn any_super_high(s: Seq<TokenEventView>) -> bool {
    exists|i: int| 0 <= i < s.len() && is_super_high(#[trigger] s[i].status)
}

pub open spec fn any_status(s: Seq<TokenEventView>, status: Seq<char>) -> bool {
    exists|i: int| 0 <= i < s.len() && #[trigger] s[i].status == status
}

/// The grade of a group: its worst grade.
pub open spec fn aggregate_status_spec(s: Seq<TokenEventView>) -> Seq<char> {
    if any_super_high(s) {
        "超高"@
    } else if any_status(s, "偏高"@) {
        "偏高"@
    } else {
        "正常"@
    }
}

/// A group is graded by its worst count: "超高" where any count is "超高"
/// (or the older "异常"), else "偏高" where any count is "偏高", else
/// "正常".
pub proof fn lemma_group_grade_is_worst(s: Seq<TokenEventView>, i: int)
    requires
        0 <= i < s.len(),
    ensures
        (s[i].status == "超高"@ || s[i].status == "异常"@) ==> aggregate_status_spec(s) == "超高"@,
        s[i].status == "偏高"@ ==> aggregate_status_spec(s) != "正常"@,
        (forall|j: int|
            0 <= j < s.len() ==> (#[trigger] s[j]).status != "超高"@ && s[j].status != "异常"@
                && s[j].status != "偏高"@) ==> aggregate_status_spec(s) == "正常"@,
        (forall|j: int| 0 <= j < s.len() ==> (#[trigger] s[j]).status != "超高"@ && s[j].status != "异常"@)
            ==> aggregate_status_spec(s) != "超高"@,
{
    reveal_strlit("超高");
    reveal_strlit("偏高");
    reveal_strlit("正常");
    assert("超高"@[0] != "正常"@[0]);
    assert("偏高"@[0] != "正常"@[0]);
    assert("偏高"@[0] != "超高"@[0]);
}

pub fn aggregate_status(events: &Vec<TokenEvent>) -> (r: String)
    ensures
        r@ == aggregate_status_spec(token_events_view(events@)),
{
    let ghost s = token_events_view(events@);
    let mut sup = false;
    let mut high = false;
    let mut i: usize = 0;
    while i < events.len()
        invariant
            i <= events.len(),
            s == token_events_view(events@),
            sup == (exists|j: int| 0 <= j < i && is_super_high(#[trigger] s[j].status)),
            high == (exists|j: int| 0 <= j < i && #[trigger] s[j].status == "偏高"@),
        decreases events.len() - i,
    {
        assert(s[i as int] == token_event_view(events@[i as int]));
        let ghost old_sup = sup;
        let ghost old_high = high;
        if is_super_high_status(events[i].status.as_str()) {
            sup = true;
        }
        if str_eq(events[i].status.as_str(), "偏高") {
            high = true;
        }
        proof {
            if sup && !old_sup {
                assert(is_super_high(s[i as int].status));
            }
            if high && !old_high {
                assert(s[i as int].status == "偏高"@);
            }
            if !sup {
                assert forall|j: int| 0 <= j < i + 1 implies !is_super_high(#[trigger] s[j].status) by {
                    if j < i {
                        assert(!old_sup);
                    }
                }
            }
            if !high {
                assert forall|j: int| 0 <= j < i + 1 implies #[trigger] s[j].status != "偏高"@ by {
                    if j < i {
                        assert(!old_high);
                    }
                }
            }
        }
        i = i + 1;
    }
    if sup {
        "超高".to_string()
    } else if high {
        "偏高".to_string()
    } else {
        "正常".to_string()
    }
}

/// The reason a single count gets its grade.
pub open spec fn reason_of(e: TokenEventView) -> Seq<char> {
    status_reason_spec(e.total, e.output, e.reasoning_output, e.primary_used_percent)
}

pub open spec fn any_reason(s: Seq<TokenEventView>, r: Seq<char>) -> bool {
    exists|i: int| 0 <= i < s.len() && reason_of(#[trigger] s[i]) == r
}

pub open spec fn reason_total_high() -> Seq<char> {
    "偏高：单条 token_count 达到 200000"@
}

pub open spec fn reason_reasoning() -> Seq<char> {
    "偏高：推理输出超过普通输出 3 倍"@
}

pub open spec fn reason_quota() -> Seq<char> {
    "超高：主额度窗口使用率达到 95%"@
}

pub open spec fn reason_total_super() -> Seq<char> {
    "超高：单条 token_count 达到 1000000"@
}

/// The reasons other than the normal one, in the order of `str` (the order
/// a sorted set of them is walked in).
pub open spec fn reasons_in_order() -> Seq<Seq<char>> {
    seq![reason_total_high(), reason_reasoning(), reason_quota(), reason_total_super()]
}

/// The four reasons of the grades above normal are listed in the order of
/// `str`.
pub proof fn lemma_reasons_sorted()
    ensures
        forall|i: int, j: int| 0 <= i < j < 4 ==> lex_lt(reasons_in_order()[i], reasons_in_order()[j]),
{
    reveal_strlit("偏高：单条 token_count 达到 200000");
    reveal_strlit("偏高：推理输出超过普通输出 3 倍");
    reveal_strlit("超高：主额度窗口使用率达到 95%");
    reveal_strlit("超高：单条 token_count 达到 1000000");
    let a = reason_total_high();
    let b = reason_reasoning();
    let c = reason_quota();
    let d = reason_total_super();
    assert(lex_lt(a.drop_first().drop_first().drop_first(), b.drop_first().drop_first().drop_first()));
    assert(lex_lt(a.drop_first().drop_first(), b.drop_first().drop_first()));
    assert(lex_lt(a.drop_first(), b.drop_first()));
    assert(lex_lt(a, b));
    assert(lex_lt(b, c));
    assert(lex_lt(c.drop_first().drop_first().drop_first(), d.drop_first().drop_first().drop_first()));
    assert(lex_lt(c.drop_first().drop_first(), d.drop_first().drop_first()));
    assert(lex_lt(c.drop_first(), d.drop_first()));
    assert(lex_lt(c, d));
    crate::text::lemma_lex_transitive(a, b, c);
    crate::text::lemma_lex_transitive(a, c, d);
    crate::text::lemma_lex_transitive(b, c, d);
}

/// `parts` joined with `sep` between them.
pub open spec fn join(parts: Seq<Seq<char>>, sep: Seq<char>) -> Seq<char>
    decreases parts.len(),
{
    if parts.len() == 0 {
        Seq::empty()
    } else if parts.len() == 1 {
        parts[0]
    } else {
        join(parts.drop_last(), sep) + sep + parts.last()
    }
}

/// `[r]` where the group has reason `r`, else nothing.
pub open spec fn if_reason(s: Seq<TokenEventView>, r: Seq<char>) -> Seq<Seq<char>> {
    if any_reason(s, r) {
        seq![r]
    } else {
        Seq::empty()
    }
}

/// The reasons of a group that are above normal, each once, in the order of
/// `reasons_in_order`.
pub open spec fn present_reasons(s: Seq<TokenEventView>) -> Seq<Seq<char>> {
    if_reason(s, reason_total_high()) + if_reason(s, reason_reasoning()) + if_reason(
        s,
        reason_quota(),
    ) + if_reason(s, reason_total_super())
}

/// The reasons of a group, joined by `；`, or `正常范围内`.
pub open spec fn aggregate_reason_spec(s: Seq<TokenEventView>) -> Seq<char> {
    if present_reasons(s).len() == 0 {
        "正常范围内"@
    } else {
        join(present_reasons(s), "；"@)
    }
}

/// `parts` joined with `sep`.
pub fn join_strings(parts: &Vec<String>, sep: &str) -> (r: String)
    ensures
        r@ == join(strings_view(parts@), sep@),
{
    let ghost p = strings_view(parts@);
    let mut out: Vec<char> = Vec::new();
    let mut i: usize = 0;
    while i < parts.len()
        invariant
            i <= parts.len(),
            p == strings_view(parts@),
            out@ == join(p.take(i as int), sep@),
        decreases parts.len() - i,
    {
        proof {
            let t = p.take(i + 1);
            assert(t.drop_last() == p.take(i as int));
            assert(t.last() == parts@[i as int]@);
        }
        if i > 0 {
            extend_str(&mut out, sep);
        }
        extend_str(&mut out, parts[i].as_str());
        i = i + 1;
    }
    assert(p.take(parts.len() as int) == p);
    string_from(&out)
}

/// Which of the four reasons above normal a group has.
fn reason_flags(events: &Vec<TokenEvent>) -> (r: (bool, bool, bool, bool))
    ensures
        r.0 == any_reason(token_events_view(events@), reason_total_high()),
        r.1 == any_reason(token_events_view(events@), reason_reasoning()),
        r.2 == any_reason(token_events_view(events@), reason_quota()),
        r.3 == any_reason(token_events_view(events@), reason_total_super()),
{
    let ghost s = token_events_view(events@);
    let mut f0 = false;
    let mut f1 = false;
    let mut f2 = false;
    let mut f3 = false;
    let mut i: usize = 0;
    while i < events.len()
        invariant
            i <= events.len(),
            s == token_events_view(events@),
            f0 == (exists|j: int| 0 <= j < i && reason_of(#[trigger] s[j]) == reason_total_high()),
            f1 == (exists|j: int| 0 <= j < i && reason_of(#[trigger] s[j]) == reason_reasoning()),
            f2 == (exists|j: int| 0 <= j < i && reason_of(#[trigger] s[j]) == reason_quota()),
            f3 == (exists|j: int| 0 <= j < i && reason_of(#[trigger] s[j]) == reason_total_super()),
        decreases events.len() - i,
    {
        let e = &events[i];
        assert(s[i as int] == token_event_view(*e));
        let reason = classify_status_reason(
            e.last_total_tokens,
            e.last_output_tokens,
            e.last_reasoning_output_tokens,
            &e.primary_used_percent,
        );
        assert(reason@ == reason_of(s[i as int]));
        let r = reason.as_str();
        let ghost (o0, o1, o2, o3) = (f0, f1, f2, f3);
        if str_eq(r, "偏高：单条 token_count 达到 200000") {
            f0 = true;
        }
        if str_eq(r, "偏高：推理输出超过普通输出 3 倍") {
            f1 = true;
        }
        if str_eq(r, "超高：主额度窗口使用率达到 95%") {
            f2 = true;
        }
        if str_eq(r, "超高：单条 token_count 达到 1000000") {
            f3 = true;
        }
        proof {
            assert forall|j: int| 0 <= j < i + 1 && reason_of(#[trigger] s[j]) == reason_total_high()
                implies f0 by {
                if j < i {
                    assert(o0);
                }
            }
            assert forall|j: int| 0 <= j < i + 1 && reason_of(#[trigger] s[j]) == reason_reasoning()
                implies f1 by {
                if j < i {
                    assert(o1);
                }
            }
            assert forall|j: int| 0 <= j < i + 1 && reason_of(#[trigger] s[j]) == reason_quota()
                implies f2 by {
                if j < i {
                    assert(o2);
                }
            }
            assert forall|j: int| 0 <= j < i + 1 && reason_of(#[trigger] s[j]) == reason_total_super()
                implies f3 by {
                if j < i {
                    assert(o3);
                }
            }
        }
        i = i + 1;
    }
    (f0, f1, f2, f3)
}

/// The reasons of a group above normal, joined by `；`, else `正常范围内`.
pub fn aggregate_status_reason(events: &Vec<TokenEvent>) -> (r: String)
    ensures
        r@ == aggregate_reason_spec(token_events_view(events@)),
{
    let ghost s = token_events_view(events@);
    let (f0, f1, f2, f3) = reason_flags(events);
    let mut parts: Vec<String> = Vec::new();
    if f0 {
        parts.push("偏高：单条 token_count 达到 200000".to_string());
    }
    assert(strings_view(parts@) == if_reason(s, reason_total_high()));
    let ghost p0 = strings_view(parts@);
    if f1 {
        parts.push("偏高：推理输出超过普通输出 3 倍".to_string());
    }
    assert(strings_view(parts@) == p0 + if_reason(s, reason_reasoning()));
    let ghost p1 = strings_view(parts@);
    if f2 {
        parts.push("超高：主额度窗口使用率达到 95%".to_string());
    }
    assert(strings_view(parts@) == p1 + if_reason(s, reason_quota()));
    let ghost p2 = strings_view(parts@);
    if f3 {
        parts.push("超高：单条 token_count 达到 1000000".to_string());
    }
    assert(strings_view(parts@) == p2 + if_reason(s, reason_total_super()));
    if parts.len() == 0 {
        "正常范围内".to_string()
    } else {
        join_strings(&parts, "；")
    }
}

// ---------------------------------------------------------------------------
// Tooltips and keys
// ---------------------------------------------------------------------------

/// `\r\n` and lone `\r` written as `\n`.
pub open spec fn unify_newlines(s: Seq<char>) -> Seq<char>
    decreases s.len(),
{
    if s.len() == 0 {
        Seq::empty()
    } else if s[0] == '\r' && s.len() > 1 && s[1] == '\n' {
        seq!['\n'] + unify_newlines(s.skip(2))
    } else if s[0] == '\r' {
        seq!['\n'] + unify_newlines(s.drop_first())
    } else {
        seq![s[0]] + unify_newlines(s.drop_first())
    }
}

/// Text for a tooltip: line ends unified to `\n`, trimmed.
pub open spec fn tooltip_spec(s: Seq<char>) -> Seq<char> {
    trim(unify_newlines(s))
}

pub fn tooltip_text(value: &str) -> (r: String)
    ensures
        r@ == tooltip_spec(value@),
{
    let s = chars_of(value);
    let mut out: Vec<char> = Vec::new();
    let mut i: usize = 0;
    assert(s@.skip(0) == s@);
    while i < s.len()
        invariant
            i <= s.len(),
            unify_newlines(s@) == out@ + unify_newlines(s@.skip(i as int)),
        decreases s.len() - i,
    {
        let ghost t = s@.skip(i as int);
        if s[i] == '\r' && i + 1 < s.len() && s[i + 1] == '\n' {
            assert(t.skip(2) == s@.skip(i + 2));
            out.push('\n');
            i = i + 2;
        } else {
            assert(t.drop_first() == s@.skip(i + 1));
            if s[i] == '\r' {
                out.push('\n');
            } else {
                out.push(s[i]);
            }
            i = i + 1;
        }
    }
    assert(s@.skip(s.len() as int).len() == 0);
    assert(out@ + Seq::<char>::empty() == out@);
    let t = trim_chars(&out);
    string_from(&t)
}

/// The user message a count shows: its message for a tooltip, else its
/// preview, where not blank.
pub open spec fn user_message_of(e: TokenEventView) -> Option<Seq<char>> {
    if tooltip_spec(e.user_message).len() > 0 {
        Some(tooltip_spec(e.user_message))
    } else if trim(e.user_message_preview).len() > 0 {
        Some(tooltip_spec(e.user_message_preview))
    } else {
        None
    }
}

pub open spec fn first_message(s: Seq<TokenEventView>) -> Option<Seq<char>>
    decreases s.len(),
{
    if s.len() == 0 {
        None
    } else {
        match user_message_of(s[0]) {
            Some(m) => Some(m),
            None => first_message(s.drop_first()),
        }
    }
}

/// The user message of a turn: the first one recorded, else
/// `未记录用户输入`.
pub open spec fn detail_user_message_spec(s: Seq<TokenEventView>) -> Seq<char> {
    match first_message(s) {
        Some(m) => m,
        None => "未记录用户输入"@,
    }
}

pub fn detail_user_message(events: &Vec<TokenEvent>) -> (r: String)
    ensures
        r@ == detail_user_message_spec(token_events_view(events@)),
{
    let ghost s = token_events_view(events@);
    let mut i: usize = 0;
    assert(s.skip(0) == s);
    while i < events.len()
        invariant
            i <= events.len(),
            s == token_events_view(events@),
            first_message(s) == first_message(s.skip(i as int)),
        decreases events.len() - i,
    {
        let e = &events[i];
        assert(s.skip(i as int)[0] == token_event_view(*e));
        assert(s.skip(i as int).drop_first() == s.skip(i + 1));
        let message = tooltip_text(e.user_message.as_str());
        let mc = chars_of(message.as_str());
        if mc.len() > 0 {
            return message;
        }
        let p = trim_str(e.user_message_preview.as_str());
        if p.len() > 0 {
            return tooltip_text(e.user_message_preview.as_str());
        }
        i = i + 1;
    }
    "未记录用户输入".to_string()
}

/// What a count's tooltip says came before it.
pub open spec fn action_text(e: TokenEventView) -> Seq<char> {
    match e.preceding_action {
        Some(a) => if trim(a).len() > 0 {
            a
        } else {
            "未识别到明确前置动作，可能来自用户输入或历史上下文"@
        },
        None => "未识别到明确前置动作，可能来自用户输入或历史上下文"@,
    }
}

pub open spec fn token_tooltip_spec(e: TokenEventView, user_message: Seq<char>) -> Seq<char> {
    "Token记录 #"@ + int_text(e.token_event_index as int) + "\n前置动作："@ + action_text(e)
        + "\n完整用户输入：\n"@ + user_message
}

pub fn token_count_tooltip(event: &TokenEvent, user_message: &str) -> (r: String)
    ensures
        r@ == token_tooltip_spec(token_event_view(*event), user_message@),
{
    let mut v = chars_of("Token记录 #");
    let n = i64_text(event.token_event_index);
    extend_chars(&mut v, &n);
    extend_str(&mut v, "\n前置动作：");
    let blank = match &event.preceding_action {
        Some(a) => trim_str(a.as_str()).len() == 0,
        None => true,
    };
    match &event.preceding_action {
        Some(a) => {
            if blank {
                extend_str(&mut v, "未识别到明确前置动作，可能来自用户输入或历史上下文");
            } else {
                extend_str(&mut v, a.as_str());
            }
        },
        None => {
            extend_str(&mut v, "未识别到明确前置动作，可能来自用户输入或历史上下文");
        },
    }
    extend_str(&mut v, "\n完整用户输入：\n");
    extend_str(&mut v, user_message);
    string_from(&v)
}

/// A part of a row key, with `:` written as `_`.
pub open spec fn key_part(p: Seq<char>) -> Seq<char> {
    p.map_values(|c: char| if c == ':' { '_' } else { c })
}

pub open spec fn key_parts(parts: Seq<Seq<char>>) -> Seq<char>
    decreases parts.len(),
{
    if parts.len() == 0 {
        Seq::empty()
    } else {
        key_parts(parts.drop_last()) + ":"@ + key_part(parts.last())
    }
}

/// The key of a row of a tree: `scope:kind`, then each part after a `:`.
pub open spec fn tree_key_spec(scope: Seq<char>, kind: Seq<char>, parts: Seq<Seq<char>>) -> Seq<
    char,
> {
    scope + ":"@ + kind + key_parts(parts)
}

pub open spec fn strs_view(v: Seq<&str>) -> Seq<Seq<char>> {
    v.map_values(|x: &str| x@)
}

pub fn tree_key(scope: &str, kind: &str, parts: &[&str]) -> (r: String)
    ensures
        r@ == tree_key_spec(scope@, kind@, strs_view(parts@)),
{
    let ghost ps = strs_view(parts@);
    let mut v = chars_of(scope);
    extend_str(&mut v, ":");
    extend_str(&mut v, kind);
    let ghost head = v@;
    let mut i: usize = 0;
    while i < parts.len()
        invariant
            i <= parts.len(),
            ps == strs_view(parts@),
            head == scope@ + ":"@ + kind@,
            v@ == head + key_parts(ps.take(i as int)),
        decreases parts.len() - i,
    {
        proof {
            let t = ps.take(i + 1);
            assert(t.drop_last() == ps.take(i as int));
            assert(t.last() == parts@[i as int]@);
        }
        extend_str(&mut v, ":");
        let p = chars_of(parts[i]);
        let ghost before = v@;
        let mut k: usize = 0;
        while k < p.len()
            invariant
                k <= p.len(),
                v@ == before + key_part(p@.take(k as int)),
            decreases p.len() - k,
        {
            if p[k] == ':' {
                v.push('_');
            } else {
                v.push(p[k]);
            }
            k = k + 1;
            assert(key_part(p@.take(k as int)) == key_part(p@.take(k - 1)).push(
                if p@[k - 1] == ':' { '_' } else { p@[k - 1] },
            ));
        }
        assert(p@.take(p.len() as int) == p@);
        i = i + 1;
    }
    assert(ps.take(parts.len() as int) == ps);
    string_from(&v)
}

pub fn detail_key(kind: &str, parts: &[&str]) -> (r: String)
    ensures
        r@ == tree_key_spec("detail"@, kind@, strs_view(parts@)),
{
    tree_key("detail", kind, parts)
}

pub fn summary_key(kind: &str, parts: &[&str]) -> (r: String)
    ensures
        r@ == tree_key_spec("summary"@, kind@, strs_view(parts@)),
{
    tree_key("summary", kind, parts)
}

/// The first eight characters of an id.
pub open spec fn short_id_spec(s: Seq<char>) -> Seq<char> {
    if s.len() <= 8 {
        s
    } else {
        s.take(8)
    }
}

pub fn short_id(value: &str) -> (r: String)
    ensures
        r@ == short_id_spec(value@),
{
    let cs = chars_of(value);
    if cs.len() <= 8 {
        string_from(&cs)
    } else {
        let t = crate::text::slice_chars(&cs, 0, 8);
        assert(cs@.subrange(0, 8) == cs@.take(8));
        string_from(&t)
    }
}

pub proof fn lemma_abs_sum_elem(s: Seq<TokenEventView>, u: Usage, i: int)
    requires
        0 <= i < s.len(),
    ensures
        abs(usage_of(s[i], u) as int) <= usage_abs_sum(s, u),
    decreases s.len(),
{
    lemma_sum_bounded(s.drop_last(), u);
    if i < s.len() - 1 {
        lemma_abs_sum_elem(s.drop_last(), u, i);
        assert(s.drop_last()[i] == s[i]);
    }
}

/// One count of a group in range is in range.
pub proof fn lemma_single_in_range(s: Seq<TokenEventView>, i: int)
    requires
        0 <= i < s.len(),
        usage_in_range(s),
    ensures
        usage_in_range(seq![s[i]]),
{
    let t = seq![s[i]];
    reveal_with_fuel(usage_abs_sum, 2);
    assert(t.drop_last() == Seq::<TokenEventView>::empty());
    assert(t.last() == s[i]);
    assert(usage_abs_sum(t, Usage::Input) == abs(usage_of(s[i], Usage::Input) as int));
    assert(usage_abs_sum(t, Usage::Cached) == abs(usage_of(s[i], Usage::Cached) as int));
    assert(usage_abs_sum(t, Usage::Output) == abs(usage_of(s[i], Usage::Output) as int));
    assert(usage_abs_sum(t, Usage::Reasoning) == abs(usage_of(s[i], Usage::Reasoning) as int));
    assert(usage_abs_sum(t, Usage::Total) == abs(usage_of(s[i], Usage::Total) as int));
    lemma_abs_sum_elem(s, Usage::Input, i);
    lemma_abs_sum_elem(s, Usage::Cached, i);
    lemma_abs_sum_elem(s, Usage::Output, i);
    lemma_abs_sum_elem(s, Usage::Reasoning, i);
    lemma_abs_sum_elem(s, Usage::Total, i);
}

/// Unifying line ends twice is unifying them once.
proof fn lemma_unify_idempotent(s: Seq<char>)
    ensures
        unify_newlines(unify_newlines(s)) == unify_newlines(s),
        !unify_newlines(s).contains('\r'),
    decreases s.len(),
{
    if s.len() > 0 {
        if s[0] == '\r' && s.len() > 1 && s[1] == '\n' {
            lemma_unify_idempotent(s.skip(2));
            let t = unify_newlines(s.skip(2));
            assert((seq!['\n'] + t).drop_first() == t);
            lemma_unify_plain(seq!['\n'] + t, t);
        } else {
            lemma_unify_idempotent(s.drop_first());
            let t = unify_newlines(s.drop_first());
            let c = if s[0] == '\r' { '\n' } else { s[0] };
            assert((seq![c] + t).drop_first() == t);
            lemma_unify_plain(seq![c] + t, t);
        }
    }
}

/// A text without `\r` that starts with a character other than `\r`.
proof fn lemma_unify_plain(u: Seq<char>, t: Seq<char>)
    requires
        u.len() > 0,
        u[0] != '\r',
        u.drop_first() == t,
        unify_newlines(t) == t,
        !t.contains('\r'),
    ensures
        unify_newlines(u) == u,
        !u.contains('\r'),
{
    assert(seq![u[0]] + t == u);
    if u.contains('\r') {
        let i = choose|i: int| 0 <= i < u.len() && u[i] == '\r';
        assert(t[i - 1] == '\r');
    }
}

/// A text with no `\r` is left as it is.
proof fn lemma_unify_plain_text(s: Seq<char>)
    requires
        !s.contains('\r'),
    ensures
        unify_newlines(s) == s,
    decreases s.len(),
{
    if s.len() > 0 {
        assert(s[0] != '\r');
        let t = s.drop_first();
        assert(!t.contains('\r')) by {
            if t.contains('\r') {
                let i = choose|i: int| 0 <= i < t.len() && t[i] == '\r';
                assert(s[i + 1] == '\r');
            }
        }
        lemma_unify_plain_text(t);
        assert(seq![s[0]] + t == s);
    }
}

/// Tooltip text is stable: preparing it again changes nothing.
pub proof fn lemma_tooltip_idempotent(s: Seq<char>)
    ensures
        tooltip_spec(tooltip_spec(s)) == tooltip_spec(s),
{
    lemma_unify_idempotent(s);
    let u = unify_newlines(s);
    let t = trim(u);
    assert(!t.contains('\r')) by {
        let k = crate::text::lemma_trim_is_infix(u);
        if t.contains('\r') {
            let i = choose|i: int| 0 <= i < t.len() && t[i] == '\r';
            assert(u.subrange(k, k + t.len())[i] == '\r');
            assert(u[k + i] == '\r');
        }
    }
    lemma_unify_plain_text(t);
    crate::text::lemma_trim_idempotent(u);
}

} // verus!
