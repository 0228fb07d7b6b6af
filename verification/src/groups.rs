//! The order the reports list groups and counts in: the most recent first.
use vstd::prelude::*;
use crate::json::copy_string;
use crate::names::pairs_view;
use crate::report::{
    copy_event, distinct_field_keys, distinct_keys, group_events, group_of, latest_utc,
    latest_utc_spec, lemma_distinct_keys_nonempty, strings_view, token_event_view,
    token_events_view, Field, TokenEvent, TokenEventView, Usage,
};
use crate::sorting::{insert_sorted, lemma_insert_at, lemma_sort_contains, sort_by};
use crate::text::{chars_of, lex_compare, lex_lt};

verus! {

/// Each key of field `f` with the latest UTC time of its group.
pub open spec fn keyed(s: Seq<TokenEventView>, f: Field) -> Seq<(Seq<char>, Seq<char>)> {
    distinct_keys(s, f).map_values(|k: Seq<char>| (k, latest_utc_spec(group_of(s, f, k))))
}

/// A group comes first when its latest time is later, or, at the same time,
/// when its key is smaller.
pub open spec fn recent_first() -> spec_fn((Seq<char>, Seq<char>), (Seq<char>, Seq<char>)) -> bool {
    |a: (Seq<char>, Seq<char>), b: (Seq<char>, Seq<char>)|
        lex_lt(b.1, a.1) || (a.1 == b.1 && lex_lt(a.0, b.0))
}

/// The groups of field `f`, the most recent first.
pub open spec fn ordered_groups(s: Seq<TokenEventView>, f: Field) -> Seq<(Seq<char>, Seq<char>)> {
    sort_by(keyed(s, f), recent_first())
}

pub open spec fn ordered_keys(s: Seq<TokenEventView>, f: Field) -> Seq<Seq<char>> {
    ordered_groups(s, f).map_values(|p: (Seq<char>, Seq<char>)| p.0)
}

fn pair_before(a: &(String, String), b: &(String, String)) -> (r: bool)
    ensures
        r == (recent_first())((a.0@, a.1@), (b.0@, b.1@)),
{
    let a0 = chars_of(a.0.as_str());
    let a1 = chars_of(a.1.as_str());
    let b0 = chars_of(b.0.as_str());
    let b1 = chars_of(b.1.as_str());
    let c = lex_compare(&b1, &a1);
    if c == -1 {
        true
    } else if c == 0 {
        lex_compare(&a0, &b0) == -1
    } else {
        false
    }
}

/// The keys of field `f`, their groups the most recent first.
pub fn ordered_group_keys(events: &Vec<TokenEvent>, f: &Field) -> (r: Vec<String>)
    ensures
        strings_view(r@) == ordered_keys(token_events_view(events@), *f),
{
    let ghost s = token_events_view(events@);
    let keys = distinct_field_keys(events, f);
    let ghost ks = distinct_keys(s, *f);
    let ghost all = keyed(s, *f);
    let mut pairs: Vec<(String, String)> = Vec::new();
    let mut i: usize = 0;
    while i < keys.len()
        invariant
            i <= keys.len(),
            s == token_events_view(events@),
            ks == distinct_keys(s, *f),
            all == keyed(s, *f),
            strings_view(keys@) == ks,
            pairs_view(pairs@) == all.take(i as int),
        decreases keys.len() - i,
    {
        let g = group_events(events, f, keys[i].as_str());
        let latest = latest_utc(&g);
        let ghost before = pairs@;
        assert(keys@[i as int]@ == ks[i as int]);
        pairs.push((copy_string(&keys[i]), latest));
        assert(pairs_view(pairs@) == pairs_view(before).push(all[i as int]));
        assert(all.take(i + 1) == all.take(i as int).push(all[i as int]));
        i = i + 1;
    }
    assert(all.take(keys.len() as int) == all);
    let ghost lt = recent_first();
    let mut sorted: Vec<(String, String)> = Vec::new();
    let mut i: usize = 0;
    while i < pairs.len()
        invariant
            i <= pairs.len(),
            lt == recent_first(),
            pairs_view(pairs@) == all,
            pairs_view(sorted@) == sort_by(all.take(i as int), lt),
        decreases pairs.len() - i,
    {
        let x = (copy_string(&pairs[i].0), copy_string(&pairs[i].1));
        let ghost xv = (x.0@, x.1@);
        assert(xv == all[i as int]);
        let mut j: usize = 0;
        while j < sorted.len() && !pair_before(&x, &sorted[j])
            invariant
                j <= sorted.len(),
                lt == recent_first(),
                xv == (x.0@, x.1@),
                forall|k: int| 0 <= k < j ==> !lt(xv, #[trigger] pairs_view(sorted@)[k]),
            decreases sorted.len() - j,
        {
            j = j + 1;
        }
        proof {
            let sv = pairs_view(sorted@);
            let t = all.take(i + 1);
            assert(t.drop_last() == all.take(i as int));
            assert(t.last() == xv);
            lemma_insert_at(sv, xv, lt, j as int);
        }
        let ghost before = sorted@;
        sorted.insert(j, x);
        assert(pairs_view(sorted@) == pairs_view(before).take(j as int).push(xv) + pairs_view(
            before,
        ).skip(j as int));
        i = i + 1;
    }
    assert(all.take(pairs.len() as int) == all);
    let mut out: Vec<String> = Vec::new();
    let mut k: usize = 0;
    let ghost og = ordered_groups(s, *f);
    while k < sorted.len()
        invariant
            k <= sorted.len(),
            og == ordered_groups(s, *f),
            pairs_view(sorted@) == og,
            strings_view(out@) == og.take(k as int).map_values(|p: (Seq<char>, Seq<char>)| p.0),
        decreases sorted.len() - k,
    {
        let ghost before = out@;
        out.push(copy_string(&sorted[k].0));
        assert(og.take(k + 1).map_values(|p: (Seq<char>, Seq<char>)| p.0) == og.take(
            k as int,
        ).map_values(|p: (Seq<char>, Seq<char>)| p.0).push(og[k as int].0));
        k = k + 1;
    }
    assert(og.take(sorted.len() as int) == og);
    out
}

/// Every group listed is non-empty.
pub proof fn lemma_ordered_groups_nonempty(s: Seq<TokenEventView>, f: Field, i: int)
    requires
        0 <= i < ordered_keys(s, f).len(),
    ensures
        group_of(s, f, ordered_keys(s, f)[i]).len() > 0,
{
    let og = ordered_groups(s, f);
    let all = keyed(s, f);
    lemma_sort_contains(all, recent_first(), og[i]);
    assert(og.contains(og[i]));
    let j = choose|j: int| 0 <= j < all.len() && all[j] == og[i];
    assert(distinct_keys(s, f)[j] == og[i].0);
    assert(distinct_keys(s, f).contains(og[i].0));
    lemma_distinct_keys_nonempty(s, f, og[i].0);
}

/// A count comes first when its UTC time is later, or, at the same time,
/// when its index is greater.
pub open spec fn latest_count_first() -> spec_fn(TokenEventView, TokenEventView) -> bool {
    |a: TokenEventView, b: TokenEventView|
        lex_lt(b.utc_time, a.utc_time) || (a.utc_time == b.utc_time && b.token_event_index
            < a.token_event_index)
}

fn count_before(a: &TokenEvent, b: &TokenEvent) -> (r: bool)
    ensures
        r == (latest_count_first())(token_event_view(*a), token_event_view(*b)),
{
    let au = chars_of(a.utc_time.as_str());
    let bu = chars_of(b.utc_time.as_str());
    let c = lex_compare(&bu, &au);
    if c == -1 {
        true
    } else if c == 0 {
        b.token_event_index < a.token_event_index
    } else {
        false
    }
}

/// The counts of a turn, the latest first.
pub fn sort_counts(events: &Vec<TokenEvent>) -> (r: Vec<TokenEvent>)
    ensures
        token_events_view(r@) == sort_by(token_events_view(events@), latest_count_first()),
{
    let ghost all = token_events_view(events@);
    let ghost lt = latest_count_first();
    let mut sorted: Vec<TokenEvent> = Vec::new();
    let mut i: usize = 0;
    while i < events.len()
        invariant
            i <= events.len(),
            lt == latest_count_first(),
            all == token_events_view(events@),
            token_events_view(sorted@) == sort_by(all.take(i as int), lt),
        decreases events.len() - i,
    {
        let x = copy_event(&events[i]);
        let ghost xv = token_event_view(x);
        assert(xv == all[i as int]);
        let mut j: usize = 0;
        while j < sorted.len() && !count_before(&x, &sorted[j])
            invariant
                j <= sorted.len(),
                lt == latest_count_first(),
                xv == token_event_view(x),
                forall|k: int| 0 <= k < j ==> !lt(xv, #[trigger] token_events_view(sorted@)[k]),
            decreases sorted.len() - j,
        {
            j = j + 1;
        }
        proof {
            let sv = token_events_view(sorted@);
            let t = all.take(i + 1);
            assert(t.drop_last() == all.take(i as int));
            assert(t.last() == xv);
            lemma_insert_at(sv, xv, lt, j as int);
        }
        let ghost before = sorted@;
        sorted.insert(j, x);
        assert(token_events_view(sorted@) == token_events_view(before).take(j as int).push(xv)
            + token_events_view(before).skip(j as int));
        i = i + 1;
    }
    assert(all.take(events.len() as int) == all);
    sorted
}

/// The order of `str`.
pub open spec fn lex_order() -> spec_fn(Seq<char>, Seq<char>) -> bool {
    |a: Seq<char>, b: Seq<char>| lex_lt(a, b)
}

/// Strings in the order of `str`, equal ones kept in their order.
pub fn sort_strings(v: &Vec<String>) -> (r: Vec<String>)
    ensures
        strings_view(r@) == sort_by(strings_view(v@), lex_order()),
{
    let ghost all = strings_view(v@);
    let ghost lt = lex_order();
    let mut sorted: Vec<String> = Vec::new();
    let mut i: usize = 0;
    while i < v.len()
        invariant
            i <= v.len(),
            lt == lex_order(),
            all == strings_view(v@),
            strings_view(sorted@) == sort_by(all.take(i as int), lt),
        decreases v.len() - i,
    {
        let x = copy_string(&v[i]);
        let xc = chars_of(x.as_str());
        assert(x@ == all[i as int]);
        let mut j: usize = 0;
        while j < sorted.len() && lex_compare(&xc, &chars_of(sorted[j].as_str())) != -1
            invariant
                j <= sorted.len(),
                lt == lex_order(),
                xc@ == x@,
                forall|k: int| 0 <= k < j ==> !lt(x@, #[trigger] strings_view(sorted@)[k]),
            decreases sorted.len() - j,
        {
            j = j + 1;
        }
        proof {
            let sv = strings_view(sorted@);
            let t = all.take(i + 1);
            assert(t.drop_last() == all.take(i as int));
            assert(t.last() == x@);
            lemma_insert_at(sv, x@, lt, j as int);
        }
        let ghost before = sorted@;
        sorted.insert(j, x);
        assert(strings_view(sorted@) == strings_view(before).take(j as int).push(all[i as int])
            + strings_view(before).skip(j as int));
        i = i + 1;
    }
    assert(all.take(v.len() as int) == all);
    sorted
}

/// The keys of field `f` in the order of `str`: the order of a `BTreeMap`
/// keyed by them.
pub open spec fn ascending_keys(s: Seq<TokenEventView>, f: Field) -> Seq<Seq<char>> {
    sort_by(distinct_keys(s, f), lex_order())
}

pub fn ascending_group_keys(events: &Vec<TokenEvent>, f: &Field) -> (r: Vec<String>)
    ensures
        strings_view(r@) == ascending_keys(token_events_view(events@), *f),
{
    let keys = distinct_field_keys(events, f);
    sort_strings(&keys)
}

/// Every key listed in ascending order has a non-empty group.
pub proof fn lemma_ascending_nonempty(s: Seq<TokenEventView>, f: Field, i: int)
    requires
        0 <= i < ascending_keys(s, f).len(),
    ensures
        group_of(s, f, ascending_keys(s, f)[i]).len() > 0,
{
    let a = ascending_keys(s, f);
    lemma_sort_contains(distinct_keys(s, f), lex_order(), a[i]);
    assert(a.contains(a[i]));
    lemma_distinct_keys_nonempty(s, f, a[i]);
}

/// `lex_lt` is a strict order.
pub proof fn lemma_lex_strict()
    ensures
        forall|a: Seq<char>| !#[trigger] lex_lt(a, a),
        forall|a: Seq<char>, b: Seq<char>, c: Seq<char>|
            #[trigger] lex_lt(a, b) && #[trigger] lex_lt(b, c) ==> lex_lt(a, c),
{
    assert forall|a: Seq<char>| !#[trigger] lex_lt(a, a) by {
        crate::text::lemma_lex_irreflexive(a);
    }
    assert forall|a: Seq<char>, b: Seq<char>, c: Seq<char>|
        #[trigger] lex_lt(a, b) && #[trigger] lex_lt(b, c) implies lex_lt(a, c) by {
        crate::text::lemma_lex_transitive(a, b, c);
    }
}

/// The groups of the detail tree are listed the most recent first: no group
/// comes after one whose latest time is earlier, or, at the same latest
/// time, after one whose key is greater.
pub proof fn lemma_groups_most_recent_first(s: Seq<TokenEventView>, f: Field)
    ensures
        crate::sorting::sorted_by(ordered_groups(s, f), recent_first()),
{
    lemma_lex_strict();
    let lt = recent_first();
    assert(crate::sorting::strict_order(lt)) by {
        assert forall|a: (Seq<char>, Seq<char>), b: (Seq<char>, Seq<char>), c: (Seq<char>, Seq<char>)|
            #[trigger] lt(a, b) && #[trigger] lt(b, c) implies lt(a, c) by {
            crate::text::lemma_lex_trichotomy(a.1, b.1);
            crate::text::lemma_lex_trichotomy(b.1, c.1);
            crate::text::lemma_lex_trichotomy(a.1, c.1);
        }
    }
    crate::sorting::lemma_sort_sorted(keyed(s, f), lt);
}

/// The projects, sessions and turns of the detail tree (and every list drawn
/// from `ordered_keys`) come the most recently active first: a group listed
/// before another has a latest UTC time that is not earlier, and where the
/// latest times are equal, a key that is not greater.
pub proof fn lemma_later_groups_listed_first(s: Seq<TokenEventView>, f: Field)
    ensures
        forall|i: int, j: int|
            #![trigger ordered_keys(s, f)[i], ordered_keys(s, f)[j]]
            0 <= i < j < ordered_keys(s, f).len() ==> !lex_lt(
                latest_utc_spec(group_of(s, f, ordered_keys(s, f)[i])),
                latest_utc_spec(group_of(s, f, ordered_keys(s, f)[j])),
            ) && (latest_utc_spec(group_of(s, f, ordered_keys(s, f)[i])) == latest_utc_spec(
                group_of(s, f, ordered_keys(s, f)[j]),
            ) ==> !lex_lt(ordered_keys(s, f)[j], ordered_keys(s, f)[i])),
{
    let g = ordered_groups(s, f);
    let ks = ordered_keys(s, f);
    let kd = keyed(s, f);
    lemma_groups_most_recent_first(s, f);
    assert forall|i: int| 0 <= i < g.len() implies #[trigger] g[i].1 == latest_utc_spec(
        group_of(s, f, g[i].0),
    ) by {
        lemma_sort_contains(kd, recent_first(), g[i]);
        assert(g.contains(g[i]));
        let m = choose|m: int| 0 <= m < kd.len() && kd[m] == g[i];
    }
    assert forall|i: int, j: int|
        #![trigger ks[i], ks[j]]
        0 <= i < j < ks.len() implies !lex_lt(
            latest_utc_spec(group_of(s, f, ks[i])),
            latest_utc_spec(group_of(s, f, ks[j])),
        ) && (latest_utc_spec(group_of(s, f, ks[i])) == latest_utc_spec(group_of(s, f, ks[j]))
            ==> !lex_lt(ks[j], ks[i])) by {
        assert(ks[i] == g[i].0);
        assert(ks[j] == g[j].0);
        assert(g[i].1 == latest_utc_spec(group_of(s, f, g[i].0)));
        assert(g[j].1 == latest_utc_spec(group_of(s, f, g[j].0)));
        assert(!(recent_first())(g[j], g[i]));
    }
}

/// The buckets, options and summaries listed by key are in the order of
/// `str`, each key once.
pub proof fn lemma_ascending_keys_sorted(s: Seq<TokenEventView>, f: Field)
    ensures
        crate::sorting::sorted_by(ascending_keys(s, f), lex_order()),
{
    lemma_lex_strict();
    crate::sorting::lemma_sort_sorted(distinct_keys(s, f), lex_order());
}

/// The buckets, options and summaries listed by key come in the order of
/// `str`: no key is greater than one listed after it.
pub proof fn lemma_keys_ascend(s: Seq<TokenEventView>, f: Field)
    ensures
        forall|i: int, j: int|
            0 <= i < j < ascending_keys(s, f).len() ==> !lex_lt(
                #[trigger] ascending_keys(s, f)[j],
                #[trigger] ascending_keys(s, f)[i],
            ),
{
    lemma_ascending_keys_sorted(s, f);
    let ks = ascending_keys(s, f);
    assert forall|i: int, j: int| 0 <= i < j < ks.len() implies !lex_lt(#[trigger] ks[j], #[trigger] ks[i]) by {
        assert(!(lex_order())(ks[j], ks[i]));
    }
}

/// What a group adds to a count's sum.
pub open spec fn group_total(s: Seq<TokenEventView>, f: Field, u: Usage) -> spec_fn(Seq<char>) -> int {
    |k: Seq<char>| crate::report::usage_sum(group_of(s, f, k), u)
}

proof fn lemma_distinct_no_dups(s: Seq<TokenEventView>, f: Field)
    ensures
        distinct_keys(s, f).no_duplicates(),
        forall|k: Seq<char>| distinct_keys(s, f).contains(k) ==> exists|i: int|
            0 <= i < s.len() && #[trigger] crate::report::field_of(s[i], f) == k,
    decreases s.len(),
{
    if s.len() > 0 {
        lemma_distinct_no_dups(s.drop_last(), f);
        let d = distinct_keys(s.drop_last(), f);
        assert forall|k: Seq<char>| distinct_keys(s, f).contains(k) implies exists|i: int|
            0 <= i < s.len() && #[trigger] crate::report::field_of(s[i], f) == k by {
            if d.contains(k) {
                let i = choose|i: int|
                    0 <= i < s.len() - 1 && #[trigger] crate::report::field_of(s.drop_last()[i], f)
                        == k;
                assert(s.drop_last()[i] == s[i]);
            } else {
                assert(crate::report::field_of(s[s.len() - 1], f) == k);
            }
        }
    }
}

/// A key that does not appear has no events.
proof fn lemma_absent_key_empty(s: Seq<TokenEventView>, f: Field, k: Seq<char>)
    requires
        !distinct_keys(s, f).contains(k),
    ensures
        group_of(s, f, k).len() == 0,
    decreases s.len(),
{
    if s.len() > 0 {
        let d = distinct_keys(s.drop_last(), f);
        if !d.contains(crate::report::field_of(s.last(), f)) {
            assert(d.push(crate::report::field_of(s.last(), f)).last() == crate::report::field_of(
                s.last(),
                f,
            ));
        }
        assert(!d.contains(k)) by {
            if d.contains(k) {
                let i = choose|i: int| 0 <= i < d.len() && d[i] == k;
                if !d.contains(crate::report::field_of(s.last(), f)) {
                    assert(d.push(crate::report::field_of(s.last(), f))[i] == k);
                }
            }
        }
        lemma_absent_key_empty(s.drop_last(), f, k);
    }
}

/// Adding one event to the events adds its count to the sum of the groups
/// of a key list that names its key once (and nothing where it does not).
proof fn lemma_groups_sum_step(
    s: Seq<TokenEventView>,
    f: Field,
    u: Usage,
    keys: Seq<Seq<char>>,
)
    requires
        s.len() > 0,
        keys.no_duplicates(),
    ensures
        crate::sorting::sum_of(keys, group_total(s, f, u)) == crate::sorting::sum_of(
            keys,
            group_total(s.drop_last(), f, u),
        ) + (if keys.contains(crate::report::field_of(s.last(), f)) {
            crate::report::usage_of(s.last(), u) as int
        } else {
            0
        }),
    decreases keys.len(),
{
    let k = crate::report::field_of(s.last(), f);
    if keys.len() > 0 {
        let rest = keys.drop_last();
        assert(rest.no_duplicates());
        lemma_groups_sum_step(s, f, u, rest);
        let g = group_of(s.drop_last(), f, keys.last());
        if keys.last() == k {
            assert(group_of(s, f, keys.last()).drop_last() == g);
            assert(!rest.contains(k)) by {
                if rest.contains(k) {
                    let i = choose|i: int| 0 <= i < rest.len() && rest[i] == k;
                    assert(keys[i] == keys[keys.len() - 1]);
                }
            }
        } else {
            assert(rest.contains(k) == keys.contains(k)) by {
                if keys.contains(k) {
                    let i = choose|i: int| 0 <= i < keys.len() && keys[i] == k;
                    assert(rest[i] == k);
                }
            }
        }
    }
}

/// The sums of the groups of all keys add up to the sum of all events.
proof fn lemma_distinct_groups_sum(s: Seq<TokenEventView>, f: Field, u: Usage)
    ensures
        crate::sorting::sum_of(distinct_keys(s, f), group_total(s, f, u))
            == crate::report::usage_sum(s, u),
    decreases s.len(),
{
    if s.len() > 0 {
        let t = s.drop_last();
        let k = crate::report::field_of(s.last(), f);
        let d = distinct_keys(t, f);
        lemma_distinct_groups_sum(t, f, u);
        lemma_distinct_no_dups(s, f);
        lemma_distinct_no_dups(t, f);
        if d.contains(k) {
            lemma_groups_sum_step(s, f, u, d);
        } else {
            lemma_groups_sum_step(s, f, u, d);
            lemma_absent_key_empty(t, f, k);
            assert(d.push(k).drop_last() == d);
            assert(group_of(s, f, k).drop_last() == group_of(t, f, k));
            reveal_with_fuel(crate::report::usage_sum, 2);
            assert(group_of(t, f, k) == Seq::<TokenEventView>::empty());
        }
    }
}

/// The totals of the groups the reports list add up to the total of all
/// counts, whatever the field grouped by and whichever count is summed:
/// the project rows of the detail tree, the summary's projects, the daily
/// buckets and the project and session rankings before their cut each
/// share out the whole.
pub proof fn lemma_group_totals_add_up(s: Seq<TokenEventView>, f: Field, u: Usage)
    ensures
        crate::sorting::sum_of(ordered_keys(s, f), group_total(s, f, u))
            == crate::report::usage_sum(s, u),
        crate::sorting::sum_of(ascending_keys(s, f), group_total(s, f, u))
            == crate::report::usage_sum(s, u),
{
    let g = group_total(s, f, u);
    let first = |p: (Seq<char>, Seq<char>)| p.0;
    let attach = |k: Seq<char>| (k, latest_utc_spec(group_of(s, f, k)));
    lemma_distinct_groups_sum(s, f, u);
    crate::sorting::lemma_sum_map(ordered_groups(s, f), first, g);
    crate::sorting::lemma_sum_sort(keyed(s, f), recent_first(), |p: (Seq<char>, Seq<char>)| g(first(p)));
    crate::sorting::lemma_sum_map(distinct_keys(s, f), attach, |p: (Seq<char>, Seq<char>)| g(first(p)));
    assert((|k: Seq<char>| (|p: (Seq<char>, Seq<char>)| g(first(p)))(attach(k))) =~= g);
    crate::sorting::lemma_sum_sort(distinct_keys(s, f), lex_order(), g);
}

} // verus!
