//! How a single token count is graded: the thresholds, the reason text and
//! the status label, and the small token arithmetic shared by the reports.
use vstd::prelude::*;
use crate::decimal::{decimal_at_least_95, decimal_reaches_95};
use crate::text::{chars_of, is_prefix, str_eq, string_from};

verus! {

/// A single token count at or above this is graded "超高".
pub const ABNORMAL_TOKEN_THRESHOLD: i64 = 1_000_000;

/// A single token count at or above this is graded "偏高".
pub const HIGH_TOKEN_THRESHOLD: i64 = 200_000;

/// An owned copy of a string slice.
pub fn owned(s: &str) -> (r: String)
    ensures
        r@ == s@,
{
    let v = chars_of(s);
    string_from(&v)
}

/// Whether the primary quota window is used to 95% or more. The text is what
/// `serde_json` writes for the number it parsed (`JsonNumber::text`): for a
/// float, the shortest text that reads back as the same `f64`, and such a
/// text is at least 95 exactly when that `f64` is, so comparing it exactly
/// gives what comparing the `f64` with `95.0` gives.
pub open spec fn quota_exhausted(primary_used_percent: Option<Seq<char>>) -> bool {
    match primary_used_percent {
        Some(t) => decimal_at_least_95(t),
        None => false,
    }
}

/// The reason given for the grade of one token count.
pub open spec fn status_reason_spec(
    total: i64,
    output: i64,
    reasoning: i64,
    primary_used_percent: Option<Seq<char>>,
) -> Seq<char> {
    if total >= ABNORMAL_TOKEN_THRESHOLD {
        "超高：单条 token_count 达到 1000000"@
    } else if quota_exhausted(primary_used_percent) {
        "超高：主额度窗口使用率达到 95%"@
    } else if total >= HIGH_TOKEN_THRESHOLD {
        "偏高：单条 token_count 达到 200000"@
    } else if output > 0 && reasoning > output * 3 {
        "偏高：推理输出超过普通输出 3 倍"@
    } else {
        "正常范围内"@
    }
}

/// The grade of one token count: "超高", "偏高" or "正常".
pub open spec fn status_spec(
    total: i64,
    output: i64,
    reasoning: i64,
    primary_used_percent: Option<Seq<char>>,
) -> Seq<char> {
    if total >= ABNORMAL_TOKEN_THRESHOLD || quota_exhausted(primary_used_percent) {
        "超高"@
    } else if total >= HIGH_TOKEN_THRESHOLD || (output > 0 && reasoning > output * 3) {
        "偏高"@
    } else {
        "正常"@
    }
}

pub open spec fn opt_view(s: Option<String>) -> Option<Seq<char>> {
    match s {
        Some(x) => Some(x@),
        None => None,
    }
}

fn quota_exhausted_exec(primary_used_percent: &Option<String>) -> (r: bool)
    ensures
        r == quota_exhausted(opt_view(*primary_used_percent)),
{
    match primary_used_percent {
        Some(t) => {
            let cs = chars_of(t.as_str());
            decimal_reaches_95(&cs)
        },
        None => false,
    }
}

/// The reason for the grade of a token count with the given total, output
/// and reasoning tokens and primary quota use (a decimal percentage).
pub fn classify_status_reason(
    total: i64,
    output: i64,
    reasoning: i64,
    primary_used_percent: &Option<String>,
) -> (r: String)
    ensures
        r@ == status_reason_spec(total, output, reasoning, opt_view(*primary_used_percent)),
{
    if total >= ABNORMAL_TOKEN_THRESHOLD {
        return owned("超高：单条 token_count 达到 1000000");
    }
    if quota_exhausted_exec(primary_used_percent) {
        return owned("超高：主额度窗口使用率达到 95%");
    }
    if total >= HIGH_TOKEN_THRESHOLD {
        return owned("偏高：单条 token_count 达到 200000");
    }
    if output > 0 && (reasoning as i128) > (output as i128) * 3 {
        return owned("偏高：推理输出超过普通输出 3 倍");
    }
    owned("正常范围内")
}

/// The grade of a token count.
pub fn classify_status(
    total: i64,
    output: i64,
    reasoning: i64,
    primary_used_percent: &Option<String>,
) -> (r: String)
    ensures
        r@ == status_spec(total, output, reasoning, opt_view(*primary_used_percent)),
{
    if total >= ABNORMAL_TOKEN_THRESHOLD || quota_exhausted_exec(primary_used_percent) {
        owned("超高")
    } else if total >= HIGH_TOKEN_THRESHOLD || (output > 0 && (reasoning as i128) > (output as i128)
        * 3) {
        owned("偏高")
    } else {
        owned("正常")
    }
}

/// Whether a status label is the highest grade ("超高", or its old name "异常").
pub open spec fn is_super_high(status: Seq<char>) -> bool {
    status == "超高"@ || status == "异常"@
}

pub fn is_super_high_status(status: &str) -> (r: bool)
    ensures
        r == is_super_high(status@),
{
    str_eq(status, "超高") || str_eq(status, "异常")
}

/// The old label "异常" read as "超高"; other labels unchanged.
pub open spec fn normalized_status(status: Seq<char>) -> Seq<char> {
    if status == "异常"@ {
        "超高"@
    } else {
        status
    }
}

pub fn normalize_status_label(status: String) -> (r: String)
    ensures
        r@ == normalized_status(status@),
{
    if str_eq(status.as_str(), "异常") {
        owned("超高")
    } else {
        status
    }
}

/// `i64::saturating_sub`: the difference held within the range of `i64`.
pub open spec fn saturating_diff(a: i64, b: i64) -> i64 {
    if a - b > i64::MAX {
        i64::MAX
    } else if a - b < i64::MIN {
        i64::MIN
    } else {
        (a - b) as i64
    }
}

/// Input tokens that were not served from the cache.
pub fn non_cached_tokens(input: i64, cached: i64) -> (r: i64)
    ensures
        r == saturating_diff(input, cached),
{
    let d = input as i128 - cached as i128;
    if d > i64::MAX as i128 {
        i64::MAX
    } else if d < i64::MIN as i128 {
        i64::MIN
    } else {
        d as i64
    }
}

/// How a count is graded: 1,000,000 tokens or more, or a primary quota used
/// to 95% or more, is "超高"; otherwise 200,000 tokens or more, or
/// reasoning output above three times a positive output, is "偏高";
/// anything else is "正常". More tokens never give a lower grade.
pub proof fn lemma_grade_thresholds(
    total: i64,
    output: i64,
    reasoning: i64,
    quota: Option<Seq<char>>,
    more: i64,
)
    ensures
        total >= 1_000_000 ==> status_spec(total, output, reasoning, quota) == "超高"@,
        quota_exhausted(quota) ==> status_spec(total, output, reasoning, quota) == "超高"@,
        total < 1_000_000 && !quota_exhausted(quota) && total >= 200_000 ==> status_spec(
            total,
            output,
            reasoning,
            quota,
        ) == "偏高"@,
        total < 200_000 && !quota_exhausted(quota) && output > 0 && reasoning > 3 * output
            ==> status_spec(total, output, reasoning, quota) == "偏高"@,
        total < 200_000 && !quota_exhausted(quota) && (output <= 0 || reasoning <= 3 * output)
            ==> status_spec(total, output, reasoning, quota) == "正常"@,
        more >= total && status_spec(total, output, reasoning, quota) == "超高"@ ==> status_spec(
            more,
            output,
            reasoning,
            quota,
        ) == "超高"@,
        more >= total && status_spec(total, output, reasoning, quota) == "偏高"@ ==> status_spec(
            more,
            output,
            reasoning,
            quota,
        ) != "正常"@,
{
    reveal_strlit("超高");
    reveal_strlit("偏高");
    reveal_strlit("正常");
    assert("超高"@[0] != "正常"@[0]);
    assert("偏高"@[0] != "正常"@[0]);
}

/// The grade of a count is the one its reason begins with: "超高" or "偏高",
/// else "正常" (the grade is read off the reason).
pub proof fn lemma_status_follows_reason(
    total: i64,
    output: i64,
    reasoning: i64,
    primary_used_percent: Option<Seq<char>>,
)
    ensures
        ({
            let reason = status_reason_spec(total, output, reasoning, primary_used_percent);
            status_spec(total, output, reasoning, primary_used_percent) == if is_prefix(
                "超高"@,
                reason,
            ) {
                "超高"@
            } else if is_prefix("偏高"@, reason) {
                "偏高"@
            } else {
                "正常"@
            }
        }),
{
    reveal_strlit("超高");
    reveal_strlit("偏高");
    reveal_strlit("超高：单条 token_count 达到 1000000");
    reveal_strlit("超高：主额度窗口使用率达到 95%");
    reveal_strlit("偏高：单条 token_count 达到 200000");
    reveal_strlit("偏高：推理输出超过普通输出 3 倍");
    reveal_strlit("正常范围内");
    let reason = status_reason_spec(total, output, reasoning, primary_used_percent);
    assert("超高：单条 token_count 达到 1000000"@.take(2) == "超高"@);
    assert("超高：主额度窗口使用率达到 95%"@.take(2) == "超高"@);
    assert("偏高：单条 token_count 达到 200000"@.take(2) == "偏高"@);
    assert("偏高：推理输出超过普通输出 3 倍"@.take(2) == "偏高"@);
    assert("正常范围内"@.take(2)[0] != "超高"@[0]);
    assert("正常范围内"@.take(2)[0] != "偏高"@[0]);
    assert("偏高"@[0] != "超高"@[0]);
}

} // verus!
