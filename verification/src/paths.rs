//! Path texts as the application reads them: components separated by `/` or
//! `\`, as on the Windows desktop it ships for.
use vstd::prelude::*;
use crate::text::{
    ascii_lower_chars, ascii_lower_seq, chars_eq, chars_of, is_prefix,
    matches_at, occurs_at, slice_chars, string_from, trim, trim_chars, trim_end_by, trim_pred,
};
use crate::update::{after_last, after_last_exec};

verus! {

/// A path separator.
pub open spec fn is_sep(c: char) -> bool {
    c == '/' || c == '\\'
}

/// An ASCII letter.
pub open spec fn is_ascii_alpha(c: char) -> bool {
    ('a' <= c && c <= 'z') || ('A' <= c && c <= 'Z')
}

/// The length of a drive prefix `X:` at the start, else 0.
pub open spec fn prefix_len(s: Seq<char>) -> int {
    if s.len() >= 2 && s[1] == ':' && is_ascii_alpha(s[0]) {
        2
    } else {
        0
    }
}

/// Whether a separator follows the prefix (a root).
pub open spec fn has_root(s: Seq<char>) -> bool {
    prefix_len(s) < s.len() && is_sep(s[prefix_len(s)])
}

/// Whether a rootless path begins, after its prefix, with a `.` component,
/// which `Path::components` keeps (a later `.` it skips).
pub open spec fn leading_cur_dir(s: Seq<char>) -> bool {
    let p = prefix_len(s);
    &&& !has_root(s)
    &&& p < s.len()
    &&& s[p] == '.'
    &&& (p + 1 == s.len() || is_sep(s[p + 1]))
}

/// Where the named components begin: after the prefix, the root and a
/// leading `.`.
pub open spec fn body_start(s: Seq<char>) -> int {
    prefix_len(s) + (if has_root(s) {
        1int
    } else {
        0int
    }) + (if leading_cur_dir(s) {
        1int
    } else {
        0int
    })
}

/// `.`
pub open spec fn is_dot(n: Seq<char>) -> bool {
    n.len() == 1 && n[0] == '.'
}

/// `..`
pub open spec fn is_dot_dot(n: Seq<char>) -> bool {
    n.len() == 2 && n[0] == '.' && n[1] == '.'
}

/// The last component of `s[lo..i]` followed by the component text
/// `s[i..end]`, scanning back: its start and end. Separators delimit
/// components, runs of them count as one, and `.` components are skipped.
pub open spec fn last_comp_from(s: Seq<char>, lo: int, i: int, end: int) -> Option<(int, int)>
    decreases i - lo,
{
    if i <= lo {
        if end > lo && !is_dot(s.subrange(lo, end)) {
            Some((lo, end))
        } else {
            None
        }
    } else if is_sep(s[i - 1]) {
        if end > i && !is_dot(s.subrange(i, end)) {
            Some((i, end))
        } else {
            last_comp_from(s, lo, i - 1, i - 1)
        }
    } else {
        last_comp_from(s, lo, i - 1, end)
    }
}

/// The last component of `s[lo..hi]` (start and end), if it has one.
pub open spec fn last_comp(s: Seq<char>, lo: int, hi: int) -> Option<(int, int)> {
    last_comp_from(s, lo, hi, hi)
}

/// `Path::file_name` on Windows, for paths with no prefix or a drive prefix
/// (`X:`): the last component unless it is `..`; none where the path is
/// empty or only a prefix, a root or a leading `.`. A final `.` is skipped,
/// so `a\.` is named `a`. A path beginning with two separators is read here
/// as a root and components, where Windows reads a UNC, device or verbatim
/// prefix.
pub open spec fn file_name_spec(s: Seq<char>) -> Option<Seq<char>> {
    match last_comp(s, body_start(s), s.len() as int) {
        Some((a, b)) => if is_dot_dot(s.subrange(a, b)) {
            None
        } else {
            Some(s.subrange(a, b))
        },
        None => None,
    }
}

/// `Path::file_stem` of a file name: before its last `.`, unless that `.`
/// leads the name or there is none.
pub open spec fn stem_of(name: Seq<char>) -> Seq<char> {
    let k = after_last(name, '.');
    if k > 1 {
        name.take(k - 1)
    } else {
        name
    }
}

/// `Path::parent` on Windows (for the paths `file_name_spec` reads): the
/// path without its last component (a final `..` or leading `.` included),
/// ending at the component before it, else at the prefix and root; none for
/// a path that is empty or only a prefix or a root.
pub open spec fn parent_spec(s: Seq<char>) -> Option<Seq<char>> {
    let lo = body_start(s);
    match last_comp(s, lo, s.len() as int) {
        Some((a, _)) => Some(
            match last_comp(s, lo, a) {
                Some((_, e)) => s.take(e),
                None => s.take(lo),
            },
        ),
        None => if leading_cur_dir(s) {
            Some(s.take(prefix_len(s)))
        } else {
            None
        },
    }
}

fn is_sep_char(c: char) -> (r: bool)
    ensures
        r == is_sep(c),
{
    c == '/' || c == '\\'
}

fn body_start_exec(s: &Vec<char>) -> (r: usize)
    ensures
        r as int == body_start(s@),
        r <= s.len(),
{
    let pre: usize = if s.len() >= 2 && s[1] == ':' && ((s[0] >= 'a' && s[0] <= 'z') || (s[0]
        >= 'A' && s[0] <= 'Z')) {
        2
    } else {
        0
    };
    let root = pre < s.len() && is_sep_char(s[pre]);
    let cur = !root && pre < s.len() && s[pre] == '.' && (pre + 1 == s.len() || is_sep_char(
        s[pre + 1],
    ));
    let mut r = pre;
    if root {
        r = r + 1;
    }
    if cur {
        r = r + 1;
    }
    r
}

fn is_dot_range(s: &Vec<char>, a: usize, b: usize) -> (r: bool)
    requires
        a <= b <= s.len(),
    ensures
        r == is_dot(s@.subrange(a as int, b as int)),
{
    b - a == 1 && s[a] == '.'
}

fn is_dot_dot_range(s: &Vec<char>, a: usize, b: usize) -> (r: bool)
    requires
        a <= b <= s.len(),
    ensures
        r == is_dot_dot(s@.subrange(a as int, b as int)),
{
    b - a == 2 && s[a] == '.' && s[a + 1] == '.'
}

/// `last_comp(s, lo, hi)`.
fn last_comp_exec(s: &Vec<char>, lo: usize, hi: usize) -> (r: Option<(usize, usize)>)
    requires
        lo <= hi <= s.len(),
    ensures
        match r {
            Some((a, b)) => last_comp(s@, lo as int, hi as int) == Some((a as int, b as int))
                && lo <= a < b <= hi,
            None => last_comp(s@, lo as int, hi as int) is None,
        },
{
    let mut i = hi;
    let mut end = hi;
    while i > lo
        invariant
            lo <= i <= end <= hi <= s.len(),
            last_comp_from(s@, lo as int, i as int, end as int) == last_comp(
                s@,
                lo as int,
                hi as int,
            ),
        decreases i,
    {
        if is_sep_char(s[i - 1]) {
            if end > i && !is_dot_range(s, i, end) {
                return Some((i, end));
            }
            i = i - 1;
            end = i;
        } else {
            i = i - 1;
        }
    }
    if end > lo && !is_dot_range(s, lo, end) {
        Some((lo, end))
    } else {
        None
    }
}

/// `Path::file_name` of a path text.
pub fn file_name_chars(s: &Vec<char>) -> (r: Option<Vec<char>>)
    ensures
        r matches Some(n) ==> file_name_spec(s@) == Some(n@),
        r is None ==> file_name_spec(s@) is None,
{
    let lo = body_start_exec(s);
    match last_comp_exec(s, lo, s.len()) {
        Some((a, b)) => {
            if is_dot_dot_range(s, a, b) {
                None
            } else {
                Some(slice_chars(s, a, b))
            }
        },
        None => None,
    }
}

/// `Path::parent` of a path text, as a string.
pub fn parent_text(s: &Vec<char>) -> (r: Option<String>)
    ensures
        r matches Some(p) ==> parent_spec(s@) == Some(p@),
        r is None ==> parent_spec(s@) is None,
{
    match parent_chars(s) {
        Some(p) => Some(string_from(&p)),
        None => None,
    }
}

/// `Path::parent` of a path text.
fn parent_chars(s: &Vec<char>) -> (r: Option<Vec<char>>)
    ensures
        r matches Some(p) ==> parent_spec(s@) == Some(p@),
        r is None ==> parent_spec(s@) is None,
{
    let lo = body_start_exec(s);
    match last_comp_exec(s, lo, s.len()) {
        Some((a, _)) => {
            match last_comp_exec(s, lo, a) {
                Some((_, e)) => {
                    assert(s@.subrange(0, e as int) == s@.take(e as int));
                    Some(slice_chars(s, 0, e))
                },
                None => {
                    assert(s@.subrange(0, lo as int) == s@.take(lo as int));
                    Some(slice_chars(s, 0, lo))
                },
            }
        },
        None => {
            let pre: usize = if s.len() >= 2 && s[1] == ':' && ((s[0] >= 'a' && s[0] <= 'z') || (
            s[0] >= 'A' && s[0] <= 'Z')) {
                2
            } else {
                0
            };
            let root = pre < s.len() && is_sep_char(s[pre]);
            let cur = !root && pre < s.len() && s[pre] == '.' && (pre + 1 == s.len()
                || is_sep_char(s[pre + 1]));
            if cur {
                assert(s@.subrange(0, pre as int) == s@.take(pre as int));
                Some(slice_chars(s, 0, pre))
            } else {
                None
            }
        },
    }
}

/// The project a working directory belongs to: its last component, else
/// `unknown`.
pub open spec fn project_spec(cwd: Option<Seq<char>>) -> Seq<char> {
    match cwd {
        Some(c) => match file_name_spec(c) {
            Some(n) => n,
            None => "unknown"@,
        },
        None => "unknown"@,
    }
}

pub fn project_from_cwd(cwd: Option<&str>) -> (r: String)
    ensures
        r@ == project_spec(match cwd {
            Some(c) => Some(c@),
            None => None,
        }),
{
    match cwd {
        Some(c) => {
            let cs = chars_of(c);
            match file_name_chars(&cs) {
                Some(n) => string_from(&n),
                None => "unknown".to_string(),
            }
        },
        None => "unknown".to_string(),
    }
}

/// The session id a log file's name gives: its file stem, else
/// `unknown-session`.
pub open spec fn session_id_from_path_spec(path: Seq<char>) -> Seq<char> {
    match file_name_spec(path) {
        Some(n) => stem_of(n),
        None => "unknown-session"@,
    }
}

pub fn session_id_from_path(path: &str) -> (r: String)
    ensures
        r@ == session_id_from_path_spec(path@),
{
    let cs = chars_of(path);
    match file_name_chars(&cs) {
        Some(n) => {
            let k = after_last_exec(&n, '.');
            if k > 1 {
                let stem = slice_chars(&n, 0, k - 1);
                assert(n@.subrange(0, k - 1) == n@.take(k - 1));
                string_from(&stem)
            } else {
                string_from(&n)
            }
        },
        None => "unknown-session".to_string(),
    }
}

/// The Codex home a sessions folder lies in: its parent, where the folder is
/// named `sessions` or `archived_sessions` in any ASCII case.
pub open spec fn codex_home_spec(sessions_root: Seq<char>) -> Option<Seq<char>> {
    match file_name_spec(sessions_root) {
        Some(leaf) => if ascii_lower_seq(leaf) == "sessions"@ || ascii_lower_seq(leaf)
            == "archived_sessions"@ {
            parent_spec(sessions_root)
        } else {
            None
        },
        None => None,
    }
}

pub fn codex_home_from_sessions_root(sessions_root: &str) -> (r: Option<String>)
    ensures
        r matches Some(h) ==> codex_home_spec(sessions_root@) == Some(h@),
        r is None ==> codex_home_spec(sessions_root@) is None,
{
    let cs = chars_of(sessions_root);
    match file_name_chars(&cs) {
        Some(leaf) => {
            let lower = ascii_lower_chars(&leaf);
            let a = chars_of("sessions");
            let b = chars_of("archived_sessions");
            if chars_eq(&lower, &a) || chars_eq(&lower, &b) {
                parent_text(&cs)
            } else {
                None
            }
        },
        None => None,
    }
}

/// `s` with every leading copy of `p` removed (`trim_start_matches(p)`).
pub open spec fn strip_prefixes(s: Seq<char>, p: Seq<char>) -> Seq<char>
    decreases s.len(),
{
    if p.len() > 0 && is_prefix(p, s) {
        strip_prefixes(s.skip(p.len() as int), p)
    } else {
        s
    }
}

/// `/` written as `\`.
pub open spec fn backslashed(s: Seq<char>) -> Seq<char> {
    s.map_values(|c: char| if c == '/' { '\\' } else { c })
}

/// The key a workspace path is known by: trimmed, without `\\?\` prefixes,
/// with `\` for `/`, without trailing `\`, in ASCII lower case.
pub open spec fn normalized_path_spec(path: Seq<char>) -> Seq<char> {
    ascii_lower_seq(
        trim_end_by(
            backslashed(strip_prefixes(trim(path), "\\\\?\\"@)),
            trim_pred(false, '\\'),
        ),
    )
}

/// Index after the leading copies of `p` in `s[from..]`.
fn strip_prefixes_index(s: &Vec<char>, p: &Vec<char>) -> (r: usize)
    ensures
        r <= s.len(),
        strip_prefixes(s@, p@) == s@.skip(r as int),
{
    let mut i: usize = 0;
    assert(s@.skip(0) == s@);
    while p.len() > 0 && matches_at(s, p, i)
        invariant
            i <= s.len(),
            strip_prefixes(s@, p@) == strip_prefixes(s@.skip(i as int), p@),
        decreases s.len() - i,
    {
        assert(s@.skip(i as int).take(p.len() as int) == s@.subrange(i as int, i + p.len()));
        assert(s@.skip(i as int).skip(p.len() as int) == s@.skip(i + p.len()));
        i = i + p.len();
    }
    proof {
        let t = s@.skip(i as int);
        if p@.len() > 0 && is_prefix(p@, t) {
            assert(t.take(p.len() as int) == s@.subrange(i as int, i + p.len()));
            assert(occurs_at(p@, s@, i as int));
        }
    }
    i
}

pub fn normalize_codex_path(path: &str) -> (r: String)
    ensures
        r@ == normalized_path_spec(path@),
{
    let cs = chars_of(path);
    let t = trim_chars(&cs);
    let p = chars_of("\\\\?\\");
    let a = strip_prefixes_index(&t, &p);
    let mut out: Vec<char> = Vec::new();
    let mut i = a;
    let ghost stripped = t@.skip(a as int);
    while i < t.len()
        invariant
            a <= i <= t.len(),
            stripped == t@.skip(a as int),
            out@ == backslashed(stripped.take(i - a)),
        decreases t.len() - i,
    {
        let c = t[i];
        if c == '/' {
            out.push('\\');
        } else {
            out.push(c);
        }
        i = i + 1;
        assert(stripped.take(i - a) == stripped.take(i - a - 1).push(c));
        assert(backslashed(stripped.take(i - a)) == backslashed(stripped.take(i - a - 1)).push(
            if c == '/' { '\\' } else { c },
        ));
    }
    assert(stripped.take(t.len() - a) == stripped);
    let b = crate::text::trim_end_char(&out, '\\');
    let lower = ascii_lower_chars(&b);
    string_from(&lower)
}

} // verus!
