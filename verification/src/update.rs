//! Update checks against GitHub releases: the update source forms, release
//! versions and their order, the choice of the downloadable asset, and the
//! name under which a package is saved.
use vstd::prelude::*;
use crate::decimal::index_of;
use crate::decimal::index_of_char;
use crate::text::is_ws;
use crate::json::{get_str, get_u64, jget, jget_str, ju64, JsonValue};
use crate::text::{
    ascii_lower_chars,
    ascii_lower_seq,
    chars_of,
    contains,
    contains_seq,
    ends_with,
    extend_chars,
    extend_str,
    is_prefix,
    is_suffix,
    parse_u64,
    parse_u64_spec,
    slice_chars,
    starts_with,
    string_from,
    trim,
    trim_char,
    trim_char_chars,
    trim_chars,
    trim_end_by,
    trim_end_char,
    trim_pred,
    trim_start_by,
    trim_start_char,
};

verus! {

// ---------------------------------------------------------------------------
// Splitting
// ---------------------------------------------------------------------------

/// `s.split(c)`: every piece between separators, empty ones included.
pub open spec fn split_all(s: Seq<char>, c: char) -> Seq<Seq<char>>
    decreases s.len(),
{
    let i = index_of(s, c);
    if i >= s.len() {
        seq![s]
    } else {
        seq![s.take(i as int)] + split_all(s.skip(i + 1int), c)
    }
}

pub proof fn lemma_index_of_bound(s: Seq<char>, c: char)
    ensures
        index_of(s, c) <= s.len(),
        index_of(s, c) < s.len() ==> s[index_of(s, c) as int] == c,
        forall|j: int| 0 <= j < index_of(s, c) ==> s[j] != c,
    decreases s.len(),
{
    if s.len() > 0 && s[0] != c {
        lemma_index_of_bound(s.drop_first(), c);
        assert forall|j: int| 0 <= j < index_of(s, c) implies s[j] != c by {
            if j > 0 {
                assert(s[j] == s.drop_first()[j - 1]);
            }
        }
    }
}

/// The pieces of `s.split(c)` that are not empty, in order.
pub open spec fn pieces_state(s: Seq<char>, c: char) -> (Seq<Seq<char>>, Seq<char>)
    decreases s.len(),
{
    if s.len() == 0 {
        (Seq::empty(), Seq::empty())
    } else {
        let (done, cur) = pieces_state(s.drop_last(), c);
        if s.last() == c {
            (if cur.len() > 0 {
                done.push(cur)
            } else {
                done
            }, Seq::empty())
        } else {
            (done, cur.push(s.last()))
        }
    }
}

/// `s.split(c).filter(|p| !p.is_empty())`.
pub open spec fn nonempty_pieces(s: Seq<char>, c: char) -> Seq<Seq<char>> {
    let (done, cur) = pieces_state(s, c);
    if cur.len() > 0 {
        done.push(cur)
    } else {
        done
    }
}

/// The non-empty pieces of `s` split at `c`, as character vectors.
pub fn split_nonempty(s: &Vec<char>, c: char) -> (r: Vec<Vec<char>>)
    ensures
        r@.len() == nonempty_pieces(s@, c).len(),
        forall|i: int| 0 <= i < r@.len() ==> (#[trigger] r@[i])@ == nonempty_pieces(s@, c)[i],
{
    let mut done: Vec<Vec<char>> = Vec::new();
    let mut cur: Vec<char> = Vec::new();
    let mut i: usize = 0;
    while i < s.len()
        invariant
            i <= s.len(),
            pieces_state(s@.take(i as int), c).1 == cur@,
            done@.len() == pieces_state(s@.take(i as int), c).0.len(),
            forall|k: int|
                0 <= k < done@.len() ==> (#[trigger] done@[k])@ == pieces_state(
                    s@.take(i as int),
                    c,
                ).0[k],
        decreases s.len() - i,
    {
        assert(s@.take(i + 1).drop_last() == s@.take(i as int));
        assert(s@.take(i + 1).last() == s@[i as int]);
        if s[i] == c {
            if cur.len() > 0 {
                let piece = cur;
                done.push(piece);
            }
            cur = Vec::new();
        } else {
            cur.push(s[i]);
        }
        i = i + 1;
    }
    assert(s@.take(s.len() as int) == s@);
    if cur.len() > 0 {
        done.push(cur);
    }
    done
}

/// Number of copies of `c` in `s`.
pub open spec fn count_char(s: Seq<char>, c: char) -> nat
    decreases s.len(),
{
    if s.len() == 0 {
        0
    } else {
        count_char(s.drop_last(), c) + if s.last() == c {
            1nat
        } else {
            0nat
        }
    }
}

pub fn count_char_exec(s: &Vec<char>, c: char) -> (r: usize)
    ensures
        r == count_char(s@, c),
{
    let mut n: usize = 0;
    let mut i: usize = 0;
    while i < s.len()
        invariant
            i <= s.len(),
            n == count_char(s@.take(i as int), c),
            n <= i,
        decreases s.len() - i,
    {
        assert(s@.take(i + 1).drop_last() == s@.take(i as int));
        assert(s@.take(i + 1).last() == s@[i as int]);
        if s[i] == c {
            n = n + 1;
        }
        i = i + 1;
    }
    assert(s@.take(s.len() as int) == s@);
    n
}

// ---------------------------------------------------------------------------
// Update sources
// ---------------------------------------------------------------------------

/// Why an update source was refused.
#[derive(PartialEq, Eq, Structural, Debug, Clone, Copy)]
pub enum UpdateSourceError {
    /// The source is blank.
    Empty,
    /// The source is neither `owner/repo`, a GitHub repository URL, nor an
    /// http(s) URL.
    Unsupported,
}

impl UpdateSourceError {
    /// The message shown to the user.
    pub fn message(&self) -> (r: String)
        ensures
            *self == UpdateSourceError::Empty ==> r@ == "更新源为空。"@,
            *self == UpdateSourceError::Unsupported ==> r@
                == "更新源格式不支持，请填写 owner/repo、GitHub 仓库地址或 Latest Release API。"@,
    {
        match self {
            UpdateSourceError::Empty => crate::status::owned("更新源为空。"),
            UpdateSourceError::Unsupported => crate::status::owned(
                "更新源格式不支持，请填写 owner/repo、GitHub 仓库地址或 Latest Release API。",
            ),
        }
    }
}

/// `value.starts_with("https://") || value.starts_with("http://")`.
pub open spec fn is_http(s: Seq<char>) -> bool {
    is_prefix("https://"@, s) || is_prefix("http://"@, s)
}

pub fn is_http_url(value: &str) -> (r: bool)
    ensures
        r == is_http(value@),
{
    let v = chars_of(value);
    is_http_chars(&v)
}

fn is_http_chars(v: &Vec<char>) -> (r: bool)
    ensures
        r == is_http(v@),
{
    let a = chars_of("https://");
    let b = chars_of("http://");
    starts_with(v, &a) || starts_with(v, &b)
}

/// The GitHub "latest release" API address of a repository.
pub open spec fn latest_release_api(owner: Seq<char>, repo: Seq<char>) -> Seq<char> {
    "https://api.github.com/repos/"@ + owner + "/"@ + repo + "/releases/latest"@
}

/// The release API address that an update source stands for:
/// a "latest release" API address as it is; `https://github.com/owner/repo`
/// and `owner/repo` as that repository's API address; any other http(s)
/// address as it is.
pub open spec fn update_source_spec(source: Seq<char>) -> Result<Seq<char>, UpdateSourceError> {
    let t = trim_end_by(trim(source), trim_pred(false, '/'));
    if t.len() == 0 {
        Err(UpdateSourceError::Empty)
    } else if is_prefix("https://api.github.com/repos/"@, t) && is_suffix("/releases/latest"@, t) {
        Ok(t)
    } else if is_prefix("https://github.com/"@, t) && nonempty_pieces(
        t.skip("https://github.com/"@.len() as int),
        '/',
    ).len() >= 2 {
        let parts = nonempty_pieces(t.skip("https://github.com/"@.len() as int), '/');
        Ok(latest_release_api(parts[0], parts[1]))
    } else if !contains_seq(t, "://"@) && count_char(t, '/') == 1 {
        let i = index_of(t, '/');
        Ok(latest_release_api(t.take(i as int), t.skip(i + 1int)))
    } else if is_http(t) {
        Ok(t)
    } else {
        Err(UpdateSourceError::Unsupported)
    }
}

fn release_api_chars(owner: &Vec<char>, repo: &Vec<char>) -> (r: String)
    ensures
        r@ == latest_release_api(owner@, repo@),
{
    let mut v = chars_of("https://api.github.com/repos/");
    extend_chars(&mut v, owner);
    extend_str(&mut v, "/");
    extend_chars(&mut v, repo);
    extend_str(&mut v, "/releases/latest");
    string_from(&v)
}

/// Turns an update source into the address of its latest-release API.
pub fn normalize_update_source(source: &str) -> (r: Result<String, UpdateSourceError>)
    ensures
        r matches Ok(s) ==> update_source_spec(source@) == Ok::<Seq<char>, UpdateSourceError>(s@),
        r matches Err(e) ==> update_source_spec(source@) == Err::<Seq<char>, UpdateSourceError>(e),
{
    let src = chars_of(source);
    let t0 = trim_chars(&src);
    let t = trim_end_char(&t0, '/');
    if t.len() == 0 {
        return Err(UpdateSourceError::Empty);
    }
    let api = chars_of("https://api.github.com/repos/");
    let latest = chars_of("/releases/latest");
    if starts_with(&t, &api) && ends_with(&t, &latest) {
        return Ok(string_from(&t));
    }
    let gh = chars_of("https://github.com/");
    if starts_with(&t, &gh) {
        let repo = slice_chars(&t, gh.len(), t.len());
        assert(repo@ == t@.skip("https://github.com/"@.len() as int));
        let parts = split_nonempty(&repo, '/');
        if parts.len() >= 2 {
            return Ok(release_api_chars(&parts[0], &parts[1]));
        }
    }
    let sep = chars_of("://");
    if !contains(&t, &sep) && count_char_exec(&t, '/') == 1 {
        let i = index_of_char(&t, '/');
        proof {
            lemma_index_of_bound(t@, '/');
            if i >= t.len() {
                lemma_count_zero(t@, '/');
            }
        }
        let owner = slice_chars(&t, 0, i);
        let repo = slice_chars(&t, i + 1, t.len());
        assert(owner@ == t@.take(i as int));
        assert(repo@ == t@.skip(i + 1int));
        return Ok(release_api_chars(&owner, &repo));
    }
    if is_http_chars(&t) {
        return Ok(string_from(&t));
    }
    Err(UpdateSourceError::Unsupported)
}

/// A text without `c` has no copy of `c`.
pub proof fn lemma_count_zero(s: Seq<char>, c: char)
    requires
        forall|j: int| 0 <= j < s.len() ==> s[j] != c,
    ensures
        count_char(s, c) == 0,
    decreases s.len(),
{
    if s.len() > 0 {
        lemma_count_zero(s.drop_last(), c);
    }
}

// ---------------------------------------------------------------------------
// Versions
// ---------------------------------------------------------------------------

/// A release tag without surrounding whitespace and leading `v` / `V` runs.
pub open spec fn release_version_spec(value: Seq<char>) -> Seq<char> {
    trim_start_by(trim_start_by(trim(value), trim_pred(false, 'v')), trim_pred(false, 'V'))
}

pub fn normalize_release_version_chars(value: &Vec<char>) -> (r: Vec<char>)
    ensures
        r@ == release_version_spec(value@),
{
    let t = trim_chars(value);
    let a = trim_start_char(&t, 'v');
    trim_start_char(&a, 'V')
}

/// `value.trim().trim_start_matches('v').trim_start_matches('V')`.
pub fn normalize_release_version(value: &str) -> (r: String)
    ensures
        r@ == release_version_spec(value@),
{
    let v = chars_of(value);
    let r = normalize_release_version_chars(&v);
    string_from(&r)
}

/// `major.minor.patch` of a version: the part before the first `-`, split
/// at `.` into exactly three pieces that each parse as `u64`.
pub open spec fn version_triplet_spec(value: Seq<char>) -> Option<(u64, u64, u64)> {
    let version = release_version_spec(value);
    let stable = version.take(index_of(version, '-') as int);
    let parts = split_all(stable, '.');
    if parts.len() == 3 && parse_u64_spec(parts[0]) is Some && parse_u64_spec(parts[1]) is Some
        && parse_u64_spec(parts[2]) is Some {
        Some(
            (
                parse_u64_spec(parts[0]).unwrap(),
                parse_u64_spec(parts[1]).unwrap(),
                parse_u64_spec(parts[2]).unwrap(),
            ),
        )
    } else {
        None
    }
}

pub fn parse_version_triplet(value: &str) -> (r: Option<(u64, u64, u64)>)
    ensures
        r == version_triplet_spec(value@),
{
    let v = chars_of(value);
    let version = normalize_release_version_chars(&v);
    let dash = index_of_char(&version, '-');
    let stable = slice_chars(&version, 0, dash);
    assert(stable@ == version@.take(dash as int));
    let i = index_of_char(&stable, '.');
    proof {
        lemma_index_of_bound(stable@, '.');
    }
    if i >= stable.len() {
        assert(split_all(stable@, '.').len() == 1);
        return None;
    }
    let p0 = slice_chars(&stable, 0, i);
    let rest1 = slice_chars(&stable, i + 1, stable.len());
    assert(rest1@ == stable@.skip(i + 1int));
    let j = index_of_char(&rest1, '.');
    proof {
        lemma_index_of_bound(rest1@, '.');
    }
    if j >= rest1.len() {
        assert(split_all(rest1@, '.').len() == 1);
        assert(split_all(stable@, '.').len() == 2);
        return None;
    }
    let p1 = slice_chars(&rest1, 0, j);
    let rest2 = slice_chars(&rest1, j + 1, rest1.len());
    assert(rest2@ == rest1@.skip(j + 1int));
    let k = index_of_char(&rest2, '.');
    proof {
        lemma_index_of_bound(rest2@, '.');
        assert(split_all(stable@, '.') == seq![p0@] + split_all(rest1@, '.'));
        assert(split_all(rest1@, '.') == seq![p1@] + split_all(rest2@, '.'));
        if k < rest2.len() {
            let rest3 = rest2@.skip(k + 1int);
            assert(split_all(rest2@, '.') == seq![rest2@.take(k as int)] + split_all(rest3, '.'));
            lemma_split_nonempty(rest3, '.');
        } else {
            assert(split_all(rest2@, '.') == seq![rest2@]);
        }
    }
    if k < rest2.len() {
        return None;
    }
    let a = parse_u64(&p0);
    let b = parse_u64(&p1);
    let c = parse_u64(&rest2);
    match (a, b, c) {
        (Some(x), Some(y), Some(z)) => Some((x, y, z)),
        _ => None,
    }
}

/// `split` always yields at least one piece.
pub proof fn lemma_split_nonempty(s: Seq<char>, c: char)
    ensures
        split_all(s, c).len() >= 1,
    decreases s.len(),
{
    let i = index_of(s, c);
    lemma_index_of_bound(s, c);
    if i < s.len() {
        lemma_split_nonempty(s.skip(i + 1int), c);
    }
}

/// Lexicographic order of version triplets.
pub open spec fn triplet_gt(a: (u64, u64, u64), b: (u64, u64, u64)) -> bool {
    a.0 > b.0 || (a.0 == b.0 && (a.1 > b.1 || (a.1 == b.1 && a.2 > b.2)))
}

/// Whether `latest` is a newer release than `current`: by version numbers
/// where both parse, else whenever the texts differ.
pub open spec fn newer_version_spec(latest: Seq<char>, current: Seq<char>) -> bool {
    match (version_triplet_spec(latest), version_triplet_spec(current)) {
        (Some(a), Some(b)) => triplet_gt(a, b),
        _ => latest != current,
    }
}

pub fn is_newer_version(latest: &str, current: &str) -> (r: bool)
    ensures
        r == newer_version_spec(latest@, current@),
{
    match (parse_version_triplet(latest), parse_version_triplet(current)) {
        (Some(a), Some(b)) => a.0 > b.0 || (a.0 == b.0 && (a.1 > b.1 || (a.1 == b.1 && a.2 > b.2))),
        _ => !crate::text::str_eq(latest, current),
    }
}

/// Where both versions read as major.minor.patch, the major number decides
/// first, then the minor, then the patch: a greater major number is newer
/// whatever the minor and patch numbers, a smaller one is not, and the same
/// three numbers are not newer.
pub proof fn lemma_newer_by_major_minor_patch(
    latest: Seq<char>,
    current: Seq<char>,
    a0: u64,
    a1: u64,
    a2: u64,
    b0: u64,
    b1: u64,
    b2: u64,
)
    requires
        version_triplet_spec(latest) == Some((a0, a1, a2)),
        version_triplet_spec(current) == Some((b0, b1, b2)),
    ensures
        a0 > b0 ==> newer_version_spec(latest, current),
        a0 < b0 ==> !newer_version_spec(latest, current),
        a0 == b0 && a1 > b1 ==> newer_version_spec(latest, current),
        a0 == b0 && a1 < b1 ==> !newer_version_spec(latest, current),
        a0 == b0 && a1 == b1 ==> (newer_version_spec(latest, current) <==> a2 > b2),
{
}

/// No version is newer than itself.
pub proof fn lemma_newer_irreflexive(v: Seq<char>)
    ensures
        !newer_version_spec(v, v),
{
}

/// Where both versions read as numbers, at most one is newer than the
/// other, and exactly one is unless they are the same numbers.
pub proof fn lemma_newer_asymmetric(a: Seq<char>, b: Seq<char>)
    requires
        version_triplet_spec(a) is Some,
        version_triplet_spec(b) is Some,
    ensures
        !(newer_version_spec(a, b) && newer_version_spec(b, a)),
        version_triplet_spec(a) != version_triplet_spec(b) ==> (newer_version_spec(a, b)
            || newer_version_spec(b, a)),
{
}

/// Newer is transitive where the versions read as numbers.
pub proof fn lemma_newer_transitive(a: Seq<char>, b: Seq<char>, c: Seq<char>)
    requires
        version_triplet_spec(a) is Some,
        version_triplet_spec(b) is Some,
        version_triplet_spec(c) is Some,
        newer_version_spec(a, b),
        newer_version_spec(b, c),
    ensures
        newer_version_spec(a, c),
{
}

/// The text of an accepted update source.
pub open spec fn accepted(r: Result<Seq<char>, UpdateSourceError>) -> Seq<char> {
    match r {
        Ok(u) => u,
        Err(_) => Seq::empty(),
    }
}

proof fn lemma_trim_ends(s: Seq<char>)
    ensures
        trim(s).len() > 0 ==> !is_ws(trim(s)[0]) && !is_ws(trim(s).last()),
{
    let p = trim_pred(true, ' ');
    let a = trim_start_by(s, p);
    crate::text::lemma_trim_start_head(s, p);
    crate::text::lemma_trim_end_tail(a, p);
    if trim(s).len() > 0 {
        assert(trim(s)[0] == a.take(trim(s).len() as int)[0]);
    }
}

proof fn lemma_plain_ends_untouched(x: Seq<char>)
    requires
        x.len() > 0,
        !is_ws(x[0]),
        !is_ws(x.last()),
        x.last() != '/',
    ensures
        trim_end_by(trim(x), trim_pred(false, '/')) == x,
{
    let p = trim_pred(true, ' ');
    assert(trim_start_by(x, p) == x);
    assert(trim_end_by(x, p) == x);
    assert(trim_end_by(x, trim_pred(false, '/')) == x);
}

proof fn lemma_api_address(a: Seq<char>, b: Seq<char>)
    ensures
        ({
            let u = latest_release_api(a, b);
            &&& u.len() > 0
            &&& u[0] == 'h'
            &&& u.last() == 't'
            &&& is_prefix("https://api.github.com/repos/"@, u)
            &&& is_suffix("/releases/latest"@, u)
        }),
{
    reveal_strlit("https://api.github.com/repos/");
    reveal_strlit("/releases/latest");
    reveal_strlit("/");
    let u = latest_release_api(a, b);
    let pre = "https://api.github.com/repos/"@;
    let suf = "/releases/latest"@;
    assert(u == pre + (a + "/"@ + b) + suf);
    assert(u.take(pre.len() as int) == pre);
    assert(u.skip(u.len() - suf.len()) == suf);
    assert(u[0] == pre[0]);
    assert(u.last() == suf.last());
}

/// An accepted update source is accepted again as it is (unless it ends in
/// whitespace, which a second reading trims).
pub proof fn lemma_normalized_source_is_stable(source: Seq<char>)
    requires
        update_source_spec(source) is Ok,
        !is_ws(accepted(update_source_spec(source)).last()),
    ensures
        update_source_spec(accepted(update_source_spec(source))) == update_source_spec(source),
{
    let tr = trim(source);
    let t = trim_end_by(tr, trim_pred(false, '/'));
    let u = accepted(update_source_spec(source));
    crate::text::lemma_trim_end_tail(tr, trim_pred(false, '/'));
    lemma_trim_ends(source);
    if t.len() > 0 {
        assert(t[0] == tr.take(t.len() as int)[0]);
    }
    reveal_strlit("https://api.github.com/repos/");
    reveal_strlit("/releases/latest");
    if u == t {
        lemma_plain_ends_untouched(t);
    } else {
        if is_prefix("https://github.com/"@, t) && nonempty_pieces(
            t.skip("https://github.com/"@.len() as int),
            '/',
        ).len() >= 2 {
            let parts = nonempty_pieces(t.skip("https://github.com/"@.len() as int), '/');
            lemma_api_address(parts[0], parts[1]);
            lemma_plain_ends_untouched(u);
        } else {
            let i = index_of(t, '/');
            lemma_api_address(t.take(i as int), t.skip(i + 1int));
            lemma_plain_ends_untouched(u);
        }
    }
}

// ---------------------------------------------------------------------------
// File names of downloaded packages
// ---------------------------------------------------------------------------

/// Characters kept in file names: ASCII letters and digits, `.`, `-`, `_`
/// and space; any other becomes `_`.
pub open spec fn file_name_char(c: char) -> char {
    if ('a' <= c && c <= 'z') || ('A' <= c && c <= 'Z') || ('0' <= c && c <= '9') || c == '.' || c
        == '-' || c == '_' || c == ' ' {
        c
    } else {
        '_'
    }
}

/// A file name made safe: characters mapped by `file_name_char`, then
/// leading and trailing dots, then surrounding whitespace, removed.
pub open spec fn sanitized_spec(value: Seq<char>) -> Seq<char> {
    trim(trim_char(value.map_values(|c: char| file_name_char(c)), '.'))
}

fn sanitize_chars(v: &Vec<char>) -> (r: Vec<char>)
    ensures
        r@ == sanitized_spec(v@),
{
    let mut mapped: Vec<char> = Vec::new();
    let mut i: usize = 0;
    while i < v.len()
        invariant
            i <= v.len(),
            mapped@ == v@.take(i as int).map_values(|c: char| file_name_char(c)),
        decreases v.len() - i,
    {
        let c = v[i];
        let d = if ('a' <= c && c <= 'z') || ('A' <= c && c <= 'Z') || ('0' <= c && c <= '9') || c
            == '.' || c == '-' || c == '_' || c == ' ' {
            c
        } else {
            '_'
        };
        mapped.push(d);
        assert(v@.take(i + 1).map_values(|c: char| file_name_char(c)) == v@.take(
            i as int,
        ).map_values(|c: char| file_name_char(c)).push(file_name_char(v@[i as int])));
        i = i + 1;
    }
    assert(v@.take(v.len() as int) == v@);
    let dots = trim_char_chars(&mapped, '.');
    trim_chars(&dots)
}

pub fn sanitize_file_name(value: &str) -> (r: String)
    ensures
        r@ == sanitized_spec(value@),
{
    let v = chars_of(value);
    let r = sanitize_chars(&v);
    string_from(&r)
}

/// Index just past the last `c` in `s`, or 0.
pub open spec fn after_last(s: Seq<char>, c: char) -> nat
    decreases s.len(),
{
    if s.len() == 0 {
        0
    } else if s.last() == c {
        s.len()
    } else {
        after_last(s.drop_last(), c)
    }
}

pub fn after_last_exec(s: &Vec<char>, c: char) -> (r: usize)
    ensures
        r == after_last(s@, c),
        r <= s.len(),
{
    let mut k: usize = s.len();
    assert(s@.take(s.len() as int) == s@);
    while k > 0 && s[k - 1] != c
        invariant
            k <= s.len(),
            after_last(s@, c) == after_last(s@.take(k as int), c),
        decreases k,
    {
        assert(s@.take(k as int).drop_last() == s@.take(k - 1));
        k = k - 1;
    }
    if k > 0 {
        assert(s@.take(k as int).last() == s@[k - 1]);
    }
    k
}

/// The file name a download URL names: after its last `/`, before the first
/// `?`, sanitized; only where it ends with `.exe` (in any case).
pub open spec fn url_file_name(url: Seq<char>) -> Option<Seq<char>> {
    let last = url.skip(after_last(url, '/') as int);
    let name = sanitized_spec(last.take(index_of(last, '?') as int));
    if is_suffix(".exe"@, ascii_lower_seq(name)) {
        Some(name)
    } else {
        None
    }
}

/// The portable package file name for a version.
pub open spec fn portable_name(version: Seq<char>) -> Seq<char> {
    "CodexTokenUsage-"@ + version + "-windows-x64-portable.exe"@
}

/// The file name under which a downloaded package is kept: the URL's own
/// `.exe` name, else the portable name of the given version (or of the
/// running version where none is given).
pub open spec fn update_file_name_spec(
    url: Seq<char>,
    version: Option<Seq<char>>,
    current_version: Seq<char>,
) -> Seq<char> {
    match url_file_name(url) {
        Some(n) => n,
        None => {
            let v = match version {
                Some(v) => if release_version_spec(v).len() > 0 {
                    release_version_spec(v)
                } else {
                    current_version
                },
                None => current_version,
            };
            portable_name(v)
        },
    }
}

pub fn update_file_name(download_url: &str, version: Option<&str>, current_version: &str) -> (r:
    String)
    ensures
        r@ == update_file_name_spec(
            download_url@,
            match version {
                Some(v) => Some(v@),
                None => None,
            },
            current_version@,
        ),
{
    let url = chars_of(download_url);
    let cut = after_last_exec(&url, '/');
    let last = slice_chars(&url, cut, url.len());
    assert(last@ == url@.skip(cut as int));
    let q = index_of_char(&last, '?');
    let head = slice_chars(&last, 0, q);
    assert(head@ == last@.take(q as int));
    let name = sanitize_chars(&head);
    let lower = ascii_lower_chars(&name);
    let exe = chars_of(".exe");
    if ends_with(&lower, &exe) {
        return string_from(&name);
    }
    let v = match version {
        Some(v) => {
            let vc = chars_of(v);
            let n = normalize_release_version_chars(&vc);
            if n.len() > 0 {
                n
            } else {
                chars_of(current_version)
            }
        },
        None => chars_of(current_version),
    };
    let mut out = chars_of("CodexTokenUsage-");
    extend_chars(&mut out, &v);
    extend_str(&mut out, "-windows-x64-portable.exe");
    string_from(&out)
}

// ---------------------------------------------------------------------------
// Release assets
// ---------------------------------------------------------------------------

/// A downloadable asset of a release: name, download URL and size.
pub open spec fn asset_of(asset: JsonValue) -> Option<(Seq<char>, Seq<char>, u64)> {
    match (jget_str(asset, "name"@), jget_str(asset, "browser_download_url"@)) {
        (Some(n), Some(u)) => Some(
            (
                n,
                u,
                match ju64(jget(asset, "size"@)) {
                    Some(x) => x,
                    None => 0,
                },
            ),
        ),
        _ => None,
    }
}

/// The assets of a release that have a name and a download URL, in order.
pub open spec fn candidates(assets: Seq<JsonValue>) -> Seq<(Seq<char>, Seq<char>, u64)>
    decreases assets.len(),
{
    if assets.len() == 0 {
        Seq::empty()
    } else {
        let rest = candidates(assets.drop_last());
        match asset_of(assets.last()) {
            Some(a) => rest.push(a),
            None => rest,
        }
    }
}

/// How well an asset name fits: 0 for a portable `CodexTokenUsage*.exe`,
/// 1 for another `CodexTokenUsage*.exe`, 2 for any other `.exe`, 3 otherwise
/// (names compared in ASCII lower case).
pub open spec fn asset_rank(name: Seq<char>) -> nat {
    let lower = ascii_lower_seq(name);
    let exe = is_suffix(".exe"@, lower);
    let product = contains_seq(lower, "codextokenusage"@);
    if product && contains_seq(lower, "portable"@) && exe {
        0
    } else if product && exe {
        1
    } else if exe {
        2
    } else {
        3
    }
}

/// The first candidate whose rank is at most `r`.
pub open spec fn first_ranked(c: Seq<(Seq<char>, Seq<char>, u64)>, r: nat) -> Option<
    (Seq<char>, Seq<char>, u64),
>
    decreases c.len(),
{
    if c.len() == 0 {
        None
    } else if asset_rank(c[0].0) <= r {
        Some(c[0])
    } else {
        first_ranked(c.drop_first(), r)
    }
}

/// The asset to download: the first portable product executable, else the
/// first product executable, else the first executable.
pub open spec fn selected_asset_spec(release: JsonValue) -> Option<(Seq<char>, Seq<char>, u64)> {
    match jget(release, "assets"@) {
        Some(JsonValue::Array(assets)) => {
            let c = candidates(assets@);
            match first_ranked(c, 0) {
                Some(a) => Some(a),
                None => match first_ranked(c, 1) {
                    Some(a) => Some(a),
                    None => first_ranked(c, 2),
                },
            }
        },
        _ => None,
    }
}

proof fn lemma_first_ranked(c: Seq<(Seq<char>, Seq<char>, u64)>, r: nat)
    ensures
        first_ranked(c, r) matches Some(a) ==> c.contains(a) && asset_rank(a.0) <= r,
        (exists|i: int| 0 <= i < c.len() && asset_rank(#[trigger] c[i].0) <= r) ==> first_ranked(
            c,
            r,
        ) is Some,
    decreases c.len(),
{
    if c.len() > 0 {
        lemma_first_ranked(c.drop_first(), r);
        if let Some(a) = first_ranked(c, r) {
            if asset_rank(c[0].0) > r {
                let k = choose|k: int| 0 <= k < c.drop_first().len() && c.drop_first()[k] == a;
                assert(c[k + 1] == a);
            } else {
                assert(c[0] == a);
            }
        }
        if exists|i: int| 0 <= i < c.len() && asset_rank(#[trigger] c[i].0) <= r {
            let i = choose|i: int| 0 <= i < c.len() && asset_rank(#[trigger] c[i].0) <= r;
            if i > 0 && asset_rank(c[0].0) > r {
                assert(c.drop_first()[i - 1] == c[i]);
            }
        }
    }
}

/// Whether a name (in any ASCII case) ends with `.exe`.
pub open spec fn names_exe(name: Seq<char>) -> bool {
    is_suffix(".exe"@, ascii_lower_seq(name))
}

/// Whether a name (in any ASCII case) is a portable build of the product:
/// it names `CodexTokenUsage` and `portable` and ends with `.exe`.
pub open spec fn names_portable_product(name: Seq<char>) -> bool {
    let lower = ascii_lower_seq(name);
    contains_seq(lower, "codextokenusage"@) && contains_seq(lower, "portable"@) && is_suffix(
        ".exe"@,
        lower,
    )
}

/// The asset chosen for download is one of the release's assets and an
/// executable; where the release has a portable build of the product, one is
/// chosen; and where it has any executable, one is chosen.
pub proof fn lemma_portable_asset_preferred(release: JsonValue)
    ensures
        selected_asset_spec(release) matches Some(a) ==> (jget(release, "assets"@) matches Some(
            JsonValue::Array(assets),
        ) && candidates(assets@).contains(a) && names_exe(a.0)),
        (jget(release, "assets"@) matches Some(JsonValue::Array(assets)) && exists|i: int|
            0 <= i < candidates(assets@).len() && names_portable_product(
                #[trigger] candidates(assets@)[i].0,
            )) ==> (selected_asset_spec(release) matches Some(a) && names_portable_product(a.0)),
        (jget(release, "assets"@) matches Some(JsonValue::Array(assets)) && exists|i: int|
            0 <= i < candidates(assets@).len() && names_exe(#[trigger] candidates(assets@)[i].0))
            ==> selected_asset_spec(release) is Some,
{
    if let Some(JsonValue::Array(assets)) = jget(release, "assets"@) {
        let c = candidates(assets@);
        lemma_first_ranked(c, 0);
        lemma_first_ranked(c, 1);
        lemma_first_ranked(c, 2);
        if exists|i: int| 0 <= i < c.len() && names_portable_product(#[trigger] c[i].0) {
            let i = choose|i: int| 0 <= i < c.len() && names_portable_product(#[trigger] c[i].0);
            assert(asset_rank(c[i].0) <= 0);
        }
        if exists|i: int| 0 <= i < c.len() && names_exe(#[trigger] c[i].0) {
            let i = choose|i: int| 0 <= i < c.len() && names_exe(#[trigger] c[i].0);
            assert(asset_rank(c[i].0) <= 2);
        }
    }
}

fn asset_rank_exec(name: &String) -> (r: u8)
    ensures
        r as nat == asset_rank(name@),
{
    let n = chars_of(name.as_str());
    let lower = ascii_lower_chars(&n);
    let exe = ends_with(&lower, &chars_of(".exe"));
    let product = contains(&lower, &chars_of("codextokenusage"));
    if product && contains(&lower, &chars_of("portable")) && exe {
        0
    } else if product && exe {
        1
    } else if exe {
        2
    } else {
        3
    }
}

/// A release asset: file name, download URL and size in bytes.
pub struct ReleaseAsset {
    pub name: String,
    pub url: String,
    pub size: u64,
}

pub open spec fn asset_view(a: ReleaseAsset) -> (Seq<char>, Seq<char>, u64) {
    (a.name@, a.url@, a.size)
}

/// Picks the asset to download from a GitHub release document.
pub fn select_release_asset(release: &JsonValue) -> (r: Option<ReleaseAsset>)
    ensures
        r matches Some(a) ==> selected_asset_spec(*release) == Some(asset_view(a)),
        r is None ==> selected_asset_spec(*release) is None,
{
    let assets = match release.get("assets") {
        Some(JsonValue::Array(a)) => a,
        _ => {
            return None;
        },
    };
    assert(jget(*release, "assets"@) == Some(JsonValue::Array(*assets)));
    let mut cands: Vec<ReleaseAsset> = Vec::new();
    let mut ranks: Vec<u8> = Vec::new();
    let mut i: usize = 0;
    while i < assets.len()
        invariant
            i <= assets.len(),
            cands@.len() == ranks@.len(),
            cands@.len() == candidates(assets@.take(i as int)).len(),
            forall|k: int|
                0 <= k < cands@.len() ==> asset_view(#[trigger] cands@[k]) == candidates(
                    assets@.take(i as int),
                )[k] && ranks@[k] as nat == asset_rank(cands@[k].name@),
        decreases assets.len() - i,
    {
        assert(assets@.take(i + 1).drop_last() == assets@.take(i as int));
        assert(assets@.take(i + 1).last() == assets@[i as int]);
        let a = &assets[i];
        let name = get_str(a, "name");
        let url = get_str(a, "browser_download_url");
        match (name, url) {
            (Some(n), Some(u)) => {
                let size = match get_u64(a, "size") {
                    Some(x) => x,
                    None => 0,
                };
                let rank = asset_rank_exec(&n);
                cands.push(ReleaseAsset { name: n, url: u, size });
                ranks.push(rank);
            },
            _ => {},
        }
        i = i + 1;
    }
    assert(assets@.take(assets.len() as int) == assets@);
    let mut level: u8 = 0;
    while level < 3
        invariant
            level <= 3,
            jget(*release, "assets"@) == Some(JsonValue::Array(*assets)),
            cands@.len() == ranks@.len(),
            cands@.len() == candidates(assets@).len(),
            forall|k: int|
                0 <= k < cands@.len() ==> asset_view(#[trigger] cands@[k]) == candidates(
                    assets@,
                )[k] && ranks@[k] as nat == asset_rank(cands@[k].name@),
            forall|lv: nat| lv < level ==> first_ranked(candidates(assets@), lv) is None,
        decreases 3 - level,
    {
        let mut k: usize = 0;
        assert(candidates(assets@).skip(0) == candidates(assets@));
        while k < cands.len()
            invariant
                k <= cands.len(),
                level < 3,
                jget(*release, "assets"@) == Some(JsonValue::Array(*assets)),
                forall|lv: nat| lv < level ==> first_ranked(candidates(assets@), lv) is None,
                cands@.len() == ranks@.len(),
                cands@.len() == candidates(assets@).len(),
                forall|m: int|
                    0 <= m < cands@.len() ==> asset_view(#[trigger] cands@[m]) == candidates(
                        assets@,
                    )[m] && ranks@[m] as nat == asset_rank(cands@[m].name@),
                first_ranked(candidates(assets@), level as nat) == first_ranked(
                    candidates(assets@).skip(k as int),
                    level as nat,
                ),
            decreases cands.len() - k,
        {
            let ghost c = candidates(assets@);
            assert(c.skip(k as int)[0] == c[k as int]);
            assert(c.skip(k as int).drop_first() == c.skip(k + 1));
            assert(asset_view(cands@[k as int]) == c[k as int]);
            if ranks[k] <= level {
                let chosen = &cands[k];
                let r = ReleaseAsset {
                    name: crate::json::copy_string(&chosen.name),
                    url: crate::json::copy_string(&chosen.url),
                    size: chosen.size,
                };
                return Some(r);
            }
            k = k + 1;
        }
        proof {
            assert(candidates(assets@).skip(k as int).len() == 0);
        }
        level = level + 1;
    }
    None
}

} // verus!
