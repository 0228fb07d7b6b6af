//! The names Codex shows in its sidebar: session titles and workspace labels,
//! and how a project and session are named and described in the reports.
use vstd::prelude::*;
use crate::json::{copy_string, get_str, jget, jget_str, json_parse, parse_json, JsonValue};
use crate::paths::{normalize_codex_path, normalized_path_spec};
use crate::report::{token_event_view, token_events_view, TokenEvent, TokenEventView};
use crate::status::opt_view;
use crate::text::{chars_of, extend_str, str_eq, string_from, trim, trim_chars};

verus! {

/// Session titles by session id, and workspace labels by normalized path.
/// As read, each key occurs once (`keys_unique`); where a key occurs more
/// than once, the last entry counts.
pub struct DisplayNameMaps {
    pub session_titles: Vec<(String, String)>,
    pub workspace_labels: Vec<(String, String)>,
}

pub open spec fn pairs_view(v: Seq<(String, String)>) -> Seq<(Seq<char>, Seq<char>)> {
    v.map_values(|p: (String, String)| (p.0@, p.1@))
}

/// The value last entered under `k`.
pub open spec fn lookup(m: Seq<(Seq<char>, Seq<char>)>, k: Seq<char>) -> Option<Seq<char>>
    decreases m.len(),
{
    if m.len() == 0 {
        None
    } else if m.last().0 == k {
        Some(m.last().1)
    } else {
        lookup(m.drop_last(), k)
    }
}

/// No key occurs twice.
pub open spec fn keys_unique(m: Seq<(Seq<char>, Seq<char>)>) -> bool {
    forall|i: int, j: int| 0 <= i < j < m.len() ==> #[trigger] m[i].0 != #[trigger] m[j].0
}

/// The place of the last entry under `k`.
pub open spec fn key_index(m: Seq<(Seq<char>, Seq<char>)>, k: Seq<char>) -> Option<int>
    decreases m.len(),
{
    if m.len() == 0 {
        None
    } else if m.last().0 == k {
        Some(m.len() - 1)
    } else {
        key_index(m.drop_last(), k)
    }
}

/// `m` with `k` set to `v`, as `HashMap::insert` does: the entry under `k`
/// replaced where there is one, else a new entry at the end.
pub open spec fn map_set(m: Seq<(Seq<char>, Seq<char>)>, k: Seq<char>, v: Seq<char>) -> Seq<
    (Seq<char>, Seq<char>),
> {
    match key_index(m, k) {
        Some(j) => m.update(j, (k, v)),
        None => m.push((k, v)),
    }
}

/// Where `key_index` points, and that no entry has the key where it points
/// nowhere.
pub proof fn lemma_key_index(m: Seq<(Seq<char>, Seq<char>)>, k: Seq<char>)
    ensures
        match key_index(m, k) {
            Some(j) => 0 <= j < m.len() && m[j].0 == k && lookup(m, k) == Some(m[j].1),
            None => (forall|i: int| 0 <= i < m.len() ==> #[trigger] m[i].0 != k) && lookup(m, k)
                is None,
        },
    decreases m.len(),
{
    if m.len() > 0 {
        lemma_key_index(m.drop_last(), k);
        if m.last().0 != k {
            assert forall|i: int| 0 <= i < m.len() - 1 implies #[trigger] m[i] == m.drop_last()[i] by {}
        }
    }
}

/// In a map whose keys are unique, the entry under a key is what `lookup`
/// finds.
pub proof fn lemma_lookup_unique(m: Seq<(Seq<char>, Seq<char>)>, i: int)
    requires
        keys_unique(m),
        0 <= i < m.len(),
    ensures
        lookup(m, m[i].0) == Some(m[i].1),
    decreases m.len(),
{
    if i < m.len() - 1 {
        assert(m[i].0 != m[m.len() - 1].0);
        assert(m.drop_last()[i] == m[i]);
        assert(keys_unique(m.drop_last())) by {
            assert forall|a: int, b: int| 0 <= a < b < m.drop_last().len() implies #[trigger] m.drop_last()[a].0
                != #[trigger] m.drop_last()[b].0 by {
                assert(m.drop_last()[a] == m[a]);
                assert(m.drop_last()[b] == m[b]);
            }
        }
        lemma_lookup_unique(m.drop_last(), i);
    }
}

/// Setting a key keeps the keys unique; afterwards the key finds the new
/// value and every other key what it found before.
pub proof fn lemma_map_set(m: Seq<(Seq<char>, Seq<char>)>, k: Seq<char>, v: Seq<char>, k2: Seq<char>)
    requires
        keys_unique(m),
    ensures
        keys_unique(map_set(m, k, v)),
        lookup(map_set(m, k, v), k2) == if k2 == k {
            Some(v)
        } else {
            lookup(m, k2)
        },
{
    let r = map_set(m, k, v);
    lemma_key_index(m, k);
    lemma_key_index(m, k2);
    match key_index(m, k) {
        Some(j) => {
            assert forall|a: int, b: int| 0 <= a < b < r.len() implies #[trigger] r[a].0
                != #[trigger] r[b].0 by {
                if a != j && b != j {
                    assert(m[a].0 != m[b].0);
                }
                if a == j {
                    assert(m[j].0 != m[b].0);
                }
                if b == j {
                    assert(m[a].0 != m[j].0);
                }
            }
            lemma_key_index(r, k2);
            if k2 == k {
                lemma_lookup_unique(r, j);
            } else {
                match key_index(m, k2) {
                    Some(i) => {
                        assert(i != j);
                        assert(r[i] == m[i]);
                        lemma_lookup_unique(r, i);
                    },
                    None => {
                        match key_index(r, k2) {
                            Some(i) => {
                                if i != j {
                                    assert(r[i] == m[i]);
                                }
                            },
                            None => {},
                        }
                    },
                }
            }
        },
        None => {
            assert forall|a: int, b: int| 0 <= a < b < r.len() implies #[trigger] r[a].0
                != #[trigger] r[b].0 by {
                if b == m.len() {
                    assert(r[a] == m[a]);
                } else {
                    assert(r[a] == m[a]);
                    assert(r[b] == m[b]);
                }
            }
            assert(r.drop_last() == m);
        },
    }
}

/// Sets `k` to `v` in `m`.
fn set_name(m: &mut Vec<(String, String)>, k: String, v: String)
    ensures
        pairs_view(final(m)@) == map_set(pairs_view(old(m)@), k@, v@),
{
    let ghost w = pairs_view(m@);
    let ghost kv = k@;
    let ghost vv = v@;
    let mut i: usize = m.len();
    assert(w.take(m.len() as int) == w);
    while i > 0
        invariant
            i <= m.len(),
            w == pairs_view(m@),
            w == pairs_view(old(m)@),
            kv == k@,
            vv == v@,
            key_index(w, kv) == key_index(w.take(i as int), kv),
        decreases i,
    {
        proof {
            let t = w.take(i as int);
            assert(t.drop_last() == w.take(i - 1));
            assert(t.last() == (m@[i - 1].0@, m@[i - 1].1@));
        }
        if str_eq(m[i - 1].0.as_str(), k.as_str()) {
            assert(w.take(i as int).last().0 == kv);
            assert(key_index(w, kv) == Some((i - 1) as int));
            m.set(i - 1, (k, v));
            assert(pairs_view(m@) == w.update(i - 1, (kv, vv)));
            assert(map_set(w, kv, vv) == w.update(i - 1, (kv, vv)));
            return;
        }
        i = i - 1;
    }
    m.push((k, v));
    assert(pairs_view(m@) == w.push((k@, v@)));
}

pub fn lookup_name(m: &Vec<(String, String)>, k: &str) -> (r: Option<String>)
    ensures
        opt_view(r) == lookup(pairs_view(m@), k@),
{
    let ghost v = pairs_view(m@);
    let mut i: usize = m.len();
    assert(v.take(m.len() as int) == v);
    while i > 0
        invariant
            i <= m.len(),
            v == pairs_view(m@),
            lookup(v, k@) == lookup(v.take(i as int), k@),
        decreases i,
    {
        proof {
            let t = v.take(i as int);
            assert(t.drop_last() == v.take(i - 1));
            assert(t.last() == (m@[i - 1].0@, m@[i - 1].1@));
        }
        if str_eq(m[i - 1].0.as_str(), k) {
            return Some(copy_string(&m[i - 1].1));
        }
        i = i - 1;
    }
    None
}

/// The session titles of `session_index.jsonl`: each line with an `id` and a
/// `thread_name`.
pub open spec fn titles_from_lines(lines: Seq<Seq<char>>) -> Seq<(Seq<char>, Seq<char>)>
    decreases lines.len(),
{
    if lines.len() == 0 {
        Seq::empty()
    } else {
        let before = titles_from_lines(lines.drop_last());
        match json_parse(lines.last()) {
            Some(record) => match (jget_str(record, "id"@), jget_str(record, "thread_name"@)) {
                (Some(id), Some(title)) => map_set(before, id, title),
                _ => before,
            },
            None => before,
        }
    }
}

pub open spec fn lines_view(v: Seq<String>) -> Seq<Seq<char>> {
    v.map_values(|s: String| s@)
}

/// Each session id has one title.
pub proof fn lemma_titles_unique(lines: Seq<Seq<char>>)
    ensures
        keys_unique(titles_from_lines(lines)),
    decreases lines.len(),
{
    if lines.len() > 0 {
        let before = titles_from_lines(lines.drop_last());
        lemma_titles_unique(lines.drop_last());
        match json_parse(lines.last()) {
            Some(record) => match (jget_str(record, "id"@), jget_str(record, "thread_name"@)) {
                (Some(id), Some(title)) => lemma_map_set(before, id, title, id),
                _ => {},
            },
            None => {},
        }
    }
}

pub fn read_session_titles(lines: &Vec<String>) -> (r: Vec<(String, String)>)
    ensures
        pairs_view(r@) == titles_from_lines(lines_view(lines@)),
        keys_unique(pairs_view(r@)),
{
    proof {
        lemma_titles_unique(lines_view(lines@));
    }
    let ghost ls = lines_view(lines@);
    let mut out: Vec<(String, String)> = Vec::new();
    let mut i: usize = 0;
    while i < lines.len()
        invariant
            i <= lines.len(),
            ls == lines_view(lines@),
            pairs_view(out@) == titles_from_lines(ls.take(i as int)),
        decreases lines.len() - i,
    {
        proof {
            let t = ls.take(i + 1);
            assert(t.drop_last() == ls.take(i as int));
            assert(t.last() == lines@[i as int]@);
        }
        if let Some(record) = parse_json(lines[i].as_str()) {
            let id = get_str(&record, "id");
            let title = get_str(&record, "thread_name");
            if let (Some(id), Some(title)) = (id, title) {
                set_name(&mut out, id, title);
            }
        }
        i = i + 1;
    }
    assert(ls.take(lines.len() as int) == ls);
    out
}

/// The workspace labels of an object's members: string members not blank,
/// trimmed, under their normalized paths.
pub open spec fn labels_of(members: Seq<(String, JsonValue)>) -> Seq<(Seq<char>, Seq<char>)>
    decreases members.len(),
{
    if members.len() == 0 {
        Seq::empty()
    } else {
        let before = labels_of(members.drop_last());
        match members.last().1 {
            JsonValue::Str(s) => if trim(s@).len() > 0 {
                map_set(before, normalized_path_spec(members.last().0@), trim(s@))
            } else {
                before
            },
            _ => before,
        }
    }
}

/// Each normalized path has one label.
pub proof fn lemma_labels_unique(members: Seq<(String, JsonValue)>)
    ensures
        keys_unique(labels_of(members)),
    decreases members.len(),
{
    if members.len() > 0 {
        let before = labels_of(members.drop_last());
        lemma_labels_unique(members.drop_last());
        match members.last().1 {
            JsonValue::Str(s) => if trim(s@).len() > 0 {
                let k = normalized_path_spec(members.last().0@);
                lemma_map_set(before, k, trim(s@), k);
            },
            _ => {},
        }
    }
}

/// The workspace labels of `.codex-global-state.json`.
pub open spec fn labels_from_state(text: Seq<char>) -> Seq<(Seq<char>, Seq<char>)> {
    match json_parse(text) {
        Some(record) => match jget(record, "electron-workspace-root-labels"@) {
            Some(JsonValue::Object(m)) => labels_of(m@),
            _ => Seq::empty(),
        },
        None => Seq::empty(),
    }
}

fn labels_from_members(members: &Vec<(String, JsonValue)>) -> (r: Vec<(String, String)>)
    ensures
        pairs_view(r@) == labels_of(members@),
{
    let mut out: Vec<(String, String)> = Vec::new();
    let mut i: usize = 0;
    while i < members.len()
        invariant
            i <= members.len(),
            pairs_view(out@) == labels_of(members@.take(i as int)),
        decreases members.len() - i,
    {
        proof {
            let t = members@.take(i + 1);
            assert(t.drop_last() == members@.take(i as int));
            assert(t.last() == members@[i as int]);
        }
        if let JsonValue::Str(s) = &members[i].1 {
            let cs = chars_of(s.as_str());
            let t = trim_chars(&cs);
            if t.len() > 0 {
                let key = normalize_codex_path(members[i].0.as_str());
                let label = string_from(&t);
                set_name(&mut out, key, label);
            }
        }
        i = i + 1;
    }
    assert(members@.take(members.len() as int) == members@);
    out
}

pub fn read_workspace_labels(text: &str) -> (r: Vec<(String, String)>)
    ensures
        pairs_view(r@) == labels_from_state(text@),
        keys_unique(pairs_view(r@)),
{
    proof {
        match json_parse(text@) {
            Some(record) => match jget(record, "electron-workspace-root-labels"@) {
                Some(JsonValue::Object(m)) => lemma_labels_unique(m@),
                _ => {},
            },
            None => {},
        }
    }
    match parse_json(text) {
        Some(record) => match record.get("electron-workspace-root-labels") {
            Some(JsonValue::Object(m)) => labels_from_members(m),
            _ => Vec::new(),
        },
        None => Vec::new(),
    }
}

/// The names found in the Codex home: titles from the lines of
/// `session_index.jsonl` and labels from the text of
/// `.codex-global-state.json`, where they could be read.
pub fn load_display_name_maps(session_index_lines: &Vec<String>, global_state: Option<&str>) -> (r:
    DisplayNameMaps)
    ensures
        pairs_view(r.session_titles@) == titles_from_lines(lines_view(session_index_lines@)),
        pairs_view(r.workspace_labels@) == match global_state {
            Some(t) => labels_from_state(t@),
            None => Seq::empty(),
        },
        keys_unique(pairs_view(r.session_titles@)),
        keys_unique(pairs_view(r.workspace_labels@)),
{
    let titles = read_session_titles(session_index_lines);
    let labels = match global_state {
        Some(t) => read_workspace_labels(t),
        None => Vec::new(),
    };
    DisplayNameMaps { session_titles: titles, workspace_labels: labels }
}

/// The label of the first event whose working directory has one.
pub open spec fn first_label(s: Seq<TokenEventView>, labels: Seq<(Seq<char>, Seq<char>)>) -> Option<
    Seq<char>,
>
    decreases s.len(),
{
    if s.len() == 0 {
        None
    } else {
        match lookup(labels, normalized_path_spec(s[0].cwd)) {
            Some(l) => Some(l),
            None => first_label(s.drop_first(), labels),
        }
    }
}

/// How a project is named: by the label of its working directory, else by
/// itself.
pub open spec fn project_display_spec(
    project: Seq<char>,
    s: Seq<TokenEventView>,
    labels: Seq<(Seq<char>, Seq<char>)>,
) -> Seq<char> {
    match first_label(s, labels) {
        Some(l) => l,
        None => project,
    }
}

pub fn project_display_name(project: &str, events: &Vec<TokenEvent>, names: &DisplayNameMaps) -> (r:
    String)
    ensures
        r@ == project_display_spec(
            project@,
            token_events_view(events@),
            pairs_view(names.workspace_labels@),
        ),
{
    let ghost s = token_events_view(events@);
    let ghost labels = pairs_view(names.workspace_labels@);
    let mut i: usize = 0;
    assert(s.skip(0) == s);
    while i < events.len()
        invariant
            i <= events.len(),
            s == token_events_view(events@),
            labels == pairs_view(names.workspace_labels@),
            first_label(s, labels) == first_label(s.skip(i as int), labels),
        decreases events.len() - i,
    {
        assert(s.skip(i as int)[0] == token_event_view(events@[i as int]));
        assert(s.skip(i as int).drop_first() == s.skip(i + 1));
        let key = normalize_codex_path(events[i].cwd.as_str());
        if let Some(l) = lookup_name(&names.workspace_labels, key.as_str()) {
            return l;
        }
        i = i + 1;
    }
    let v = chars_of(project);
    string_from(&v)
}

/// The first working directory of a group that is not empty.
pub open spec fn first_cwd(s: Seq<TokenEventView>) -> Option<Seq<char>>
    decreases s.len(),
{
    if s.len() == 0 {
        None
    } else if s[0].cwd.len() > 0 {
        Some(s[0].cwd)
    } else {
        first_cwd(s.drop_first())
    }
}

/// The tooltip of a project row: its name, the project where the name
/// differs, and its working directory.
pub open spec fn project_tooltip_spec(display: Seq<char>, project: Seq<char>, s: Seq<TokenEventView>) -> Seq<
    char,
> {
    match first_cwd(s) {
        Some(cwd) => if display != project {
            display + "\n项目："@ + project + "\n工作目录："@ + cwd
        } else {
            display + "\n工作目录："@ + cwd
        },
        None => display,
    }
}

pub fn project_tooltip(display_name: &str, project: &str, events: &Vec<TokenEvent>) -> (r: String)
    ensures
        r@ == project_tooltip_spec(display_name@, project@, token_events_view(events@)),
{
    let ghost s = token_events_view(events@);
    let mut i: usize = 0;
    assert(s.skip(0) == s);
    while i < events.len()
        invariant
            i <= events.len(),
            s == token_events_view(events@),
            first_cwd(s) == first_cwd(s.skip(i as int)),
        decreases events.len() - i,
    {
        assert(s.skip(i as int)[0] == token_event_view(events@[i as int]));
        assert(s.skip(i as int).drop_first() == s.skip(i + 1));
        let cwd = chars_of(events[i].cwd.as_str());
        if cwd.len() > 0 {
            let mut v = chars_of(display_name);
            if !str_eq(display_name, project) {
                extend_str(&mut v, "\n项目：");
                extend_str(&mut v, project);
            }
            extend_str(&mut v, "\n工作目录：");
            extend_str(&mut v, events[i].cwd.as_str());
            return string_from(&v);
        }
        i = i + 1;
    }
    let v = chars_of(display_name);
    string_from(&v)
}

} // verus!
