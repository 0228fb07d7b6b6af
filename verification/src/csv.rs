//! CSV exports: each cell quoted where it must be, each row a line.
use vstd::prelude::*;
use crate::report::{
    join, join_strings, reason_of, strings_view, token_event_view, token_events_view, TokenEvent,
    TokenEventView,
};
use crate::status::{classify_status_reason, non_cached_tokens, saturating_diff};
use crate::summary::{summary_row_view, summary_rows_view, SummaryRowDto, SummaryRowView};
use crate::text::{
    chars_of, contains_char, i64_string, int_text, nat_text, string_from, u64_string,
    usize_string,
};

verus! {

/// Whether a cell must be quoted: it holds a comma, quote or line break.
pub open spec fn needs_quotes(v: Seq<char>) -> bool {
    v.contains(',') || v.contains('"') || v.contains('\n') || v.contains('\r')
}

/// `"` doubled.
pub open spec fn doubled_quotes(v: Seq<char>) -> Seq<char>
    decreases v.len(),
{
    if v.len() == 0 {
        Seq::empty()
    } else if v.last() == '"' {
        doubled_quotes(v.drop_last()).push('"').push('"')
    } else {
        doubled_quotes(v.drop_last()).push(v.last())
    }
}

/// A CSV cell: quoted, with quotes doubled, where it must be.
pub open spec fn csv_cell(v: Seq<char>) -> Seq<char> {
    if needs_quotes(v) {
        seq!['"'] + doubled_quotes(v) + seq!['"']
    } else {
        v
    }
}

pub fn escape_csv_cell(value: &str) -> (r: String)
    ensures
        r@ == csv_cell(value@),
{
    let v = chars_of(value);
    if contains_char(&v, ',') || contains_char(&v, '"') || contains_char(&v, '\n')
        || contains_char(&v, '\r') {
        let mut out: Vec<char> = Vec::new();
        out.push('"');
        let mut i: usize = 0;
        while i < v.len()
            invariant
                i <= v.len(),
                out@ == seq!['"'] + doubled_quotes(v@.take(i as int)),
            decreases v.len() - i,
        {
            assert(v@.take(i + 1).drop_last() == v@.take(i as int));
            assert(v@.take(i + 1).last() == v@[i as int]);
            if v[i] == '"' {
                out.push('"');
                out.push('"');
            } else {
                out.push(v[i]);
            }
            i = i + 1;
        }
        assert(v@.take(v.len() as int) == v@);
        out.push('"');
        string_from(&out)
    } else {
        string_from(&v)
    }
}

/// Reading the inside of a quoted cell: each `""` stands for one `"`.
pub open spec fn read_quoted(x: Seq<char>) -> Seq<char>
    decreases x.len(),
{
    if x.len() == 0 {
        Seq::empty()
    } else if x.len() >= 2 && x.last() == '"' && x[x.len() - 2] == '"' {
        read_quoted(x.take(x.len() - 2)).push('"')
    } else {
        read_quoted(x.drop_last()).push(x.last())
    }
}

/// Reading a cell: the inside of a quoted one, a bare one as it stands.
pub open spec fn read_cell(c: Seq<char>) -> Seq<char> {
    if c.len() >= 2 && c[0] == '"' && c.last() == '"' {
        read_quoted(c.subrange(1, c.len() - 1))
    } else {
        c
    }
}

proof fn lemma_read_doubled(v: Seq<char>)
    ensures
        read_quoted(doubled_quotes(v)) == v,
        !v.contains('"') ==> doubled_quotes(v) == v,
    decreases v.len(),
{
    if v.len() > 0 {
        lemma_read_doubled(v.drop_last());
        let d = doubled_quotes(v.drop_last());
        if v.last() == '"' {
            let x = d.push('"').push('"');
            assert(x.take(x.len() - 2) == d);
        } else {
            let x = d.push(v.last());
            assert(x.drop_last() == d);
            if d.len() >= 1 {
                assert(x[x.len() - 2] == d.last());
            }
            if !v.contains('"') {
                assert(!v.drop_last().contains('"')) by {
                    if v.drop_last().contains('"') {
                        let k = choose|k: int| 0 <= k < v.drop_last().len() && v.drop_last()[k] == '"';
                        assert(v[k] == '"');
                    }
                }
                assert(v == v.drop_last().push(v.last()));
            }
        }
    }
}

/// What escaping a cell does: a value holding a comma, a quote or a line
/// break comes out between quotes, so that its commas and line breaks do
/// not split the row; any other value comes out as it is; and reading the
/// cell back gives the value.
pub proof fn lemma_csv_cell_reads_back(v: Seq<char>)
    ensures
        (v.contains(',') || v.contains('"') || v.contains('\n') || v.contains('\r')) ==> (
        csv_cell(v).len() >= 2 && csv_cell(v)[0] == '"' && csv_cell(v).last() == '"'),
        !(v.contains(',') || v.contains('"') || v.contains('\n') || v.contains('\r'))
            ==> csv_cell(v) == v,
        read_cell(csv_cell(v)) == v,
{
    lemma_read_doubled(v);
    let c = csv_cell(v);
    if needs_quotes(v) {
        let d = doubled_quotes(v);
        assert(c.subrange(1, c.len() - 1) == d);
    } else {
        if v.len() >= 2 {
            assert(v.contains(v[0]));
        }
    }
}

pub open spec fn csv_cells(fields: Seq<Seq<char>>) -> Seq<Seq<char>> {
    fields.map_values(|f: Seq<char>| csv_cell(f))
}

/// A CSV line: the cells joined by commas.
pub open spec fn csv_line(fields: Seq<Seq<char>>) -> Seq<char> {
    join(csv_cells(fields), ","@)
}

/// The text of one CSV row (without its line end).
pub fn csv_row(fields: &Vec<String>) -> (r: String)
    ensures
        r@ == csv_line(strings_view(fields@)),
{
    let ghost f = strings_view(fields@);
    let mut cells: Vec<String> = Vec::new();
    let mut i: usize = 0;
    while i < fields.len()
        invariant
            i <= fields.len(),
            f == strings_view(fields@),
            strings_view(cells@) == csv_cells(f.take(i as int)),
        decreases fields.len() - i,
    {
        let c = escape_csv_cell(fields[i].as_str());
        let ghost before = cells@;
        cells.push(c);
        assert(strings_view(cells@) == strings_view(before).push(c@));
        assert(csv_cells(f.take(i + 1)) == csv_cells(f.take(i as int)).push(csv_cell(f[i as int])));
        i = i + 1;
    }
    assert(f.take(fields.len() as int) == f);
    join_strings(&cells, ",")
}

/// The header of the detail export.
pub open spec fn detail_header(include_messages: bool) -> Seq<Seq<char>> {
    seq![
        "本地时间"@,
        "UTC时间"@,
        "日期"@,
        "项目"@,
        "会话ID"@,
        "Turn ID"@,
        "Token明细序号"@,
        "工作目录"@,
        if include_messages {
            "用户输入"@
        } else {
            "用户输入预览"@
        },
        "本次输入Token"@,
        "本次缓存输入Token"@,
        "本次非缓存输入Token"@,
        "本次输出Token"@,
        "本次推理输出Token"@,
        "本次总Token"@,
        "状态"@,
        "状态原因"@,
    ]
}

/// The cells of one count in the detail export.
pub open spec fn detail_fields(e: TokenEventView, include_messages: bool) -> Seq<Seq<char>> {
    seq![
        e.local_time,
        e.utc_time,
        e.date,
        e.project,
        e.session_id,
        e.turn_id,
        int_text(e.token_event_index as int),
        e.cwd,
        if include_messages {
            e.user_message
        } else {
            e.user_message_preview
        },
        int_text(e.input as int),
        int_text(e.cached_input as int),
        int_text(saturating_diff(e.input, e.cached_input) as int),
        int_text(e.output as int),
        int_text(e.reasoning_output as int),
        int_text(e.total as int),
        e.status,
        reason_of(e),
    ]
}

/// The lines of the detail export: its header, then one line per count.
pub open spec fn detail_export_spec(s: Seq<TokenEventView>, include_messages: bool) -> Seq<Seq<char>> {
    seq![csv_line(detail_header(include_messages))] + s.map_values(
        |e: TokenEventView| csv_line(detail_fields(e, include_messages)),
    )
}

fn strs(v: Vec<&str>) -> (r: Vec<String>)
    ensures
        strings_view(r@) == v@.map_values(|x: &str| x@),
{
    let mut out: Vec<String> = Vec::new();
    let mut i: usize = 0;
    while i < v.len()
        invariant
            i <= v.len(),
            strings_view(out@) == v@.take(i as int).map_values(|x: &str| x@),
        decreases v.len() - i,
    {
        out.push(v[i].to_string());
        assert(v@.take(i + 1).map_values(|x: &str| x@) == v@.take(i as int).map_values(
            |x: &str| x@,
        ).push(v@[i as int]@));
        i = i + 1;
    }
    assert(v@.take(v.len() as int) == v@);
    out
}

fn detail_header_row(include_messages: bool) -> (r: Vec<String>)
    ensures
        strings_view(r@) == detail_header(include_messages),
{
    let message = if include_messages {
        "用户输入"
    } else {
        "用户输入预览"
    };
    let v = vec![
        "本地时间",
        "UTC时间",
        "日期",
        "项目",
        "会话ID",
        "Turn ID",
        "Token明细序号",
        "工作目录",
        message,
        "本次输入Token",
        "本次缓存输入Token",
        "本次非缓存输入Token",
        "本次输出Token",
        "本次推理输出Token",
        "本次总Token",
        "状态",
        "状态原因",
    ];
    let r = strs(v);
    assert(strings_view(r@) == detail_header(include_messages));
    r
}

fn detail_row_fields(e: &TokenEvent, include_messages: bool) -> (r: Vec<String>)
    ensures
        strings_view(r@) == detail_fields(token_event_view(*e), include_messages),
{
    let message = if include_messages {
        crate::json::copy_string(&e.user_message)
    } else {
        crate::json::copy_string(&e.user_message_preview)
    };
    let mut r: Vec<String> = Vec::new();
    r.push(crate::json::copy_string(&e.local_time));
    r.push(crate::json::copy_string(&e.utc_time));
    r.push(crate::json::copy_string(&e.date));
    r.push(crate::json::copy_string(&e.project));
    r.push(crate::json::copy_string(&e.session_id));
    r.push(crate::json::copy_string(&e.turn_id));
    r.push(i64_string(e.token_event_index));
    r.push(crate::json::copy_string(&e.cwd));
    r.push(message);
    r.push(i64_string(e.last_input_tokens));
    r.push(i64_string(e.last_cached_input_tokens));
    r.push(i64_string(non_cached_tokens(e.last_input_tokens, e.last_cached_input_tokens)));
    r.push(i64_string(e.last_output_tokens));
    r.push(i64_string(e.last_reasoning_output_tokens));
    r.push(i64_string(e.last_total_tokens));
    r.push(crate::json::copy_string(&e.status));
    r.push(
        classify_status_reason(
            e.last_total_tokens,
            e.last_output_tokens,
            e.last_reasoning_output_tokens,
            &e.primary_used_percent,
        ),
    );
    assert(strings_view(r@) == detail_fields(token_event_view(*e), include_messages));
    r
}

/// The lines of the detail export of the counts, with the full user
/// messages or their previews.
pub fn detail_export_lines(events: &Vec<TokenEvent>, include_messages: bool) -> (r: Vec<String>)
    ensures
        strings_view(r@) == detail_export_spec(token_events_view(events@), include_messages),
{
    let ghost s = token_events_view(events@);
    let ghost f = |e: TokenEventView| csv_line(detail_fields(e, include_messages));
    let mut lines: Vec<String> = Vec::new();
    lines.push(csv_row(&detail_header_row(include_messages)));
    let mut i: usize = 0;
    while i < events.len()
        invariant
            i <= events.len(),
            s == token_events_view(events@),
            f == (|e: TokenEventView| csv_line(detail_fields(e, include_messages))),
            strings_view(lines@) == seq![csv_line(detail_header(include_messages))]
                + s.take(i as int).map_values(f),
        decreases events.len() - i,
    {
        let line = csv_row(&detail_row_fields(&events[i], include_messages));
        let ghost before = lines@;
        lines.push(line);
        assert(strings_view(lines@) == strings_view(before).push(line@));
        assert(s[i as int] == token_event_view(events@[i as int]));
        assert(s.take(i + 1).map_values(f) == s.take(i as int).map_values(f).push(f(s[i as int])));
        i = i + 1;
    }
    assert(s.take(events.len() as int) == s);
    lines
}

/// The header of the summary export.
pub open spec fn summary_header() -> Seq<Seq<char>> {
    seq![
        "层级"@,
        "名称"@,
        "项目"@,
        "会话ID"@,
        "会话数"@,
        "消息数"@,
        "输入Token"@,
        "缓存输入Token"@,
        "输出Token"@,
        "推理输出Token"@,
        "总Token"@,
        "状态"@,
        "状态原因"@,
    ]
}

/// The cells of one summary row in the export.
pub open spec fn summary_fields(r: SummaryRowView) -> Seq<Seq<char>> {
    seq![
        nat_text(r.level as nat),
        r.name,
        r.project,
        r.session_id,
        nat_text(r.session_count),
        nat_text(r.message_count),
        int_text(r.input_tokens as int),
        int_text(r.cached_input_tokens as int),
        int_text(r.output_tokens as int),
        int_text(r.reasoning_output_tokens as int),
        int_text(r.total_tokens as int),
        r.status,
        r.status_reason,
    ]
}

/// The lines of the summary export: its header, then one line per row.
pub open spec fn summary_export_spec(rows: Seq<SummaryRowView>) -> Seq<Seq<char>> {
    seq![csv_line(summary_header())] + rows.map_values(
        |r: SummaryRowView| csv_line(summary_fields(r)),
    )
}

fn summary_row_fields(row: &SummaryRowDto) -> (r: Vec<String>)
    ensures
        strings_view(r@) == summary_fields(summary_row_view(*row)),
{
    let mut r: Vec<String> = Vec::new();
    r.push(u64_string(row.level as u64));
    r.push(crate::json::copy_string(&row.name));
    r.push(crate::json::copy_string(&row.project));
    r.push(crate::json::copy_string(&row.session_id));
    r.push(usize_string(row.session_count));
    r.push(usize_string(row.message_count));
    r.push(i64_string(row.input_tokens));
    r.push(i64_string(row.cached_input_tokens));
    r.push(i64_string(row.output_tokens));
    r.push(i64_string(row.reasoning_output_tokens));
    r.push(i64_string(row.total_tokens));
    r.push(crate::json::copy_string(&row.status));
    r.push(crate::json::copy_string(&row.status_reason));
    assert(strings_view(r@) == summary_fields(summary_row_view(*row)));
    r
}

pub fn summary_export_lines(rows: &Vec<SummaryRowDto>) -> (r: Vec<String>)
    ensures
        strings_view(r@) == summary_export_spec(summary_rows_view(rows@)),
{
    let ghost s = summary_rows_view(rows@);
    let ghost f = |r: SummaryRowView| csv_line(summary_fields(r));
    let header = strs(
        vec![
            "层级",
            "名称",
            "项目",
            "会话ID",
            "会话数",
            "消息数",
            "输入Token",
            "缓存输入Token",
            "输出Token",
            "推理输出Token",
            "总Token",
            "状态",
            "状态原因",
        ],
    );
    assert(strings_view(header@) == summary_header());
    let mut lines: Vec<String> = Vec::new();
    lines.push(csv_row(&header));
    let mut i: usize = 0;
    while i < rows.len()
        invariant
            i <= rows.len(),
            s == summary_rows_view(rows@),
            f == (|r: SummaryRowView| csv_line(summary_fields(r))),
            strings_view(lines@) == seq![csv_line(summary_header())] + s.take(i as int).map_values(
                f,
            ),
        decreases rows.len() - i,
    {
        let line = csv_row(&summary_row_fields(&rows[i]));
        let ghost before = lines@;
        lines.push(line);
        assert(strings_view(lines@) == strings_view(before).push(line@));
        assert(s[i as int] == summary_row_view(rows@[i as int]));
        assert(s.take(i + 1).map_values(f) == s.take(i as int).map_values(f).push(f(s[i as int])));
        i = i + 1;
    }
    assert(s.take(rows.len() as int) == s);
    lines
}

} // verus!
