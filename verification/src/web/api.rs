//! Renderings and decisions behind the console's API: block-list exports in
//! CSV and Markdown, escaping, recommendations and abuse-report texts.
use vstd::prelude::*;
use crate::elasticsearch::queries::{texts, lemma_texts_push};
use crate::k8s::blocker::IpFamily;
use crate::json::{Json, JsonValue, json_text, items_view, lemma_items_view};
use crate::db::queries::{ActionDb, AllowlistIp, IncidentDb};
use crate::email::AbuseReportEmail;
use crate::whois::{AbuseContact, WhoisInfo};
use crate::text::{contains, unicode_lower, to_lowercase, str_contains, decimal, u64_text, truncated, truncate_chars, collapse_ws, collapse_whitespace, occurrence_from,
    lemma_occurrence_from, find_after, trim_end, trim_end_str, bool_text, decimal_int, flat_map_chars, join_seq, join_strings, has_suffix, trim,
    lower_ascii_str, bool_string, i64_text, own, push_str, push_char, chars_of, string_of_range, str_eq,
    trim_str, to_ascii_lowercase, contains_char, ends_with};

verus! {

/// One row of the block-list export.
#[derive(Debug, Clone)]
pub struct BlockListEntry {
    pub ip: String,
    pub cidr: String,
    pub source: String,
    pub cluster_blocked: Option<bool>,
    pub block_applied: bool,
    pub incident_id: Option<String>,
    pub incident_status: Option<String>,
    pub failure_count: Option<i64>,
    pub detected_at: Option<String>,
    pub block_action_status: Option<String>,
    pub report_sent_at: Option<String>,
    pub evidence_summary: String,
}

/// Block-list export formats.
#[derive(Debug, Clone, Copy, PartialEq, Eq, Structural)]
pub enum BlockListExportFormat {
    Csv,
    Markdown,
    Xlsx,
}

/// The export format a requested name selects, ignoring surrounding space and ASCII case.
pub open spec fn export_format_named(s: Seq<char>) -> Option<BlockListExportFormat> {
    let l = lower_ascii_str(trim(s));
    if l == "csv"@ {
        Some(BlockListExportFormat::Csv)
    } else if l == "md"@ || l == "markdown"@ {
        Some(BlockListExportFormat::Markdown)
    } else if l == "xlsx"@ {
        Some(BlockListExportFormat::Xlsx)
    } else {
        None
    }
}

impl BlockListExportFormat {
    /// The format named `value`: `csv`, `md`/`markdown` or `xlsx`.
    pub fn parse(value: &str) -> (r: Option<BlockListExportFormat>)
        ensures
            r == export_format_named(value@),
    {
        let t = trim_str(value);
        let l = to_ascii_lowercase(t.as_str());
        let l = l.as_str();
        if str_eq(l, "csv") {
            Some(BlockListExportFormat::Csv)
        } else if str_eq(l, "md") || str_eq(l, "markdown") {
            Some(BlockListExportFormat::Markdown)
        } else if str_eq(l, "xlsx") {
            Some(BlockListExportFormat::Xlsx)
        } else {
            None
        }
    }

    /// The file extension.
    pub fn extension(&self) -> (r: &'static str)
        ensures
            r@ == (match self {
                BlockListExportFormat::Csv => "csv"@,
                BlockListExportFormat::Markdown => "md"@,
                BlockListExportFormat::Xlsx => "xlsx"@,
            }),
    {
        match self {
            BlockListExportFormat::Csv => "csv",
            BlockListExportFormat::Markdown => "md",
            BlockListExportFormat::Xlsx => "xlsx",
        }
    }

    /// The HTTP content type.
    pub fn content_type(&self) -> (r: &'static str)
        ensures
            r@ == (match self {
                BlockListExportFormat::Csv => "text/csv; charset=utf-8"@,
                BlockListExportFormat::Markdown => "text/markdown; charset=utf-8"@,
                BlockListExportFormat::Xlsx => "application/vnd.openxmlformats-officedocument.spreadsheetml.sheet"@,
            }),
    {
        match self {
            BlockListExportFormat::Csv => "text/csv; charset=utf-8",
            BlockListExportFormat::Markdown => "text/markdown; charset=utf-8",
            BlockListExportFormat::Xlsx => "application/vnd.openxmlformats-officedocument.spreadsheetml.sheet",
        }
    }
}

/// A double quote doubled, any other character kept.
pub open spec fn csv_quote_char(c: char) -> Seq<char> {
    if c == '"' {
        seq!['"', '"']
    } else {
        seq![c]
    }
}

/// A CSV field: quoted, with inner quotes doubled, when it holds a comma,
/// quote or line break; as it is otherwise.
pub open spec fn csv_field(s: Seq<char>) -> Seq<char> {
    if s.contains(',') || s.contains('"') || s.contains('\n') || s.contains('\r') {
        seq!['"'] + flat_map_chars(s, |c: char| csv_quote_char(c)) + seq!['"']
    } else {
        s
    }
}

/// Escapes one CSV field.
pub fn csv_escape(value: &str) -> (r: String)
    ensures
        r@ == csv_field(value@),
{
    if !(contains_char(value, ',') || contains_char(value, '"') || contains_char(value, '\n') || contains_char(
        value,
        '\r',
    )) {
        return own(value);
    }
    let v = chars_of(value);
    let mut r = String::new();
    push_char(&mut r, '"');
    let mut i: usize = 0;
    while i < v.len()
        invariant
            v@ == value@,
            i <= v.len(),
            r@ == seq!['"'] + flat_map_chars(v@.subrange(0, i as int), |c: char| csv_quote_char(c)),
        decreases v.len() - i,
    {
        proof {
            assert(v@.subrange(0, i + 1).drop_last() =~= v@.subrange(0, i as int));
        }
        if v[i] == '"' {
            push_char(&mut r, '"');
            push_char(&mut r, '"');
        } else {
            push_char(&mut r, v[i]);
        }
        i = i + 1;
        assert(r@ =~= seq!['"'] + flat_map_chars(v@.subrange(0, i as int), |c: char| csv_quote_char(c)));
    }
    push_char(&mut r, '"');
    assert(v@.subrange(0, v.len() as int) =~= v@);
    r
}

/// How Markdown table cells write a character: backslash and pipe escaped,
/// line feeds as `<br>`, carriage returns dropped.
pub open spec fn markdown_char(c: char) -> Seq<char> {
    if c == '\\' {
        seq!['\\', '\\']
    } else if c == '|' {
        seq!['\\', '|']
    } else if c == '\n' {
        seq!['<', 'b', 'r', '>']
    } else if c == '\r' {
        seq![]
    } else {
        seq![c]
    }
}

/// A Markdown table cell's text.
pub open spec fn markdown_text(s: Seq<char>) -> Seq<char> {
    flat_map_chars(s, |c: char| markdown_char(c))
}

/// Escapes text for a Markdown table cell.
pub fn markdown_escape(value: &str) -> (r: String)
    ensures
        r@ == markdown_text(value@),
{
    let v = chars_of(value);
    let mut r = String::new();
    let mut i: usize = 0;
    while i < v.len()
        invariant
            v@ == value@,
            i <= v.len(),
            r@ == markdown_text(v@.subrange(0, i as int)),
        decreases v.len() - i,
    {
        proof {
            assert(v@.subrange(0, i + 1).drop_last() =~= v@.subrange(0, i as int));
        }
        let c = v[i];
        if c == '\\' {
            push_str(&mut r, "\\\\");
            proof { reveal_strlit("\\\\"); }
        } else if c == '|' {
            push_str(&mut r, "\\|");
            proof { reveal_strlit("\\|"); }
        } else if c == '\n' {
            push_str(&mut r, "<br>");
            proof { reveal_strlit("<br>"); }
        } else if c == '\r' {
        } else {
            push_char(&mut r, c);
        }
        i = i + 1;
        assert(r@ =~= markdown_text(v@.subrange(0, i as int)));
    }
    assert(v@.subrange(0, v.len() as int) =~= v@);
    r
}

/// How HTML writes a character: `& < > " '` as entities.
pub open spec fn html_char(c: char) -> Seq<char> {
    if c == '&' {
        "&amp;"@
    } else if c == '<' {
        "&lt;"@
    } else if c == '>' {
        "&gt;"@
    } else if c == '"' {
        "&quot;"@
    } else if c == '\'' {
        "&#39;"@
    } else {
        seq![c]
    }
}

/// Text escaped for HTML.
pub open spec fn html_text(s: Seq<char>) -> Seq<char> {
    flat_map_chars(s, |c: char| html_char(c))
}

/// Escapes text for HTML.
pub fn html_escape(value: &str) -> (r: String)
    ensures
        r@ == html_text(value@),
{
    let v = chars_of(value);
    let mut r = String::new();
    let mut i: usize = 0;
    while i < v.len()
        invariant
            v@ == value@,
            i <= v.len(),
            r@ == html_text(v@.subrange(0, i as int)),
        decreases v.len() - i,
    {
        proof {
            assert(v@.subrange(0, i + 1).drop_last() =~= v@.subrange(0, i as int));
        }
        let c = v[i];
        if c == '&' {
            push_str(&mut r, "&amp;");
        } else if c == '<' {
            push_str(&mut r, "&lt;");
        } else if c == '>' {
            push_str(&mut r, "&gt;");
        } else if c == '"' {
            push_str(&mut r, "&quot;");
        } else if c == '\'' {
            push_str(&mut r, "&#39;");
        } else {
            push_char(&mut r, c);
        }
        i = i + 1;
        assert(r@ =~= html_text(v@.subrange(0, i as int)));
    }
    assert(v@.subrange(0, v.len() as int) =~= v@);
    r
}

/// The column names of the block-list export.
pub open spec fn block_list_columns() -> Seq<Seq<char>> {
    seq![
        "ip"@,
        "cidr"@,
        "source"@,
        "cluster_blocked"@,
        "block_applied"@,
        "incident_id"@,
        "incident_status"@,
        "failure_count"@,
        "detected_at"@,
        "block_action_status"@,
        "report_sent_at"@,
        "evidence_summary"@,
    ]
}

/// The text of an optional string; empty when absent.
pub open spec fn opt_text(o: Option<String>) -> Seq<char> {
    match o {
        Some(s) => s@,
        None => seq![],
    }
}

/// The text of an optional flag; empty when absent.
pub open spec fn opt_bool_text(o: Option<bool>) -> Seq<char> {
    match o {
        Some(b) => bool_text(b),
        None => seq![],
    }
}

/// The export fields of an entry, in column order.
pub open spec fn block_list_fields(e: BlockListEntry) -> Seq<Seq<char>> {
    seq![
        e.ip@,
        e.cidr@,
        e.source@,
        opt_bool_text(e.cluster_blocked),
        bool_text(e.block_applied),
        opt_text(e.incident_id),
        opt_text(e.incident_status),
        match e.failure_count {
            Some(n) => decimal_int(n as int),
            None => seq![],
        },
        opt_text(e.detected_at),
        opt_text(e.block_action_status),
        opt_text(e.report_sent_at),
        e.evidence_summary@,
    ]
}

/// Each exported field stands under its own column name: in every row, the
/// field at the position of a column name is the entry's value of that name.
pub proof fn law_block_list_fields_under_headers(e: BlockListEntry, j: int)
    requires
        0 <= j < 12,
    ensures
        block_list_columns().len() == 12,
        block_list_fields(e).len() == 12,
        block_list_columns()[j] == "ip"@ ==> block_list_fields(e)[j] == e.ip@,
        block_list_columns()[j] == "cidr"@ ==> block_list_fields(e)[j] == e.cidr@,
        block_list_columns()[j] == "source"@ ==> block_list_fields(e)[j] == e.source@,
        block_list_columns()[j] == "cluster_blocked"@ ==> block_list_fields(e)[j] == opt_bool_text(e.cluster_blocked),
        block_list_columns()[j] == "block_applied"@ ==> block_list_fields(e)[j] == bool_text(e.block_applied),
        block_list_columns()[j] == "incident_id"@ ==> block_list_fields(e)[j] == opt_text(e.incident_id),
        block_list_columns()[j] == "incident_status"@ ==> block_list_fields(e)[j] == opt_text(e.incident_status),
        block_list_columns()[j] == "failure_count"@ ==> block_list_fields(e)[j] == (match e.failure_count {
            Some(n) => decimal_int(n as int),
            None => seq![],
        }),
        block_list_columns()[j] == "detected_at"@ ==> block_list_fields(e)[j] == opt_text(e.detected_at),
        block_list_columns()[j] == "block_action_status"@ ==> block_list_fields(e)[j] == opt_text(
            e.block_action_status,
        ),
        block_list_columns()[j] == "report_sent_at"@ ==> block_list_fields(e)[j] == opt_text(e.report_sent_at),
        block_list_columns()[j] == "evidence_summary"@ ==> block_list_fields(e)[j] == e.evidence_summary@,
{
    reveal_strlit("ip");
    reveal_strlit("cidr");
    reveal_strlit("source");
    reveal_strlit("cluster_blocked");
    reveal_strlit("block_applied");
    reveal_strlit("incident_id");
    reveal_strlit("incident_status");
    reveal_strlit("failure_count");
    reveal_strlit("detected_at");
    reveal_strlit("block_action_status");
    reveal_strlit("report_sent_at");
    reveal_strlit("evidence_summary");
    assert("cluster_blocked"@[0] != "incident_status"@[0]);
    assert("block_applied"@[0] != "failure_count"@[0]);
    assert("incident_id"@[0] != "detected_at"@[0]);
    let names = seq![
        "ip"@,
        "cidr"@,
        "source"@,
        "cluster_blocked"@,
        "block_applied"@,
        "incident_id"@,
        "incident_status"@,
        "failure_count"@,
        "detected_at"@,
        "block_action_status"@,
        "report_sent_at"@,
        "evidence_summary"@,
    ];
    assert(block_list_columns() == names);
    assert(names[0].len() == 2 && names[1].len() == 4 && names[2].len() == 6 && names[3].len() == 15);
    assert(names[4].len() == 13 && names[5].len() == 11 && names[6].len() == 15 && names[7].len() == 13);
    assert(names[8].len() == 11 && names[9].len() == 19 && names[10].len() == 14 && names[11].len() == 16);
    assert forall|a: int, b: int| 0 <= a < 12 && 0 <= b < 12 && a != b implies names[a] != names[b] by {
        if names[a].len() == names[b].len() {
            assert(names[a][0] != names[b][0]);
        }
    }
}

/// The block-list column names.
pub fn block_list_headers() -> (r: Vec<String>)
    ensures
        texts(r@) == block_list_columns(),
{
    let mut r: Vec<String> = Vec::new();
    r.push(own("ip"));
    r.push(own("cidr"));
    r.push(own("source"));
    r.push(own("cluster_blocked"));
    r.push(own("block_applied"));
    r.push(own("incident_id"));
    r.push(own("incident_status"));
    r.push(own("failure_count"));
    r.push(own("detected_at"));
    r.push(own("block_action_status"));
    r.push(own("report_sent_at"));
    r.push(own("evidence_summary"));
    assert(texts(r@) =~= block_list_columns());
    r
}

/// `"true"`, `"false"`, or empty for an absent flag.
pub fn optional_bool(value: Option<bool>) -> (r: String)
    ensures
        r@ == opt_bool_text(value),
{
    match value {
        Some(b) => bool_string(b),
        None => String::new(),
    }
}

fn opt_string(o: &Option<String>) -> (r: String)
    ensures
        r@ == opt_text(*o),
{
    match o {
        Some(s) => s.clone(),
        None => String::new(),
    }
}

/// The export fields of an entry, in column order.
pub fn block_list_row(entry: &BlockListEntry) -> (r: Vec<String>)
    ensures
        texts(r@) == block_list_fields(*entry),
{
    let mut r: Vec<String> = Vec::new();
    r.push(entry.ip.clone());
    r.push(entry.cidr.clone());
    r.push(entry.source.clone());
    r.push(optional_bool(entry.cluster_blocked));
    r.push(bool_string(entry.block_applied));
    r.push(opt_string(&entry.incident_id));
    r.push(opt_string(&entry.incident_status));
    r.push(
        match entry.failure_count {
            Some(n) => i64_text(n),
            None => String::new(),
        },
    );
    r.push(opt_string(&entry.detected_at));
    r.push(opt_string(&entry.block_action_status));
    r.push(opt_string(&entry.report_sent_at));
    r.push(entry.evidence_summary.clone());
    assert(texts(r@) =~= block_list_fields(*entry));
    r
}

/// Each field escaped for CSV.
pub open spec fn csv_fields(fields: Seq<Seq<char>>) -> Seq<Seq<char>> {
    fields.map_values(|f: Seq<char>| csv_field(f))
}

/// A CSV line: the fields escaped and joined with commas.
pub open spec fn csv_line(fields: Seq<Seq<char>>) -> Seq<char> {
    join_seq(csv_fields(fields), ","@)
}

/// The CSV lines of the first `n` entries, each ended by a line feed.
pub open spec fn csv_rows(entries: Seq<BlockListEntry>, n: int) -> Seq<char>
    decreases n,
{
    if n <= 0 || n > entries.len() {
        seq![]
    } else {
        csv_rows(entries, n - 1) + csv_line(block_list_fields(entries[n - 1])) + seq!['\n']
    }
}

/// The CSV document of a block list: a header line, then one line per entry.
pub open spec fn block_list_csv(entries: Seq<BlockListEntry>) -> Seq<char> {
    csv_line(block_list_columns()) + seq!['\n'] + csv_rows(entries, entries.len() as int)
}

fn csv_line_of(fields: &Vec<String>) -> (r: String)
    ensures
        r@ == csv_line(texts(fields@)),
{
    let mut escaped: Vec<String> = Vec::new();
    let mut i: usize = 0;
    while i < fields.len()
        invariant
            i <= fields.len(),
            texts(escaped@) == csv_fields(texts(fields@).take(i as int)),
        decreases fields.len() - i,
    {
        let ghost before = escaped@;
        let e = csv_escape(fields[i].as_str());
        escaped.push(e);
        proof {
            lemma_texts_push(before, e);
            let t = texts(fields@);
            assert(t[i as int] == fields@[i as int]@);
            assert(t.take(i + 1) =~= t.take(i as int).push(t[i as int]));
            assert(csv_fields(t.take(i + 1)) =~= csv_fields(t.take(i as int)).push(csv_field(t[i as int])));
        }
        i = i + 1;
    }
    assert(texts(fields@).take(fields.len() as int) =~= texts(fields@));
    proof {
        reveal_strlit(",");
    }
    join_strings(&escaped, ",")
}

/// The block list as CSV.
pub fn render_block_list_csv(entries: &[BlockListEntry]) -> (r: String)
    ensures
        r@ == block_list_csv(entries@),
{
    let headers = block_list_headers();
    let mut out = csv_line_of(&headers);
    push_char(&mut out, '\n');
    let ghost head = out@;
    let mut i: usize = 0;
    while i < entries.len()
        invariant
            i <= entries@.len(),
            head == csv_line(block_list_columns()) + seq!['\n'],
            out@ == head + csv_rows(entries@, i as int),
        decreases entries.len() - i,
    {
        let row = block_list_row(&entries[i]);
        let l = csv_line_of(&row);
        push_str(&mut out, l.as_str());
        push_char(&mut out, '\n');
        i = i + 1;
        assert(out@ =~= head + csv_rows(entries@, i as int));
    }
    out
}

/// Each field escaped for a Markdown cell.
pub open spec fn markdown_cells(fields: Seq<Seq<char>>) -> Seq<Seq<char>> {
    fields.map_values(|f: Seq<char>| markdown_text(f))
}

/// The Markdown cells of a row, escaped and joined by pipes inside pipes.
pub open spec fn markdown_row(fields: Seq<Seq<char>>) -> Seq<char> {
    seq!['|'] + join_seq(markdown_cells(fields), "|"@) + "|\n"@
}

/// `n` header separator cells.
pub open spec fn dash_cells(n: nat) -> Seq<Seq<char>> {
    Seq::new(n, |i: int| "---"@)
}

/// The Markdown rows of the first `n` entries.
pub open spec fn markdown_rows(entries: Seq<BlockListEntry>, n: int) -> Seq<char>
    decreases n,
{
    if n <= 0 || n > entries.len() {
        seq![]
    } else {
        markdown_rows(entries, n - 1) + markdown_row(block_list_fields(entries[n - 1]))
    }
}

/// The Markdown document of a block list generated at `generated`.
pub open spec fn block_list_markdown(entries: Seq<BlockListEntry>, generated: Seq<char>) -> Seq<char> {
    "# DevOps Agent Block List\n\n"@ + "Generated: "@ + generated + "\n\n"@ + markdown_row(block_list_columns())
        + seq!['|'] + join_seq(dash_cells(12), "|"@) + "|\n"@ + markdown_rows(
        entries,
        entries.len() as int,
    )
}

fn markdown_row_of(fields: &Vec<String>) -> (r: String)
    ensures
        r@ == markdown_row(texts(fields@)),
{
    let mut escaped: Vec<String> = Vec::new();
    let mut i: usize = 0;
    while i < fields.len()
        invariant
            i <= fields.len(),
            texts(escaped@) == markdown_cells(texts(fields@).take(i as int)),
        decreases fields.len() - i,
    {
        let ghost before = escaped@;
        let e = markdown_escape(fields[i].as_str());
        escaped.push(e);
        proof {
            lemma_texts_push(before, e);
            let t = texts(fields@);
            assert(t[i as int] == fields@[i as int]@);
            assert(t.take(i + 1) =~= t.take(i as int).push(t[i as int]));
            assert(markdown_cells(t.take(i + 1)) =~= markdown_cells(t.take(i as int)).push(markdown_text(t[i as int])));
        }
        i = i + 1;
    }
    assert(texts(fields@).take(fields.len() as int) =~= texts(fields@));
    let mut r = String::new();
    push_char(&mut r, '|');
    let j = join_strings(&escaped, "|");
    push_str(&mut r, j.as_str());
    push_str(&mut r, "|\n");
    r
}

/// The block list as a Markdown table, stamped with the time `generated`.
pub fn render_block_list_markdown(entries: &[BlockListEntry], generated: &str) -> (r: String)
    ensures
        r@ == block_list_markdown(entries@, generated@),
{
    let mut out = own("# DevOps Agent Block List\n\n");
    push_str(&mut out, "Generated: ");
    push_str(&mut out, generated);
    push_str(&mut out, "\n\n");
    let headers = block_list_headers();
    let h = markdown_row_of(&headers);
    push_str(&mut out, h.as_str());
    let mut dashes: Vec<String> = Vec::new();
    let mut k: usize = 0;
    while k < 12
        invariant
            k <= 12,
            texts(dashes@) == dash_cells(k as nat),
        decreases 12 - k,
    {
        let ghost before = dashes@;
        let d = own("---");
        dashes.push(d);
        proof {
            lemma_texts_push(before, d);
            assert(dash_cells((k + 1) as nat) =~= dash_cells(k as nat).push("---"@));
        }
        k = k + 1;
    }
    push_char(&mut out, '|');
    let d = join_strings(&dashes, "|");
    push_str(&mut out, d.as_str());
    push_str(&mut out, "|\n");
    let ghost head = out@;
    let mut i: usize = 0;
    while i < entries.len()
        invariant
            i <= entries@.len(),
            out@ == head + markdown_rows(entries@, i as int),
        decreases entries.len() - i,
    {
        let row = block_list_row(&entries[i]);
        let l = markdown_row_of(&row);
        push_str(&mut out, l.as_str());
        i = i + 1;
        assert(out@ =~= head + markdown_rows(entries@, i as int));
    }
    assert(out@ =~= block_list_markdown(entries@, generated@));
    out
}

/// The address of a single-address CIDR (`/32` or `/128` removed).
pub open spec fn ip_of_cidr(c: Seq<char>) -> Seq<char> {
    if has_suffix(c, "/32"@) {
        c.subrange(0, c.len() - 3)
    } else if has_suffix(c, "/128"@) {
        c.subrange(0, c.len() - 4)
    } else {
        c
    }
}

/// The address of a single-address CIDR.
pub fn ip_from_cidr(cidr: &str) -> (r: String)
    ensures
        r@ == ip_of_cidr(cidr@),
{
    proof {
        reveal_strlit("/32");
        reveal_strlit("/128");
    }
    let v = chars_of(cidr);
    if ends_with(cidr, "/32") {
        string_of_range(&v, 0, v.len() - 3)
    } else if ends_with(cidr, "/128") {
        string_of_range(&v, 0, v.len() - 4)
    } else {
        own(cidr)
    }
}

/// The CIDR an address is exported under, given what parsing it as an IP
/// address gave; the text itself when it is not one.
pub fn cidr_for_export_ip(ip: &str, family: Option<IpFamily>) -> (r: String)
    ensures
        r@ == (match family {
            Some(IpFamily::V4) => ip@ + "/32"@,
            Some(IpFamily::V6) => ip@ + "/128"@,
            None => ip@,
        }),
{
    let mut r = own(ip);
    match family {
        Some(IpFamily::V4) => push_str(&mut r, "/32"),
        Some(IpFamily::V6) => push_str(&mut r, "/128"),
        None => {},
    }
    r
}

/// The entry for an address blocked in the cluster with no local incident.
pub fn cluster_only_block_entry(ip: &str, cidr: &str) -> (r: BlockListEntry)
    ensures
        r.ip@ == ip@,
        r.cidr@ == cidr@,
        r.source@ == "cluster"@,
        r.cluster_blocked == Some(true),
        r.block_applied,
        r.incident_id is None,
        r.incident_status is None,
        r.failure_count is None,
        r.detected_at is None,
        r.block_action_status is None,
        r.report_sent_at is None,
        r.evidence_summary@.len() == 0,
{
    BlockListEntry {
        ip: own(ip),
        cidr: own(cidr),
        source: own("cluster"),
        cluster_blocked: Some(true),
        block_applied: true,
        incident_id: None,
        incident_status: None,
        failure_count: None,
        detected_at: None,
        block_action_status: None,
        report_sent_at: None,
        evidence_summary: String::new(),
    }
}

/// The display label of an email provider.
pub fn email_provider_label(provider: &str) -> (r: &'static str)
    ensures
        r@ == (if provider@ == "mailjet"@ {
            "Mailjet"@
        } else if provider@ == "postmark"@ {
            "Postmark"@
        } else {
            "email provider"@
        }),
{
    if str_eq(provider, "mailjet") {
        "Mailjet"
    } else if str_eq(provider, "postmark") {
        "Postmark"
    } else {
        "email provider"
    }
}


/// Log text on one line: whitespace runs collapsed to single spaces, at
/// most `max_chars` characters, `...` marking a cut.
pub fn compact_log_value(value: &str, max_chars: usize) -> (r: String)
    ensures
        r@ == truncated(collapse_ws(value@), max_chars as nat),
{
    let c = collapse_whitespace(value);
    truncate_chars(c.as_str(), max_chars)
}

/// A request path without its query, compacted to 240 characters.
pub open spec fn sanitized_path(p: Seq<char>) -> Seq<char> {
    truncated(collapse_ws(match occurrence_from(p, "?"@, 0) {
        Some(i) => p.take(i),
        None => p,
    }), 240)
}

/// A request path without its query string, compacted for a report.
pub fn sanitize_path(path: &str) -> (r: String)
    ensures
        r@ == sanitized_path(path@),
{
    let v = chars_of(path);
    let q = chars_of("?");
    let without_query = match find_after(&v, &q, 0) {
        Some(i) => {
            proof {
                lemma_occurrence_from(v@, q@, 0);
            }
            let s = string_of_range(&v, 0, i);
            assert(v@.subrange(0, i as int) =~= v@.take(i as int));
            s
        },
        None => own(path),
    };
    compact_log_value(without_query.as_str(), 240)
}

/// The `\n`-separated segments of `s` (one more than its line feeds).
pub open spec fn segments(s: Seq<char>) -> Seq<Seq<char>>
    decreases s.len(),
{
    if s.len() == 0 {
        seq![seq![]]
    } else {
        let g = segments(s.drop_last());
        if s.last() == '\n' {
            g.push(seq![])
        } else {
            g.update(g.len() - 1, g.last().push(s.last()))
        }
    }
}

/// There is always a segment.
proof fn lemma_segments_len(s: Seq<char>)
    ensures
        segments(s).len() >= 1,
    decreases s.len(),
{
    if s.len() > 0 {
        lemma_segments_len(s.drop_last());
    }
}

/// The lines of `s` (`str::lines` on text without carriage returns): its
/// segments, less a final empty one.
pub open spec fn lines_of(s: Seq<char>) -> Seq<Seq<char>> {
    let g = segments(s);
    if g.last().len() == 0 {
        g.drop_last()
    } else {
        g
    }
}

/// Multi-line text normalised: carriage returns as line breaks, tabs as
/// spaces, trailing whitespace of each line removed.
pub open spec fn multiline_normalized(s: Seq<char>) -> Seq<char> {
    let t = s.map_values(|c: char| if c == '\r' { '\n' } else if c == '\t' { ' ' } else { c });
    join_seq(lines_of(t).map_values(|l: Seq<char>| trim_end(l)), "\n"@)
}

/// Multi-line text normalised and cut to at most `max_chars` characters.
pub fn compact_multiline_value(value: &str, max_chars: usize) -> (r: String)
    ensures
        r@ == truncated(multiline_normalized(value@), max_chars as nat),
{
    let v = chars_of(value);
    let ghost t = value@.map_values(|c: char| if c == '\r' { '\n' } else if c == '\t' { ' ' } else { c });
    let mut lines: Vec<String> = Vec::new();
    let mut current = String::new();
    let mut i: usize = 0;
    proof {
        assert(t.take(0) =~= Seq::<char>::empty());
        assert(texts(lines@) =~= segments(t.take(0)).drop_last().map_values(|l: Seq<char>| trim_end(l)));
    }
    while i < v.len()
        invariant
            v@ == value@,
            t == value@.map_values(|c: char| if c == '\r' { '\n' } else if c == '\t' { ' ' } else { c }),
            t.len() == v.len(),
            i <= v.len(),
            segments(t.take(i as int)).len() >= 1,
            texts(lines@) == segments(t.take(i as int)).drop_last().map_values(|l: Seq<char>| trim_end(l)),
            current@ == segments(t.take(i as int)).last(),
        decreases v.len() - i,
    {
        let c = v[i];
        let m = if c == '\r' {
            '\n'
        } else if c == '\t' {
            ' '
        } else {
            c
        };
        let ghost g = segments(t.take(i as int));
        proof {
            assert(t.take(i + 1).drop_last() =~= t.take(i as int));
            assert(t.take(i + 1).last() == m);
            lemma_segments_len(t.take(i + 1));
        }
        if m == '\n' {
            let l = trim_end_str(current.as_str());
            let ghost before = lines@;
            lines.push(l);
            proof {
                lemma_texts_push(before, l);
                assert(g.push(seq![]).drop_last() =~= g);
                assert(g =~= g.drop_last().push(g.last()));
                assert(texts(lines@) =~= g.drop_last().map_values(|l: Seq<char>| trim_end(l)).push(trim_end(g.last())));
                assert(g.map_values(|l: Seq<char>| trim_end(l)) =~= g.drop_last().map_values(|l: Seq<char>| trim_end(l)).push(trim_end(g.last())));
            }
            current = String::new();
        } else {
            push_char(&mut current, m);
            proof {
                assert(g.update(g.len() - 1, g.last().push(m)).drop_last() =~= g.drop_last());
            }
        }
        i = i + 1;
    }
    proof {
        assert(t.take(v.len() as int) =~= t);
    }
    let ghost g = segments(t);
    if current.as_str().unicode_len() > 0 {
        let l = trim_end_str(current.as_str());
        let ghost before = lines@;
        lines.push(l);
        proof {
            lemma_texts_push(before, l);
            assert(g =~= g.drop_last().push(g.last()));
            assert(g.map_values(|l: Seq<char>| trim_end(l)) =~= g.drop_last().map_values(|l: Seq<char>| trim_end(l)).push(trim_end(g.last())));
        }
    }
    let joined = join_strings(&lines, "\n");
    truncate_chars(joined.as_str(), max_chars)
}


/// The `[name, count]` items of a detail metric; none unless an array.
pub open spec fn detail_items(details: Option<Json>, key: Seq<char>) -> Seq<Json> {
    match details {
        Some(d) => match d.member(key) {
            Some(Json::Arr(a)) => a,
            _ => seq![],
        },
        None => seq![],
    }
}

/// The name of a `[name, count]` item: a string as it is, any other value as JSON.
pub open spec fn pair_name(item: Json) -> Option<Seq<char>> {
    match item.element(0) {
        Some(Json::Str(s)) => Some(s),
        Some(x) => Some(json_text(x)),
        None => None,
    }
}

/// The count of a `[name, count]` item; 0 unless an integer.
pub open spec fn pair_count(item: Json) -> i64 {
    match item.element(1) {
        Some(x) => match x.signed() {
            Some(n) => n,
            None => 0,
        },
        None => 0,
    }
}

/// The name of an item, or `unknown`.
pub open spec fn pair_label(item: Json) -> Seq<char> {
    match pair_name(item) {
        Some(n) => n,
        None => "unknown"@,
    }
}

fn pair_name_of(item: &JsonValue) -> (r: Option<String>)
    ensures
        opt_chars(r) == pair_name(item@),
{
    match item.at(0) {
        Some(JsonValue::String(s)) => Some(s.clone()),
        Some(x) => Some(x.to_json_text()),
        None => None,
    }
}

fn pair_count_of(item: &JsonValue) -> (r: i64)
    ensures
        r == pair_count(item@),
{
    match item.at(1) {
        Some(x) => match x.as_i64() {
            Some(n) => n,
            None => 0,
        },
        None => 0,
    }
}

/// The text of an optional string.
pub open spec fn opt_chars(o: Option<String>) -> Option<Seq<char>> {
    match o {
        Some(s) => Some(s@),
        None => None,
    }
}

/// Text lines `- name: count` for the first `n` items.
pub open spec fn detail_lines(items: Seq<Json>, n: int) -> Seq<char>
    decreases n,
{
    if n <= 0 || n > items.len() {
        seq![]
    } else {
        detail_lines(items, n - 1) + "- "@ + pair_label(items[n - 1]) + ": "@ + decimal_int(
            pair_count(items[n - 1]) as int,
        ) + "\n"@
    }
}

/// HTML list rows for the first `n` items.
pub open spec fn detail_rows(items: Seq<Json>, n: int) -> Seq<char>
    decreases n,
{
    if n <= 0 || n > items.len() {
        seq![]
    } else {
        detail_rows(items, n - 1) + "<li>"@ + html_text(pair_label(items[n - 1])) + ": "@ + decimal_int(
            pair_count(items[n - 1]) as int,
        ) + "</li>"@
    }
}

/// A detail metric as text: its label, then up to ten `- name: count` lines;
/// nothing when it has no items.
pub open spec fn detail_text(details: Option<Json>, key: Seq<char>, label: Seq<char>) -> Seq<char> {
    let items = detail_items(details, key);
    if items.len() == 0 {
        seq![]
    } else {
        label + ":\n"@ + detail_lines(items, at_most(items.len() as int, 10))
    }
}

/// A detail metric as HTML: a heading and a list of up to ten items.
pub open spec fn detail_html(details: Option<Json>, key: Seq<char>, label: Seq<char>) -> Seq<char> {
    let items = detail_items(details, key);
    if items.len() == 0 {
        seq![]
    } else {
        "<h4>"@ + html_text(label) + "</h4><ul>"@ + detail_rows(items, at_most(items.len() as int, 10)) + "</ul>"@
    }
}

/// The smaller of two integers.
pub open spec fn at_most(n: int, limit: int) -> int {
    if n < limit {
        n
    } else {
        limit
    }
}

fn detail_array<'a>(details: Option<&'a JsonValue>, key: &str) -> (r: Option<&'a Vec<JsonValue>>)
    ensures
        match r {
            Some(a) => items_view(a@, a@.len() as int) == detail_items(match details { Some(d) => Some(d@), None => None }, key@),
            None => detail_items(match details { Some(d) => Some(d@), None => None }, key@).len() == 0,
        },
{
    match details {
        Some(d) => match d.get(key) {
            Some(JsonValue::Array(a)) => Some(a),
            _ => None,
        },
        None => None,
    }
}

/// A detail metric of an incident as report text.
pub fn detail_pair_text(details: Option<&JsonValue>, key: &str, label: &str) -> (r: String)
    ensures
        r@ == detail_text(match details { Some(d) => Some(d@), None => None }, key@, label@),
{
    let items = match detail_array(details, key) {
        Some(a) => a,
        None => return String::new(),
    };
    let ghost its = items_view(items@, items@.len() as int);
    proof {
        lemma_items_view(items@, items@.len() as int);
    }
    if items.len() == 0 {
        return String::new();
    }
    let n: usize = if items.len() < 10 { items.len() } else { 10 };
    let mut out = own(label);
    push_str(&mut out, ":\n");
    let ghost head = out@;
    let mut i: usize = 0;
    while i < n
        invariant
            its == items_view(items@, items@.len() as int),
            its.len() == items.len(),
            forall|k: int| 0 <= k < items.len() ==> #[trigger] its[k] == items@[k]@,
            n <= items.len(),
            i <= n,
            out@ == head + detail_lines(its, i as int),
        decreases n - i,
    {
        let name = match pair_name_of(&items[i]) {
            Some(s) => s,
            None => own("unknown"),
        };
        let count = i64_text(pair_count_of(&items[i]));
        push_str(&mut out, "- ");
        push_str(&mut out, name.as_str());
        push_str(&mut out, ": ");
        push_str(&mut out, count.as_str());
        push_str(&mut out, "\n");
        i = i + 1;
        assert(out@ =~= head + detail_lines(its, i as int));
    }
    out
}

/// A detail metric of an incident as report HTML.
pub fn detail_pair_html(details: Option<&JsonValue>, key: &str, label: &str) -> (r: String)
    ensures
        r@ == detail_html(match details { Some(d) => Some(d@), None => None }, key@, label@),
{
    let items = match detail_array(details, key) {
        Some(a) => a,
        None => return String::new(),
    };
    let ghost its = items_view(items@, items@.len() as int);
    proof {
        lemma_items_view(items@, items@.len() as int);
    }
    if items.len() == 0 {
        return String::new();
    }
    let n: usize = if items.len() < 10 { items.len() } else { 10 };
    let mut out = own("<h4>");
    let l = html_escape(label);
    push_str(&mut out, l.as_str());
    push_str(&mut out, "</h4><ul>");
    let ghost head = out@;
    let mut i: usize = 0;
    while i < n
        invariant
            its == items_view(items@, items@.len() as int),
            its.len() == items.len(),
            forall|k: int| 0 <= k < items.len() ==> #[trigger] its[k] == items@[k]@,
            n <= items.len(),
            i <= n,
            out@ == head + detail_rows(its, i as int),
        decreases n - i,
    {
        let name = match pair_name_of(&items[i]) {
            Some(s) => s,
            None => own("unknown"),
        };
        let count = i64_text(pair_count_of(&items[i]));
        let name_html = html_escape(name.as_str());
        push_str(&mut out, "<li>");
        push_str(&mut out, name_html.as_str());
        push_str(&mut out, ": ");
        push_str(&mut out, count.as_str());
        push_str(&mut out, "</li>");
        i = i + 1;
        assert(out@ =~= head + detail_rows(its, i as int));
    }
    push_str(&mut out, "</ul>");
    out
}

/// `name (count)` for each of the first `n` items that has a name.
pub open spec fn compact_pairs(items: Seq<Json>, n: int) -> Seq<Seq<char>>
    decreases n,
{
    if n <= 0 || n > items.len() {
        seq![]
    } else {
        compact_pairs(items, n - 1) + match pair_name(items[n - 1]) {
            Some(name) => seq![name + " ("@ + decimal_int(pair_count(items[n - 1]) as int) + ")"@],
            None => seq![],
        }
    }
}

/// Up to `limit` items of a detail metric as `name (count)`, comma separated.
pub open spec fn compact_pairs_text(details: Json, key: Seq<char>, limit: int) -> Seq<char> {
    let items = detail_items(Some(details), key);
    join_seq(compact_pairs(items, at_most(items.len() as int, limit)), ", "@)
}

/// Up to `limit` items of a detail metric as `name (count)`, comma separated.
pub fn compact_detail_pairs(details: &JsonValue, key: &str, limit: usize) -> (r: String)
    ensures
        r@ == compact_pairs_text(details@, key@, limit as int),
{
    let items = match detail_array(Some(details), key) {
        Some(a) => a,
        None => {
            let e: Vec<String> = Vec::new();
            return join_strings(&e, ", ");
        },
    };
    let ghost its = items_view(items@, items@.len() as int);
    proof {
        lemma_items_view(items@, items@.len() as int);
    }
    let n: usize = if items.len() < limit { items.len() } else { limit };
    let mut parts: Vec<String> = Vec::new();
    let mut i: usize = 0;
    while i < n
        invariant
            its == items_view(items@, items@.len() as int),
            its.len() == items.len(),
            forall|k: int| 0 <= k < items.len() ==> #[trigger] its[k] == items@[k]@,
            n <= items.len(),
            i <= n,
            texts(parts@) == compact_pairs(its, i as int),
        decreases n - i,
    {
        match pair_name_of(&items[i]) {
            Some(name) => {
                let mut p = name;
                push_str(&mut p, " (");
                let c = i64_text(pair_count_of(&items[i]));
                push_str(&mut p, c.as_str());
                push_str(&mut p, ")");
                let ghost before = parts@;
                parts.push(p);
                proof {
                    lemma_texts_push(before, p);
                }
            },
            None => {
                assert(compact_pairs(its, i + 1) =~= compact_pairs(its, i as int) + seq![]);
            },
        }
        i = i + 1;
    }
    join_strings(&parts, ", ")
}

/// The evidence summary of an incident's details: its top hosts and paths.
pub open spec fn evidence_summary_of(details: Option<Json>) -> Seq<char> {
    match details {
        Some(d) => {
            let hosts = compact_pairs_text(d, "target_hosts"@, 3);
            let paths = compact_pairs_text(d, "top_paths"@, 3);
            if hosts.len() > 0 && paths.len() > 0 {
                "hosts: "@ + hosts + "; paths: "@ + paths
            } else if hosts.len() > 0 {
                "hosts: "@ + hosts
            } else if paths.len() > 0 {
                "paths: "@ + paths
            } else {
                seq![]
            }
        },
        None => seq![],
    }
}

/// The evidence summary of an incident whose details parsed as `details`.
pub fn block_evidence_summary(details: Option<&JsonValue>) -> (r: String)
    ensures
        r@ == evidence_summary_of(match details { Some(d) => Some(d@), None => None }),
{
    let d = match details {
        Some(d) => d,
        None => return String::new(),
    };
    let hosts = compact_detail_pairs(d, "target_hosts", 3);
    let paths = compact_detail_pairs(d, "top_paths", 3);
    let h = hosts.as_str().unicode_len() > 0;
    let p = paths.as_str().unicode_len() > 0;
    if h && p {
        let mut r = own("hosts: ");
        push_str(&mut r, hosts.as_str());
        push_str(&mut r, "; paths: ");
        push_str(&mut r, paths.as_str());
        r
    } else if h {
        let mut r = own("hosts: ");
        push_str(&mut r, hosts.as_str());
        r
    } else if p {
        let mut r = own("paths: ");
        push_str(&mut r, paths.as_str());
        r
    } else {
        String::new()
    }
}


/// One raw log event quoted in an abuse report.
#[derive(Debug, Clone, PartialEq, Eq)]
pub struct LogEvidenceEvent {
    pub timestamp: String,
    pub source_ip: String,
    pub status: String,
    pub method: String,
    pub host: String,
    pub path: String,
    pub user_agent: Option<String>,
    pub index: String,
}

/// The report line of a log event.
pub open spec fn log_event_line(e: LogEvidenceEvent) -> Seq<char> {
    "- "@ + e.timestamp@ + " status="@ + e.status@ + " method="@ + e.method@ + " source_ip="@ + e.source_ip@
        + " host="@ + e.host@ + " path="@ + e.path@ + " index="@ + e.index@ + match e.user_agent {
        Some(ua) => " user_agent=\""@ + ua@ + "\""@,
        None => seq![],
    } + "\n"@
}

/// The report table row of a log event.
pub open spec fn log_event_row(e: LogEvidenceEvent) -> Seq<char> {
    "<tr><td>"@ + html_text(e.timestamp@) + "</td><td>"@ + html_text(e.status@) + "</td><td>"@ + html_text(
        e.method@,
    ) + "</td><td>"@ + html_text(e.host@) + "</td><td><code>"@ + html_text(e.path@) + "</code></td><td>"@
        + html_text(opt_text(e.user_agent)) + "</td></tr>"@
}

/// The report lines of the first `n` events.
pub open spec fn log_lines(es: Seq<LogEvidenceEvent>, n: int) -> Seq<char>
    decreases n,
{
    if n <= 0 || n > es.len() {
        seq![]
    } else {
        log_lines(es, n - 1) + log_event_line(es[n - 1])
    }
}

/// The report rows of the first `n` events.
pub open spec fn log_rows(es: Seq<LogEvidenceEvent>, n: int) -> Seq<char>
    decreases n,
{
    if n <= 0 || n > es.len() {
        seq![]
    } else {
        log_rows(es, n - 1) + log_event_row(es[n - 1])
    }
}

/// The raw log sample of a report as text.
pub open spec fn raw_log_text(es: Seq<LogEvidenceEvent>) -> Seq<char> {
    if es.len() == 0 {
        "- No matching raw log events were available from Elasticsearch at send time.\n"@
    } else {
        log_lines(es, es.len() as int)
    }
}

/// The raw log sample of a report as HTML.
pub open spec fn raw_log_html(es: Seq<LogEvidenceEvent>) -> Seq<char> {
    if es.len() == 0 {
        "<p>No matching raw log events were available from Elasticsearch at send time.</p>"@
    } else {
        "<table><tr><th align=\"left\">Time</th><th align=\"left\">Status</th><th align=\"left\">Method</th><th align=\"left\">Host</th><th align=\"left\">Path</th><th align=\"left\">User agent</th></tr>"@
            + log_rows(es, es.len() as int) + "</table>"@
    }
}

fn log_event_line_of(e: &LogEvidenceEvent) -> (r: String)
    ensures
        r@ == log_event_line(*e),
{
    let mut out = own("- ");
    push_str(&mut out, e.timestamp.as_str());
    push_str(&mut out, " status=");
    push_str(&mut out, e.status.as_str());
    push_str(&mut out, " method=");
    push_str(&mut out, e.method.as_str());
    push_str(&mut out, " source_ip=");
    push_str(&mut out, e.source_ip.as_str());
    push_str(&mut out, " host=");
    push_str(&mut out, e.host.as_str());
    push_str(&mut out, " path=");
    push_str(&mut out, e.path.as_str());
    push_str(&mut out, " index=");
    push_str(&mut out, e.index.as_str());
    let ghost mid = out@;
    match &e.user_agent {
        Some(ua) => {
            push_str(&mut out, " user_agent=\"");
            push_str(&mut out, ua.as_str());
            push_str(&mut out, "\"");
        },
        None => {
            assert(out@ =~= mid + seq![]);
        },
    }
    push_str(&mut out, "\n");
    out
}

fn log_event_row_of(e: &LogEvidenceEvent) -> (r: String)
    ensures
        r@ == log_event_row(*e),
{
    let mut out = own("<tr><td>");
    push_str(&mut out, html_escape(e.timestamp.as_str()).as_str());
    push_str(&mut out, "</td><td>");
    push_str(&mut out, html_escape(e.status.as_str()).as_str());
    push_str(&mut out, "</td><td>");
    push_str(&mut out, html_escape(e.method.as_str()).as_str());
    push_str(&mut out, "</td><td>");
    push_str(&mut out, html_escape(e.host.as_str()).as_str());
    push_str(&mut out, "</td><td><code>");
    push_str(&mut out, html_escape(e.path.as_str()).as_str());
    push_str(&mut out, "</code></td><td>");
    let ua = opt_string(&e.user_agent);
    push_str(&mut out, html_escape(ua.as_str()).as_str());
    push_str(&mut out, "</td></tr>");
    out
}

/// The raw log sample of an abuse report as text.
pub fn raw_log_evidence_text(events: &[LogEvidenceEvent]) -> (r: String)
    ensures
        r@ == raw_log_text(events@),
{
    if events.len() == 0 {
        return own("- No matching raw log events were available from Elasticsearch at send time.\n");
    }
    let mut out = String::new();
    let mut i: usize = 0;
    while i < events.len()
        invariant
            i <= events@.len(),
            out@ == log_lines(events@, i as int),
        decreases events.len() - i,
    {
        let l = log_event_line_of(&events[i]);
        push_str(&mut out, l.as_str());
        i = i + 1;
        assert(out@ =~= log_lines(events@, i as int));
    }
    out
}

/// The raw log sample of an abuse report as HTML.
pub fn raw_log_evidence_html(events: &[LogEvidenceEvent]) -> (r: String)
    ensures
        r@ == raw_log_html(events@),
{
    if events.len() == 0 {
        return own("<p>No matching raw log events were available from Elasticsearch at send time.</p>");
    }
    let mut out = own(
        "<table><tr><th align=\"left\">Time</th><th align=\"left\">Status</th><th align=\"left\">Method</th><th align=\"left\">Host</th><th align=\"left\">Path</th><th align=\"left\">User agent</th></tr>",
    );
    let ghost head = out@;
    let mut i: usize = 0;
    while i < events.len()
        invariant
            i <= events@.len(),
            out@ == head + log_rows(events@, i as int),
        decreases events.len() - i,
    {
        let l = log_event_row_of(&events[i]);
        push_str(&mut out, l.as_str());
        i = i + 1;
        assert(out@ =~= head + log_rows(events@, i as int));
    }
    push_str(&mut out, "</table>");
    out
}

/// The operator's AI inspection attached to an abuse report.
#[derive(Debug, Clone, PartialEq, Eq)]
pub struct AiInspectionReportContext {
    pub analysis: String,
    pub evidence_count: Option<usize>,
    pub done: Option<bool>,
}

/// The evidence count as text; `unknown` when absent.
pub open spec fn evidence_count_text(c: Option<usize>) -> Seq<char> {
    match c {
        Some(n) => decimal(n as nat),
        None => "unknown"@,
    }
}

/// Whether the inspection finished: `complete`, `partial` or `unknown`.
pub open spec fn completion_text(d: Option<bool>) -> Seq<char> {
    match d {
        Some(true) => "complete"@,
        Some(false) => "partial"@,
        None => "unknown"@,
    }
}

/// The AI inspection section of a report as text; nothing without one or
/// when its analysis is blank.
pub open spec fn ai_text(ctx: Option<AiInspectionReportContext>) -> Seq<char> {
    match ctx {
        Some(c) => {
            let a = truncated(multiline_normalized(c.analysis@), 6000);
            if trim(a).len() == 0 {
                seq![]
            } else {
                "AI inspection:\n- Evidence events reviewed: "@ + evidence_count_text(c.evidence_count)
                    + "\n- Result status: "@ + completion_text(c.done) + "\n"@ + a + "\n\n"@
            }
        },
        None => seq![],
    }
}

/// The AI inspection section of a report as HTML.
pub open spec fn ai_html(ctx: Option<AiInspectionReportContext>) -> Seq<char> {
    match ctx {
        Some(c) => {
            let a = truncated(multiline_normalized(c.analysis@), 6000);
            if trim(a).len() == 0 {
                seq![]
            } else {
                "<h3>AI inspection</h3><table><tr><th align=\"left\">Evidence events reviewed</th><td>"@ + html_text(
                    evidence_count_text(c.evidence_count),
                ) + "</td></tr><tr><th align=\"left\">Result status</th><td>"@ + html_text(completion_text(c.done))
                    + "</td></tr></table><pre>"@ + html_text(a) + "</pre>"@
            }
        },
        None => seq![],
    }
}

fn evidence_count_string(c: Option<usize>) -> (r: String)
    ensures
        r@ == evidence_count_text(c),
{
    match c {
        Some(n) => u64_text(n as u64),
        None => own("unknown"),
    }
}

fn completion_str(d: Option<bool>) -> (r: &'static str)
    ensures
        r@ == completion_text(d),
{
    match d {
        Some(true) => "complete",
        Some(false) => "partial",
        None => "unknown",
    }
}

/// The AI inspection section of an abuse report as text.
pub fn ai_inspection_report_text(ai_inspection: Option<&AiInspectionReportContext>) -> (r: String)
    ensures
        r@ == ai_text(match ai_inspection { Some(c) => Some(*c), None => None }),
{
    let c = match ai_inspection {
        Some(c) => c,
        None => return String::new(),
    };
    let analysis = compact_multiline_value(c.analysis.as_str(), 6000);
    let t = trim_str(analysis.as_str());
    if t.as_str().unicode_len() == 0 {
        return String::new();
    }
    let mut out = own("AI inspection:\n- Evidence events reviewed: ");
    push_str(&mut out, evidence_count_string(c.evidence_count).as_str());
    push_str(&mut out, "\n- Result status: ");
    push_str(&mut out, completion_str(c.done));
    push_str(&mut out, "\n");
    push_str(&mut out, analysis.as_str());
    push_str(&mut out, "\n\n");
    out
}

/// The AI inspection section of an abuse report as HTML.
pub fn ai_inspection_report_html(ai_inspection: Option<&AiInspectionReportContext>) -> (r: String)
    ensures
        r@ == ai_html(match ai_inspection { Some(c) => Some(*c), None => None }),
{
    let c = match ai_inspection {
        Some(c) => c,
        None => return String::new(),
    };
    let analysis = compact_multiline_value(c.analysis.as_str(), 6000);
    let t = trim_str(analysis.as_str());
    if t.as_str().unicode_len() == 0 {
        return String::new();
    }
    let mut out = own("<h3>AI inspection</h3><table><tr><th align=\"left\">Evidence events reviewed</th><td>");
    push_str(&mut out, html_escape(evidence_count_string(c.evidence_count).as_str()).as_str());
    push_str(&mut out, "</td></tr><tr><th align=\"left\">Result status</th><td>");
    push_str(&mut out, html_escape(completion_str(c.done)).as_str());
    push_str(&mut out, "</td></tr></table><pre>");
    push_str(&mut out, html_escape(analysis.as_str()).as_str());
    push_str(&mut out, "</pre>");
    out
}


/// The address range a registry gives: `start - end`, either end alone, or `unknown`.
pub open spec fn address_range_of(w: WhoisInfo) -> Seq<char> {
    match (w.start_address, w.end_address) {
        (Some(s), Some(e)) => s@ + " - "@ + e@,
        (Some(s), None) => s@,
        (None, Some(e)) => e@,
        (None, None) => "unknown"@,
    }
}

/// The address range a registry gives for a network.
pub fn address_range(whois: &WhoisInfo) -> (r: String)
    ensures
        r@ == address_range_of(*whois),
{
    match (&whois.start_address, &whois.end_address) {
        (Some(s), Some(e)) => {
            let mut r = s.clone();
            push_str(&mut r, " - ");
            push_str(&mut r, e.as_str());
            r
        },
        (Some(s), None) => s.clone(),
        (None, Some(e)) => e.clone(),
        (None, None) => own("unknown"),
    }
}

/// The addresses of the first `n` contacts, contact by contact.
pub open spec fn contact_emails(cs: Seq<AbuseContact>, n: int) -> Seq<Seq<char>>
    decreases n,
{
    if n <= 0 || n > cs.len() {
        seq![]
    } else {
        contact_emails(cs, n - 1) + texts(cs[n - 1].emails@)
    }
}

/// The distinct report recipients among the first `n` addresses: trimmed,
/// in ASCII lower case, holding `@`, in first-seen order.
pub open spec fn recipient_list(es: Seq<Seq<char>>, n: int) -> Seq<Seq<char>>
    decreases n,
{
    if n <= 0 || n > es.len() {
        seq![]
    } else {
        let prev = recipient_list(es, n - 1);
        let e = lower_ascii_str(trim(es[n - 1]));
        if e.contains('@') && !prev.contains(e) {
            prev.push(e)
        } else {
            prev
        }
    }
}

/// Each address of a contact among the first `n` is among their addresses.
proof fn lemma_contact_emails_holds(cs: Seq<AbuseContact>, n: int, ci: int, ei: int)
    requires
        0 <= ci < n <= cs.len(),
        0 <= ei < cs[ci].emails@.len(),
    ensures
        contact_emails(cs, n).contains(cs[ci].emails@[ei]@),
    decreases n,
{
    let prev = contact_emails(cs, n - 1);
    let last = texts(cs[n - 1].emails@);
    assert(contact_emails(cs, n) == prev + last);
    if ci == n - 1 {
        assert((prev + last)[prev.len() + ei] == last[ei]);
    } else {
        lemma_contact_emails_holds(cs, n - 1, ci, ei);
        let w = choose|w: int| 0 <= w < prev.len() && prev[w] == cs[ci].emails@[ei]@;
        assert((prev + last)[w] == prev[w]);
    }
}

/// Each normalised address among the first `n` that holds `@` is a recipient.
proof fn lemma_recipient_list_holds(es: Seq<Seq<char>>, n: int, m: int)
    requires
        0 <= m < n <= es.len(),
        lower_ascii_str(trim(es[m])).contains('@'),
    ensures
        recipient_list(es, n).contains(lower_ascii_str(trim(es[m]))),
    decreases n,
{
    let prev = recipient_list(es, n - 1);
    let e = lower_ascii_str(trim(es[n - 1]));
    let x = lower_ascii_str(trim(es[m]));
    if m < n - 1 {
        lemma_recipient_list_holds(es, n - 1, m);
    }
    if prev.contains(x) {
        let w = choose|w: int| 0 <= w < prev.len() && prev[w] == x;
        if e.contains('@') && !prev.contains(e) {
            assert(prev.push(e)[w] == x);
        }
    } else {
        assert(m == n - 1);
        assert(prev.push(e)[prev.len() as int] == x);
    }
}

/// ASCII lower-casing keeps `@` where it is.
proof fn lemma_lower_keeps_at(t: Seq<char>)
    requires
        t.contains('@'),
    ensures
        lower_ascii_str(t).contains('@'),
{
    let w = choose|w: int| 0 <= w < t.len() && t[w] == '@';
    assert(lower_ascii_str(t)[w] == '@');
}

/// Every address of every abuse contact that holds `@` once trimmed is a
/// recipient of the report, trimmed and in ASCII lower case.
pub proof fn law_every_abuse_address_is_a_recipient(cs: Seq<AbuseContact>, ci: int, ei: int)
    requires
        0 <= ci < cs.len(),
        0 <= ei < cs[ci].emails@.len(),
        trim(cs[ci].emails@[ei]@).contains('@'),
    ensures
        recipient_list(contact_emails(cs, cs.len() as int), contact_emails(cs, cs.len() as int).len() as int).contains(
            lower_ascii_str(trim(cs[ci].emails@[ei]@)),
        ),
{
    let all = contact_emails(cs, cs.len() as int);
    lemma_contact_emails_holds(cs, cs.len() as int, ci, ei);
    let m = choose|m: int| 0 <= m < all.len() && all[m] == cs[ci].emails@[ei]@;
    lemma_lower_keeps_at(trim(all[m]));
    lemma_recipient_list_holds(all, all.len() as int, m);
}

/// `x` is the normalised form of some address of some contact, and holds `@`.
pub open spec fn is_normalised_contact_address(cs: Seq<AbuseContact>, x: Seq<char>) -> bool {
    x.contains('@') && exists|ci: int, ei: int|
        0 <= ci < cs.len() && 0 <= ei < cs[ci].emails@.len() && lower_ascii_str(trim(#[trigger] cs[ci].emails@[ei]@))
            == x
}

/// Each address among the first `n` comes from some contact.
proof fn lemma_contact_emails_from(cs: Seq<AbuseContact>, n: int, m: int)
    requires
        0 <= n <= cs.len(),
        0 <= m < contact_emails(cs, n).len(),
    ensures
        exists|ci: int, ei: int|
            0 <= ci < cs.len() && 0 <= ei < cs[ci].emails@.len() && #[trigger] cs[ci].emails@[ei]@ == contact_emails(
                cs,
                n,
            )[m],
    decreases n,
{
    let prev = contact_emails(cs, n - 1);
    if m < prev.len() {
        lemma_contact_emails_from(cs, n - 1, m);
        let (ci, ei) = choose|ci: int, ei: int|
            0 <= ci < cs.len() && 0 <= ei < cs[ci].emails@.len() && #[trigger] cs[ci].emails@[ei]@ == prev[m];
        assert(cs[ci].emails@[ei]@ == contact_emails(cs, n)[m]);
    } else {
        let ei = m - prev.len();
        assert(cs[n - 1].emails@[ei]@ == contact_emails(cs, n)[m]);
    }
}

/// Each recipient among the first `n` is the normalised form of one of the
/// first `n` addresses and holds `@`, and no recipient repeats.
proof fn lemma_recipient_list_sound(es: Seq<Seq<char>>, n: int)
    requires
        0 <= n <= es.len(),
    ensures
        forall|j: int|
            #![trigger recipient_list(es, n)[j]]
            0 <= j < recipient_list(es, n).len() ==> recipient_list(es, n)[j].contains('@') && exists|m: int|
                0 <= m < n && lower_ascii_str(trim(#[trigger] es[m])) == recipient_list(es, n)[j],
        forall|a: int, b: int|
            0 <= a < b < recipient_list(es, n).len() ==> #[trigger] recipient_list(es, n)[a] != #[trigger] recipient_list(
                es,
                n,
            )[b],
    decreases n,
{
    if n > 0 {
        lemma_recipient_list_sound(es, n - 1);
        let prev = recipient_list(es, n - 1);
        let r = recipient_list(es, n);
        let e = lower_ascii_str(trim(es[n - 1]));
        assert forall|j: int| #![trigger r[j]] 0 <= j < r.len() implies r[j].contains('@') && exists|m: int|
            0 <= m < n && lower_ascii_str(trim(#[trigger] es[m])) == r[j] by {
            if j < prev.len() {
                assert(r[j] == prev[j]);
                let m = choose|m: int| 0 <= m < n - 1 && lower_ascii_str(trim(#[trigger] es[m])) == prev[j];
            } else {
                assert(r[j] == e);
            }
        }
        assert forall|a: int, b: int| 0 <= a < b < r.len() implies #[trigger] r[a] != #[trigger] r[b] by {
            if b >= prev.len() {
                assert(r[a] == prev[a]);
                assert(!prev.contains(e));
            } else {
                assert(r[a] == prev[a] && r[b] == prev[b]);
            }
        }
    }
}

/// The recipients of a report are only the registry's abuse addresses:
/// each is the trimmed, ASCII lower-cased form of some address of some
/// abuse contact and holds `@`, and no recipient is listed twice.
pub proof fn law_recipients_come_from_contacts(cs: Seq<AbuseContact>)
    ensures
        forall|j: int|
            0 <= j < recipient_list(contact_emails(cs, cs.len() as int), contact_emails(cs, cs.len() as int).len() as int).len()
                ==> is_normalised_contact_address(
                cs,
                #[trigger] recipient_list(
                    contact_emails(cs, cs.len() as int),
                    contact_emails(cs, cs.len() as int).len() as int,
                )[j],
            ),
        forall|a: int, b: int|
            0 <= a < b < recipient_list(contact_emails(cs, cs.len() as int), contact_emails(cs, cs.len() as int).len() as int).len()
                ==> #[trigger] recipient_list(
                contact_emails(cs, cs.len() as int),
                contact_emails(cs, cs.len() as int).len() as int,
            )[a] != #[trigger] recipient_list(
                contact_emails(cs, cs.len() as int),
                contact_emails(cs, cs.len() as int).len() as int,
            )[b],
{
    let all = contact_emails(cs, cs.len() as int);
    let r = recipient_list(all, all.len() as int);
    lemma_recipient_list_sound(all, all.len() as int);
    assert forall|j: int| 0 <= j < r.len() implies is_normalised_contact_address(cs, #[trigger] r[j]) by {
        let m = choose|m: int| 0 <= m < all.len() && lower_ascii_str(trim(#[trigger] all[m])) == r[j];
        lemma_contact_emails_from(cs, cs.len() as int, m);
        let (ci, ei) = choose|ci: int, ei: int|
            0 <= ci < cs.len() && 0 <= ei < cs[ci].emails@.len() && #[trigger] cs[ci].emails@[ei]@ == all[m];
        assert(lower_ascii_str(trim(cs[ci].emails@[ei]@)) == r[j]);
    }
}

/// The recipients of an abuse report: the registry's abuse addresses,
/// normalised and without repeats.
pub fn abuse_report_recipients(whois: &WhoisInfo) -> (r: Vec<String>)
    ensures
        texts(r@) == recipient_list(
            contact_emails(whois.abuse_contacts@, whois.abuse_contacts@.len() as int),
            contact_emails(whois.abuse_contacts@, whois.abuse_contacts@.len() as int).len() as int,
        ),
{
    let ghost all = contact_emails(whois.abuse_contacts@, whois.abuse_contacts@.len() as int);
    let mut flat: Vec<String> = Vec::new();
    let mut i: usize = 0;
    while i < whois.abuse_contacts.len()
        invariant
            i <= whois.abuse_contacts.len(),
            texts(flat@) == contact_emails(whois.abuse_contacts@, i as int),
        decreases whois.abuse_contacts.len() - i,
    {
        let emails = &whois.abuse_contacts[i].emails;
        let ghost start = texts(flat@);
        let mut j: usize = 0;
        while j < emails.len()
            invariant
                j <= emails.len(),
                texts(flat@) == start + texts(emails@).take(j as int),
            decreases emails.len() - j,
        {
            let c = emails[j].clone();
            let ghost before = flat@;
            flat.push(c);
            proof {
                lemma_texts_push(before, c);
                assert(texts(emails@).take(j + 1) =~= texts(emails@).take(j as int).push(emails@[j as int]@));
                assert(texts(flat@) =~= start + texts(emails@).take(j + 1));
            }
            j = j + 1;
        }
        proof {
            assert(texts(emails@).take(emails.len() as int) =~= texts(emails@));
        }
        i = i + 1;
    }
    let ghost es = texts(flat@);
    let mut out: Vec<String> = Vec::new();
    let mut k: usize = 0;
    while k < flat.len()
        invariant
            es == texts(flat@),
            es == all,
            k <= flat.len(),
            texts(out@) == recipient_list(es, k as int),
        decreases flat.len() - k,
    {
        let t = trim_str(flat[k].as_str());
        let e = to_ascii_lowercase(t.as_str());
        assert(es[k as int] == flat@[k as int]@);
        if contains_char(e.as_str(), '@') {
            let mut seen = false;
            let mut m: usize = 0;
            while m < out.len()
                invariant
                    m <= out.len(),
                    seen <==> exists|q: int| 0 <= q < m && #[trigger] texts(out@)[q] == e@,
                decreases out.len() - m,
            {
                assert(texts(out@)[m as int] == out@[m as int]@);
                if str_eq(out[m].as_str(), e.as_str()) {
                    seen = true;
                }
                m = m + 1;
            }
            if !seen {
                let ghost before = out@;
                out.push(e);
                proof {
                    lemma_texts_push(before, e);
                }
            }
        }
        k = k + 1;
    }
    out
}

/// A sender name trimmed; `DevOps Agent` when blank.
pub open spec fn report_sender(name: Seq<char>) -> Seq<char> {
    if trim(name).len() == 0 {
        "DevOps Agent"@
    } else {
        trim(name)
    }
}

/// A registry field, or the given fallback.
pub open spec fn or_text(o: Option<String>, fallback: Seq<char>) -> Seq<char> {
    match o {
        Some(s) => s@,
        None => fallback,
    }
}

/// The detection window of an incident's details; 60 minutes by default.
pub open spec fn window_of(details: Option<Json>) -> i64 {
    match details {
        Some(d) => match d.member("window_minutes"@) {
            Some(v) => match v.signed() {
                Some(n) => n,
                None => 60,
            },
            None => 60,
        },
        None => 60,
    }
}

/// The facts block of an abuse report's text.
pub open spec fn report_facts_text(sender: Seq<char>, i: IncidentDb, window: i64, w: WhoisInfo) -> Seq<char> {
    sender + " observed suspicious authentication-failure traffic from "@ + i.source_ip@ + ".\n\nSource IP: "@
        + i.source_ip@ + "\nLast seen: "@ + i.detected_at@ + "\nFailures: "@ + decimal_int(i.failure_count as int)
        + " HTTP 401/403 responses in the last "@ + decimal_int(window as int) + " minutes\nNetwork: "@ + or_text(
        w.network_name,
        "unknown"@,
    ) + "\nOrganization: "@ + or_text(w.organization, "unknown"@) + "\nCountry: "@ + or_text(w.country, "unknown"@)
        + "\nAddress range: "@ + address_range_of(w) + "\nRDAP source: "@ + or_text(w.registry_url, "unavailable"@)
        + "\n\n"@
}

/// The evidence metrics of a report as text.
pub open spec fn report_evidence_text(d: Option<Json>) -> Seq<char> {
    detail_text(d, "status_breakdown"@, "Status breakdown"@) + detail_text(d, "methods"@, "Methods"@) + detail_text(
        d,
        "target_hosts"@,
        "Targeted hosts"@,
    ) + detail_text(d, "top_paths"@, "Top requested paths"@)
}

/// The evidence metrics of a report as HTML.
pub open spec fn report_evidence_html(d: Option<Json>) -> Seq<char> {
    detail_html(d, "status_breakdown"@, "Status breakdown"@) + detail_html(d, "methods"@, "Methods"@) + detail_html(
        d,
        "target_hosts"@,
        "Targeted hosts"@,
    ) + detail_html(d, "top_paths"@, "Top requested paths"@)
}

/// The text body of an abuse report.
pub open spec fn report_text_body(
    sender: Seq<char>,
    i: IncidentDb,
    d: Option<Json>,
    w: WhoisInfo,
    logs: Seq<LogEvidenceEvent>,
    ai: Option<AiInspectionReportContext>,
) -> Seq<char> {
    report_facts_text(sender, i, window_of(d), w) + "Evidence summary:\n"@ + report_evidence_text(d) + "\n"@
        + ai_text(ai) + "Raw log sample:\n"@ + raw_log_text(logs)
        + "\nPlease investigate this source and take appropriate action.\n\nRegards,\n"@ + sender + "\n"@
}

/// The facts table of an abuse report's HTML.
pub open spec fn report_facts_html(sender: Seq<char>, i: IncidentDb, window: i64, w: WhoisInfo) -> Seq<char> {
    "<p>"@ + html_text(sender) + " observed suspicious authentication-failure traffic from <strong>"@ + html_text(
        i.source_ip@,
    ) + "</strong>.</p><table><tr><th align=\"left\">Source IP</th><td>"@ + html_text(i.source_ip@)
        + "</td></tr><tr><th align=\"left\">Last seen</th><td>"@ + html_text(i.detected_at@)
        + "</td></tr><tr><th align=\"left\">Failures</th><td>"@ + decimal_int(i.failure_count as int)
        + " HTTP 401/403 responses in the last "@ + decimal_int(window as int)
        + " minutes</td></tr><tr><th align=\"left\">Network</th><td>"@ + html_text(or_text(w.network_name, "unknown"@))
        + "</td></tr><tr><th align=\"left\">Organization</th><td>"@ + html_text(or_text(w.organization, "unknown"@))
        + "</td></tr><tr><th align=\"left\">Country</th><td>"@ + html_text(or_text(w.country, "unknown"@))
        + "</td></tr><tr><th align=\"left\">Address range</th><td>"@ + html_text(address_range_of(w))
        + "</td></tr><tr><th align=\"left\">RDAP source</th><td>"@ + html_text(or_text(w.registry_url, "unavailable"@))
        + "</td></tr></table>"@
}

/// The HTML body of an abuse report.
pub open spec fn report_html_body(
    sender: Seq<char>,
    i: IncidentDb,
    d: Option<Json>,
    w: WhoisInfo,
    logs: Seq<LogEvidenceEvent>,
    ai: Option<AiInspectionReportContext>,
) -> Seq<char> {
    report_facts_html(sender, i, window_of(d), w) + "<h3>Evidence summary</h3>"@ + report_evidence_html(d) + ai_html(ai)
        + "<h3>Raw log sample</h3>"@ + raw_log_html(logs)
        + "<p>Please investigate this source and take appropriate action.</p><p>Regards,<br>"@ + html_text(sender)
        + "</p>"@
}

fn or_string(o: &Option<String>, fallback: &str) -> (r: String)
    ensures
        r@ == or_text(*o, fallback@),
{
    match o {
        Some(s) => s.clone(),
        None => own(fallback),
    }
}

fn window_minutes(details: Option<&JsonValue>) -> (r: i64)
    ensures
        r == window_of(match details { Some(d) => Some(d@), None => None }),
{
    match details {
        Some(d) => match d.get("window_minutes") {
            Some(v) => match v.as_i64() {
                Some(n) => n,
                None => 60,
            },
            None => 60,
        },
        None => 60,
    }
}

fn facts_text(sender: &str, incident: &IncidentDb, window: i64, whois: &WhoisInfo) -> (r: String)
    ensures
        r@ == report_facts_text(sender@, *incident, window, *whois),
{
    let mut out = own(sender);
    push_str(&mut out, " observed suspicious authentication-failure traffic from ");
    push_str(&mut out, incident.source_ip.as_str());
    push_str(&mut out, ".\n\nSource IP: ");
    push_str(&mut out, incident.source_ip.as_str());
    push_str(&mut out, "\nLast seen: ");
    push_str(&mut out, incident.detected_at.as_str());
    push_str(&mut out, "\nFailures: ");
    push_str(&mut out, i64_text(incident.failure_count).as_str());
    push_str(&mut out, " HTTP 401/403 responses in the last ");
    push_str(&mut out, i64_text(window).as_str());
    push_str(&mut out, " minutes\nNetwork: ");
    push_str(&mut out, or_string(&whois.network_name, "unknown").as_str());
    push_str(&mut out, "\nOrganization: ");
    push_str(&mut out, or_string(&whois.organization, "unknown").as_str());
    push_str(&mut out, "\nCountry: ");
    push_str(&mut out, or_string(&whois.country, "unknown").as_str());
    push_str(&mut out, "\nAddress range: ");
    push_str(&mut out, address_range(whois).as_str());
    push_str(&mut out, "\nRDAP source: ");
    push_str(&mut out, or_string(&whois.registry_url, "unavailable").as_str());
    push_str(&mut out, "\n\n");
    out
}

fn facts_html(sender: &str, incident: &IncidentDb, window: i64, whois: &WhoisInfo) -> (r: String)
    ensures
        r@ == report_facts_html(sender@, *incident, window, *whois),
{
    let mut out = own("<p>");
    push_str(&mut out, html_escape(sender).as_str());
    push_str(&mut out, " observed suspicious authentication-failure traffic from <strong>");
    push_str(&mut out, html_escape(incident.source_ip.as_str()).as_str());
    push_str(&mut out, "</strong>.</p><table><tr><th align=\"left\">Source IP</th><td>");
    push_str(&mut out, html_escape(incident.source_ip.as_str()).as_str());
    push_str(&mut out, "</td></tr><tr><th align=\"left\">Last seen</th><td>");
    push_str(&mut out, html_escape(incident.detected_at.as_str()).as_str());
    push_str(&mut out, "</td></tr><tr><th align=\"left\">Failures</th><td>");
    push_str(&mut out, i64_text(incident.failure_count).as_str());
    push_str(&mut out, " HTTP 401/403 responses in the last ");
    push_str(&mut out, i64_text(window).as_str());
    push_str(&mut out, " minutes</td></tr><tr><th align=\"left\">Network</th><td>");
    push_str(&mut out, html_escape(or_string(&whois.network_name, "unknown").as_str()).as_str());
    push_str(&mut out, "</td></tr><tr><th align=\"left\">Organization</th><td>");
    push_str(&mut out, html_escape(or_string(&whois.organization, "unknown").as_str()).as_str());
    push_str(&mut out, "</td></tr><tr><th align=\"left\">Country</th><td>");
    push_str(&mut out, html_escape(or_string(&whois.country, "unknown").as_str()).as_str());
    push_str(&mut out, "</td></tr><tr><th align=\"left\">Address range</th><td>");
    push_str(&mut out, html_escape(address_range(whois).as_str()).as_str());
    push_str(&mut out, "</td></tr><tr><th align=\"left\">RDAP source</th><td>");
    push_str(&mut out, html_escape(or_string(&whois.registry_url, "unavailable").as_str()).as_str());
    push_str(&mut out, "</td></tr></table>");
    out
}

fn evidence_text(details: Option<&JsonValue>) -> (r: String)
    ensures
        r@ == report_evidence_text(match details { Some(d) => Some(d@), None => None }),
{
    let mut out = detail_pair_text(details, "status_breakdown", "Status breakdown");
    push_str(&mut out, detail_pair_text(details, "methods", "Methods").as_str());
    push_str(&mut out, detail_pair_text(details, "target_hosts", "Targeted hosts").as_str());
    push_str(&mut out, detail_pair_text(details, "top_paths", "Top requested paths").as_str());
    out
}

fn evidence_html(details: Option<&JsonValue>) -> (r: String)
    ensures
        r@ == report_evidence_html(match details { Some(d) => Some(d@), None => None }),
{
    let mut out = detail_pair_html(details, "status_breakdown", "Status breakdown");
    push_str(&mut out, detail_pair_html(details, "methods", "Methods").as_str());
    push_str(&mut out, detail_pair_html(details, "target_hosts", "Targeted hosts").as_str());
    push_str(&mut out, detail_pair_html(details, "top_paths", "Top requested paths").as_str());
    out
}

/// The abuse report for an incident whose details parsed as `details`: to
/// `recipients`, with the registry's facts, the evidence metrics, the AI
/// inspection when given, and the raw log sample, in text and HTML.
pub fn build_abuse_report_email(
    incident: &IncidentDb,
    details: Option<&JsonValue>,
    whois: &WhoisInfo,
    recipients: Vec<String>,
    sender_name: &str,
    log_evidence: &[LogEvidenceEvent],
    ai_inspection: Option<&AiInspectionReportContext>,
) -> (r: AbuseReportEmail)
    ensures
        r.recipients == recipients,
        r.subject@ == "Abuse report: suspicious traffic from "@ + incident.source_ip@ + " toward monitored services"@,
        r.text_body@ == report_text_body(
            report_sender(sender_name@),
            *incident,
            match details { Some(d) => Some(d@), None => None },
            *whois,
            log_evidence@,
            match ai_inspection { Some(c) => Some(*c), None => None },
        ),
        r.html_body@ == report_html_body(
            report_sender(sender_name@),
            *incident,
            match details { Some(d) => Some(d@), None => None },
            *whois,
            log_evidence@,
            match ai_inspection { Some(c) => Some(*c), None => None },
        ),
        r.custom_id matches Some(c) && c@ == incident.id@,
{
    let window = window_minutes(details);
    let trimmed = trim_str(sender_name);
    let sender = if trimmed.as_str().unicode_len() == 0 {
        own("DevOps Agent")
    } else {
        trimmed
    };
    let mut subject = own("Abuse report: suspicious traffic from ");
    push_str(&mut subject, incident.source_ip.as_str());
    push_str(&mut subject, " toward monitored services");
    let mut text_body = facts_text(sender.as_str(), incident, window, whois);
    push_str(&mut text_body, "Evidence summary:\n");
    push_str(&mut text_body, evidence_text(details).as_str());
    push_str(&mut text_body, "\n");
    push_str(&mut text_body, ai_inspection_report_text(ai_inspection).as_str());
    push_str(&mut text_body, "Raw log sample:\n");
    push_str(&mut text_body, raw_log_evidence_text(log_evidence).as_str());
    push_str(&mut text_body, "\nPlease investigate this source and take appropriate action.\n\nRegards,\n");
    push_str(&mut text_body, sender.as_str());
    push_str(&mut text_body, "\n");
    let mut html_body = facts_html(sender.as_str(), incident, window, whois);
    push_str(&mut html_body, "<h3>Evidence summary</h3>");
    push_str(&mut html_body, evidence_html(details).as_str());
    push_str(&mut html_body, ai_inspection_report_html(ai_inspection).as_str());
    push_str(&mut html_body, "<h3>Raw log sample</h3>");
    push_str(&mut html_body, raw_log_evidence_html(log_evidence).as_str());
    push_str(&mut html_body, "<p>Please investigate this source and take appropriate action.</p><p>Regards,<br>");
    push_str(&mut html_body, html_escape(sender.as_str()).as_str());
    push_str(&mut html_body, "</p>");
    AbuseReportEmail { recipients, subject, text_body, html_body, custom_id: Some(incident.id.clone()) }
}


/// A recommendation for an incident.
#[derive(Debug, Clone)]
pub struct RecommendationResponse {
    pub incident_id: String,
    pub recommendation: String,
    pub action_type: String,
}

/// The string names of the first `n` `[name, count]` items.
pub open spec fn path_names(items: Seq<Json>, n: int) -> Seq<Seq<char>>
    decreases n,
{
    if n <= 0 || n > items.len() {
        seq![]
    } else {
        path_names(items, n - 1) + match items[n - 1].element(0) {
            Some(Json::Str(s)) => seq![s],
            _ => seq![],
        }
    }
}

/// The first three requested paths of an incident's details.
pub open spec fn top_paths_of(d: Option<Json>) -> Seq<Seq<char>> {
    let items = detail_items(d, "top_paths"@);
    let names = path_names(items, items.len() as int);
    names.take(at_most(names.len() as int, 3))
}

/// A path that probes for secrets, credentials or configuration.
pub open spec fn sensitive_path(p: Seq<char>) -> bool {
    let l = unicode_lower(p);
    ||| contains(l, ".env"@)
    ||| contains(l, "credential"@)
    ||| contains(l, ".aws"@)
    ||| contains(l, ".git"@)
    ||| contains(l, "phpinfo"@)
    ||| contains(l, "wp-login"@)
}

/// The recommended action and its explanation for an incident.
pub open spec fn recommendation_of(i: IncidentDb, d: Option<Json>) -> (Seq<char>, Seq<char>) {
    let paths = top_paths_of(d);
    let ip = i.source_ip@;
    let n = decimal_int(i.failure_count as int);
    if exists|k: int| 0 <= k < paths.len() && sensitive_path(#[trigger] paths[k]) {
        (
            "block"@,
            ip + " sent "@ + n + " auth-failed requests probing sensitive paths ("@ + join_seq(paths, ", "@)
                + "). This is credential/secret scanning — recommend blocking the IP."@,
        )
    } else if i.failure_count >= 100 {
        ("block"@, ip + " generated "@ + n + " authentication failures — high-volume brute force. Recommend blocking the IP."@)
    } else {
        (
            "review"@,
            ip + " generated "@ + n
                + " authentication failures in the detection window. Review activity before deciding."@,
        )
    }
}

fn is_sensitive_path(p: &str) -> (r: bool)
    ensures
        r == sensitive_path(p@),
{
    let l = to_lowercase(p);
    let l = l.as_str();
    str_contains(l, ".env") || str_contains(l, "credential") || str_contains(l, ".aws") || str_contains(l, ".git")
        || str_contains(l, "phpinfo") || str_contains(l, "wp-login")
}

/// A heuristic recommendation from an incident's metrics (its details as
/// parsed JSON): block credential or secret scanning and high-volume brute
/// force, review anything else.
pub fn build_recommendation(incident: &IncidentDb, details: Option<&JsonValue>) -> (r: RecommendationResponse)
    ensures
        r.incident_id@ == incident.id@,
        r.action_type@ == recommendation_of(*incident, match details { Some(d) => Some(d@), None => None }).0,
        r.recommendation@ == recommendation_of(*incident, match details { Some(d) => Some(d@), None => None }).1,
{
    let ghost d = match details {
        Some(d) => Some(d@),
        None => None,
    };
    let mut names: Vec<String> = Vec::new();
    match detail_array(details, "top_paths") {
        Some(items) => {
            let ghost its = items_view(items@, items@.len() as int);
            proof {
                lemma_items_view(items@, items@.len() as int);
            }
            let mut i: usize = 0;
            while i < items.len()
                invariant
                    its == items_view(items@, items@.len() as int),
                    its == detail_items(d, "top_paths"@),
                    its.len() == items.len(),
                    forall|k: int| 0 <= k < items.len() ==> #[trigger] its[k] == items@[k]@,
                    i <= items.len(),
                    texts(names@) == path_names(its, i as int),
                decreases items.len() - i,
            {
                match items[i].at(0) {
                    Some(JsonValue::String(s)) => {
                        let c = s.clone();
                        let ghost before = names@;
                        names.push(c);
                        proof {
                            lemma_texts_push(before, c);
                        }
                    },
                    _ => {
                        assert(path_names(its, i + 1) =~= path_names(its, i as int) + seq![]);
                    },
                }
                i = i + 1;
            }
        },
        None => {
            assert(texts(names@) =~= path_names(detail_items(d, "top_paths"@), 0));
        },
    }
    names.truncate(3);
    let ghost paths = texts(names@);
    assert(paths == top_paths_of(d));
    let mut sensitive = false;
    let mut k: usize = 0;
    while k < names.len()
        invariant
            paths == texts(names@),
            k <= names.len(),
            sensitive <==> exists|m: int| 0 <= m < k && sensitive_path(#[trigger] paths[m]),
        decreases names.len() - k,
    {
        assert(paths[k as int] == names@[k as int]@);
        if is_sensitive_path(names[k].as_str()) {
            sensitive = true;
        }
        k = k + 1;
    }
    let ip = incident.source_ip.as_str();
    let n = i64_text(incident.failure_count);
    let (action_type, recommendation) = if sensitive {
        let mut m = own(ip);
        push_str(&mut m, " sent ");
        push_str(&mut m, n.as_str());
        push_str(&mut m, " auth-failed requests probing sensitive paths (");
        push_str(&mut m, join_strings(&names, ", ").as_str());
        push_str(&mut m, "). This is credential/secret scanning — recommend blocking the IP.");
        (own("block"), m)
    } else if incident.failure_count >= 100 {
        let mut m = own(ip);
        push_str(&mut m, " generated ");
        push_str(&mut m, n.as_str());
        push_str(&mut m, " authentication failures — high-volume brute force. Recommend blocking the IP.");
        (own("block"), m)
    } else {
        let mut m = own(ip);
        push_str(&mut m, " generated ");
        push_str(&mut m, n.as_str());
        push_str(&mut m, " authentication failures in the detection window. Review activity before deciding.");
        (own("review"), m)
    };
    RecommendationResponse { incident_id: incident.id.clone(), recommendation, action_type }
}

/// An incident as the console lists it.
#[derive(Debug)]
pub struct IncidentResponse {
    pub id: String,
    pub source_ip: String,
    pub detected_at: String,
    pub status: String,
    pub failure_count: i64,
    pub action_type: Option<String>,
    pub action_status: Option<String>,
    pub report_status: Option<String>,
    pub report_sent_at: Option<String>,
    pub report_last_attempt_at: Option<String>,
    pub cluster_blocked: Option<bool>,
    pub block_applied: bool,
    pub details: Option<JsonValue>,
}

/// Whether the block counts as applied: what the cluster says when it was
/// asked, else whether the block action completed.
pub open spec fn block_applied_of(cluster_blocked: Option<bool>, block_action: Option<ActionDb>) -> bool {
    match cluster_blocked {
        Some(b) => b,
        None => match block_action {
            Some(a) => a.status@ == "completed"@,
            None => false,
        },
    }
}

impl IncidentResponse {
    /// The listing of an incident (its details parsed as `details`) with its
    /// latest block action, latest and latest sent report actions, and what
    /// the cluster says of the block.
    pub fn from_incident_and_action(
        incident: IncidentDb,
        details: Option<JsonValue>,
        block_action: Option<ActionDb>,
        report_action: Option<ActionDb>,
        sent_report_action: Option<ActionDb>,
        cluster_blocked: Option<bool>,
    ) -> (r: IncidentResponse)
        ensures
            r.id == incident.id,
            r.source_ip == incident.source_ip,
            r.detected_at == incident.detected_at,
            r.status == incident.status,
            r.failure_count == incident.failure_count,
            r.action_type == (match block_action { Some(a) => Some(a.action_type), None => None }),
            r.action_status == (match block_action { Some(a) => Some(a.status), None => None }),
            r.report_status == (match report_action { Some(a) => Some(a.status), None => None }),
            r.report_last_attempt_at == (match report_action { Some(a) => Some(a.updated_at), None => None }),
            r.report_sent_at == (match sent_report_action { Some(a) => Some(a.updated_at), None => None }),
            r.cluster_blocked == cluster_blocked,
            r.block_applied == block_applied_of(cluster_blocked, block_action),
            r.details == details,
    {
        let (action_type, action_status, completed) = match block_action {
            Some(a) => {
                let done = str_eq(a.status.as_str(), "completed");
                (Some(a.action_type), Some(a.status), done)
            },
            None => (None, None, false),
        };
        let (report_status, report_last_attempt_at) = match report_action {
            Some(a) => (Some(a.status), Some(a.updated_at)),
            None => (None, None),
        };
        let report_sent_at = match sent_report_action {
            Some(a) => Some(a.updated_at),
            None => None,
        };
        let block_applied = match cluster_blocked {
            Some(b) => b,
            None => completed,
        };
        IncidentResponse {
            id: incident.id,
            source_ip: incident.source_ip,
            detected_at: incident.detected_at,
            status: incident.status,
            failure_count: incident.failure_count,
            action_type,
            action_status,
            report_status,
            report_sent_at,
            report_last_attempt_at,
            cluster_blocked,
            block_applied,
            details,
        }
    }
}


/// An allowlisted address as the console shows it.
#[derive(Debug, Clone)]
pub struct AllowlistIpResponse {
    pub id: i64,
    pub ip: String,
    pub description: Option<String>,
    pub created_at: String,
    pub updated_at: String,
}

impl From<AllowlistIp> for AllowlistIpResponse {
    fn from(ip: AllowlistIp) -> (r: Self) {
        AllowlistIpResponse {
            id: ip.id,
            ip: ip.ip,
            description: ip.description,
            created_at: ip.created_at,
            updated_at: ip.updated_at,
        }
    }
}

impl vstd::std_specs::convert::FromSpecImpl<AllowlistIp> for AllowlistIpResponse {
    open spec fn obeys_from_spec() -> bool {
        true
    }

    open spec fn from_spec(ip: AllowlistIp) -> Self {
        AllowlistIpResponse {
            id: ip.id,
            ip: ip.ip,
            description: ip.description,
            created_at: ip.created_at,
            updated_at: ip.updated_at,
        }
    }
}

/// A request to allowlist an address.
#[derive(Debug, Clone)]
pub struct AddAllowlistIpRequest {
    pub ip: String,
    pub description: Option<String>,
}

/// The envelope of every console reply.
#[derive(Debug, Clone)]
pub struct ApiResponse<T> {
    pub success: bool,
    pub data: Option<T>,
    pub message: Option<String>,
}

impl<T> ApiResponse<T> {
    /// A successful reply carrying `data`.
    pub fn new(data: T) -> (r: Self)
        ensures
            r.success,
            r.data == Some(data),
            r.message is None,
    {
        ApiResponse { success: true, data: Some(data), message: None }
    }
}

/// A message for the agent chat.
#[derive(Debug, Clone)]
pub struct AgentChatRequest {
    pub message: String,
}

/// Why an address given for the allowlist is refused: it is empty, or it is
/// no IP address (`family` is the address family that `ip` parses to).
pub open spec fn allowlist_ip_problem(ip: Seq<char>, family: Option<IpFamily>) -> Option<Seq<char>> {
    if ip.len() == 0 {
        Some("IP address is required"@)
    } else if family is None {
        Some("Invalid IP address format"@)
    } else {
        None
    }
}

/// Checks an address given for the allowlist, returning the message of the
/// refusal.
pub fn check_allowlist_ip(ip: &str, family: Option<IpFamily>) -> (r: Result<(), String>)
    ensures
        match allowlist_ip_problem(ip@, family) {
            Some(m) => r matches Err(e) && e@ == m,
            None => r is Ok,
        },
{
    let v = chars_of(ip);
    if v.len() == 0 {
        return Err(own("IP address is required"));
    }
    match family {
        None => Err(own("Invalid IP address format")),
        Some(_) => Ok(()),
    }
}


/// A worksheet of the spreadsheet crate.
#[verifier::external_type_specification]
#[verifier::external_body]
pub struct ExWorksheet(rust_xlsxwriter::Worksheet);

/// A workbook of the spreadsheet crate.
#[verifier::external_type_specification]
#[verifier::external_body]
pub struct ExWorkbook(rust_xlsxwriter::Workbook);

/// The spreadsheet crate's error.
#[verifier::external_type_specification]
#[verifier::external_body]
pub struct ExXlsxError(rust_xlsxwriter::XlsxError);

/// A sheet name Excel accepts: 1 to 31 characters, none of `*?:[]\/`, and
/// no apostrophe at either end.
pub open spec fn sheet_name_ok(n: Seq<char>) -> bool {
    &&& 0 < n.len() <= 31
    &&& forall|i: int|
        0 <= i < n.len() ==> !(n[i] == '*' || n[i] == '?' || n[i] == ':' || n[i] == '[' || n[i] == ']'
            || n[i] == '\\' || n[i] == '/')
    &&& n[0] != '\''
    &&& n[n.len() - 1] != '\''
}

/// A cell that `Worksheet::write_string` stores: an empty text is skipped,
/// else the row must be below 1048576, the column below 16384 and the text
/// at most 32767 characters long.
pub open spec fn cell_accepted(row: int, col: int, t: Seq<char>) -> bool {
    t.len() == 0 || (row < 1048576 && col < 16384 && t.len() <= 32767)
}

/// The text cells a worksheet holds, by (row, column).
pub uninterp spec fn sheet_cells(s: rust_xlsxwriter::Worksheet) -> Map<(int, int), Seq<char>>;

/// The name a worksheet carries (empty until one is set).
pub uninterp spec fn sheet_title(s: rust_xlsxwriter::Worksheet) -> Seq<char>;

/// The worksheets of a workbook, in order, each by its name and its text cells.
pub uninterp spec fn book_sheets(b: rust_xlsxwriter::Workbook) -> Seq<(Seq<char>, Map<(int, int), Seq<char>>)>;

/// Holds when `bytes` is an xlsx file whose worksheets, in order, have these
/// names and text cells. The file also records when it was made, so the
/// bytes are not a function of the sheets and get no name of their own.
pub uninterp spec fn xlsx_holds(bytes: Seq<u8>, sheets: Seq<(Seq<char>, Map<(int, int), Seq<char>>)>) -> bool;

/// A sheet without cells.
pub open spec fn no_cells() -> Map<(int, int), Seq<char>> {
    Map::empty()
}

/// `Worksheet::new`: a worksheet with no name and no cells.
#[verifier::external_body]
fn new_worksheet() -> (r: rust_xlsxwriter::Worksheet)
    ensures
        sheet_cells(r) == no_cells(),
        sheet_title(r).len() == 0,
{
    rust_xlsxwriter::Worksheet::new()
}

/// `Worksheet::set_name`: succeeds exactly on the names Excel accepts and
/// then carries that name; the cells stay, and a refused name changes nothing.
#[verifier::external_body]
fn set_sheet_name(sheet: &mut rust_xlsxwriter::Worksheet, name: &str) -> (r: Result<(), rust_xlsxwriter::XlsxError>)
    ensures
        r is Ok <==> sheet_name_ok(name@),
        sheet_cells(*final(sheet)) == sheet_cells(*old(sheet)),
        sheet_title(*final(sheet)) == (if r is Ok { name@ } else { sheet_title(*old(sheet)) }),
{
    match sheet.set_name(name) {
        Ok(_) => Ok(()),
        Err(e) => Err(e),
    }
}

/// `Worksheet::write_string`: fails exactly when the cell is refused; an
/// accepted non-empty text is stored at (row, col), an empty one is skipped,
/// and a refusal changes no cell. The name stays.
#[verifier::external_body]
fn write_cell(sheet: &mut rust_xlsxwriter::Worksheet, row: u32, col: u16, text: &str) -> (r: Result<
    (),
    rust_xlsxwriter::XlsxError,
>)
    ensures
        r is Ok <==> cell_accepted(row as int, col as int, text@),
        sheet_title(*final(sheet)) == sheet_title(*old(sheet)),
        sheet_cells(*final(sheet)) == (if r is Ok && text@.len() > 0 {
            sheet_cells(*old(sheet)).insert((row as int, col as int), text@)
        } else {
            sheet_cells(*old(sheet))
        }),
{
    match sheet.write_string(row, col, text) {
        Ok(_) => Ok(()),
        Err(e) => Err(e),
    }
}

/// `Worksheet::autofit`: sizes the columns to their contents; the cells and
/// the name stay.
#[verifier::external_body]
fn autofit_sheet(sheet: &mut rust_xlsxwriter::Worksheet)
    ensures
        sheet_cells(*final(sheet)) == sheet_cells(*old(sheet)),
        sheet_title(*final(sheet)) == sheet_title(*old(sheet)),
{
    sheet.autofit();
}

/// `Workbook::new`: a workbook with no worksheet.
#[verifier::external_body]
fn new_workbook() -> (r: rust_xlsxwriter::Workbook)
    ensures
        book_sheets(r).len() == 0,
{
    rust_xlsxwriter::Workbook::new()
}

/// `Workbook::push_worksheet`: appends the worksheet; a named one keeps its
/// name (an unnamed one is given `SheetN`, which is not stated here).
#[verifier::external_body]
fn push_sheet(book: &mut rust_xlsxwriter::Workbook, sheet: rust_xlsxwriter::Worksheet)
    ensures
        sheet_title(sheet).len() > 0 ==> book_sheets(*final(book)) == book_sheets(*old(book)).push(
            (sheet_title(sheet), sheet_cells(sheet)),
        ),
{
    book.push_worksheet(sheet);
}

/// `Workbook::save_to_buffer`: on success, the bytes are an xlsx file holding
/// the workbook's worksheets (stated for a workbook with at least one; an
/// empty one is given a blank sheet). Whether saving fails rests on the zip
/// and I/O layers of the crate and is not stated.
#[verifier::external_body]
fn save_workbook(book: &mut rust_xlsxwriter::Workbook) -> (r: Result<Vec<u8>, rust_xlsxwriter::XlsxError>)
    ensures
        book_sheets(*old(book)).len() > 0 && r is Ok ==> xlsx_holds(r->Ok_0@, book_sheets(*old(book))),
{
    book.save_to_buffer()
}

/// The display text of a spreadsheet error, as the crate writes it; nothing
/// is stated of it.
#[verifier::external_body]
fn xlsx_error_text(e: &rust_xlsxwriter::XlsxError) -> (r: String) {
    format!("{}", e)
}

/// Row `r` of the export: the column names in row 0, entry `r - 1` below.
pub open spec fn block_list_line(entries: Seq<BlockListEntry>, r: int) -> Seq<Seq<char>> {
    if r == 0 {
        block_list_columns()
    } else {
        block_list_fields(entries[r - 1])
    }
}

/// Every cell of the export (header row, then one row per entry) is one that
/// the spreadsheet accepts.
pub open spec fn block_list_cells_fit(entries: Seq<BlockListEntry>) -> bool {
    forall|i: int, j: int|
        0 <= i <= entries.len() && 0 <= j < 12 ==> cell_accepted(i, j, #[trigger] block_list_line(entries, i)[j])
}

/// The non-empty cells of the export that come before (row, col) in row order.
pub open spec fn block_list_cells_before(entries: Seq<BlockListEntry>, row: int, col: int) -> Map<(int, int), Seq<char>> {
    Map::new(
        |rc: (int, int)|
            (rc.0 < row || (rc.0 == row && rc.1 < col)) && 0 <= rc.0 <= entries.len() && 0 <= rc.1 < 12
                && block_list_line(entries, rc.0)[rc.1].len() > 0,
        |rc: (int, int)| block_list_line(entries, rc.0)[rc.1],
    )
}

/// The text cells of the export sheet: the column names in row 0 and the
/// fields of entry `i` in row `i + 1`; empty texts leave no cell.
pub open spec fn block_list_cells(entries: Seq<BlockListEntry>) -> Map<(int, int), Seq<char>> {
    block_list_cells_before(entries, entries.len() + 1int, 0)
}

/// The workbook of the export: the one sheet "Block list" with its cells.
pub open spec fn block_list_book(entries: Seq<BlockListEntry>) -> Seq<(Seq<char>, Map<(int, int), Seq<char>>)> {
    seq![("Block list"@, block_list_cells(entries))]
}

/// Builds the block-list workbook: one sheet, "Block list", with the column
/// names in row 0 and an entry per row below. It fails exactly when a cell is
/// one the spreadsheet refuses.
pub fn block_list_workbook(entries: &[BlockListEntry]) -> (r: Result<rust_xlsxwriter::Workbook, rust_xlsxwriter::XlsxError>)
    requires
        entries@.len() < 4294967295,
    ensures
        r is Ok <==> block_list_cells_fit(entries@),
        r is Ok ==> book_sheets(r->Ok_0) == block_list_book(entries@),
{
    let mut sheet = new_worksheet();
    proof {
        reveal_strlit("Block list");
        assert(sheet_name_ok("Block list"@));
    }
    match set_sheet_name(&mut sheet, "Block list") {
        Ok(()) => {},
        Err(e) => {
            return Err(e);
        },
    }
    assert(sheet_cells(sheet) =~= block_list_cells_before(entries@, 0, 0));
    let n: usize = entries.len();
    let mut i: usize = 0;
    while i <= n
        invariant
            n == entries@.len(),
            n < 4294967295,
            i <= n + 1,
            sheet_title(sheet) == "Block list"@,
            sheet_cells(sheet) == block_list_cells_before(entries@, i as int, 0),
            forall|a: int, c: int|
                0 <= a < i && 0 <= c < 12 ==> cell_accepted(a, c, #[trigger] block_list_line(entries@, a)[c]),
        decreases n + 1 - i,
    {
        let line = if i == 0 {
            block_list_headers()
        } else {
            block_list_row(&entries[i - 1])
        };
        assert(texts(line@) == block_list_line(entries@, i as int));
        assert(line@.len() == 12) by {
            assert(texts(line@).len() == 12);
        }
        let mut j: usize = 0;
        while j < line.len()
            invariant
                n == entries@.len(),
                n < 4294967295,
                i <= n,
                texts(line@) == block_list_line(entries@, i as int),
                line@.len() == 12,
                j <= line@.len(),
                sheet_title(sheet) == "Block list"@,
                sheet_cells(sheet) == block_list_cells_before(entries@, i as int, j as int),
                forall|a: int, c: int|
                    0 <= a < i && 0 <= c < 12 ==> cell_accepted(a, c, #[trigger] block_list_line(entries@, a)[c]),
                forall|c: int| 0 <= c < j ==> cell_accepted(i as int, c, #[trigger] block_list_line(entries@, i as int)[c]),
            decreases line@.len() - j,
        {
            let ghost before = sheet_cells(sheet);
            let ok = write_cell(&mut sheet, i as u32, j as u16, line[j].as_str());
            assert(line@[j as int]@ == block_list_line(entries@, i as int)[j as int]) by {
                assert(texts(line@)[j as int] == line@[j as int]@);
            }
            match ok {
                Ok(()) => {},
                Err(e) => {
                    assert(!cell_accepted(i as int, j as int, block_list_line(entries@, i as int)[j as int]));
                    return Err(e);
                },
            }
            assert(sheet_cells(sheet) =~= block_list_cells_before(entries@, i as int, j + 1));
            j = j + 1;
        }
        assert(block_list_cells_before(entries@, i as int, 12) =~= block_list_cells_before(entries@, i + 1, 0));
        i = i + 1;
    }
    autofit_sheet(&mut sheet);
    let mut book = new_workbook();
    push_sheet(&mut book, sheet);
    assert(book_sheets(book) =~= block_list_book(entries@));
    Ok(book)
}

/// Renders the block list as xlsx bytes: the workbook of
/// `block_list_workbook`, saved. A refused cell, or a failed save, gives the
/// crate's error text.
pub fn render_block_list_xlsx(entries: &[BlockListEntry]) -> (r: Result<Vec<u8>, String>)
    requires
        entries@.len() < 4294967295,
    ensures
        !block_list_cells_fit(entries@) ==> r is Err,
        r is Ok ==> block_list_cells_fit(entries@) && xlsx_holds(r->Ok_0@, block_list_book(entries@)),
{
    match block_list_workbook(entries) {
        Err(e) => Err(xlsx_error_text(&e)),
        Ok(book) => {
            let mut book = book;
            match save_workbook(&mut book) {
                Ok(bytes) => Ok(bytes),
                Err(e) => Err(xlsx_error_text(&e)),
            }
        },
    }
}

} // verus!
