//! Compilation metrics: a page per metrics record, and a global page of the
//! failures when any compilation failed.
use vstd::prelude::*;

use crate::intermediate::{entry_compile_id, IntermediateEntry, IntermediateFileType};
use crate::json::{json_get, or_default, str_field, JsonNumber, JsonValue};
use crate::modules::context::{stream_records, ModuleContext};
use crate::modules::symbolic_shapes::array_items;
use crate::modules::{
    add_unit_file, entries_view, files_view, gather, lemma_gather_all, lemma_gather_step,
    unit_key, unit_key_of, unit_path, DirectoryEntries, IndexContribution, Module, ModuleError,
    ModuleOutput,
};
use crate::json::string_elements;
use crate::text::{
    decimal, escape_html, html_escaped, i64_to_decimal, push_text, signed_decimal, str_eq,
    u64_to_decimal,
};

verus! {

/// The text of a number as the log wrote it.
pub open spec fn number_text(v: JsonValue) -> Option<Seq<char>> {
    match v {
        JsonValue::Number(JsonNumber::Unsigned(n)) => Some(decimal(n as nat)),
        JsonValue::Number(JsonNumber::Signed(n)) => Some(signed_decimal(n as int)),
        JsonValue::Number(JsonNumber::Decimal(t)) => Some(t@),
        _ => None,
    }
}

/// The text of the number member `key`.
pub open spec fn number_field(m: JsonValue, key: Seq<char>) -> Option<Seq<char>> {
    match json_get(m, key) {
        Some(v) => number_text(v),
        None => None,
    }
}

pub fn number_field_text(m: &JsonValue, key: &str) -> (r: Option<String>)
    ensures
        r matches Some(t) ==> number_field(*m, key@) == Some(t@),
        r is None ==> number_field(*m, key@) is None,
{
    match m.get(key) {
        Some(JsonValue::Number(JsonNumber::Unsigned(n))) => Some(u64_to_decimal(*n)),
        Some(JsonValue::Number(JsonNumber::Signed(n))) => Some(i64_to_decimal(*n)),
        Some(JsonValue::Number(JsonNumber::Decimal(t))) => Some(t.clone()),
        _ => None,
    }
}

/// A table row.
pub open spec fn row(label: Seq<char>, value: Seq<char>) -> Seq<char> {
    "<tr><th>"@ + label + "</th><td>"@ + value + "</td></tr>\n"@
}

/// A row for a present value, nothing otherwise.
pub open spec fn opt_row(label: Seq<char>, value: Option<Seq<char>>) -> Seq<char> {
    match value {
        Some(v) => row(label, v),
        None => Seq::empty(),
    }
}

pub open spec fn escaped_opt(v: Option<Seq<char>>) -> Option<Seq<char>> {
    match v {
        Some(t) => Some(html_escaped(t)),
        None => None,
    }
}

pub open spec fn seconds_opt(v: Option<Seq<char>>) -> Option<Seq<char>> {
    match v {
        Some(t) => Some(t + "s"@),
        None => None,
    }
}

fn push_row(html: &mut String, label: &str, value: &str)
    ensures
        final(html)@ == old(html)@ + row(label@, value@),
{
    push_text(html, "<tr><th>");
    push_text(html, label);
    push_text(html, "</th><td>");
    push_text(html, value);
    push_text(html, "</td></tr>\n");
    assert(html@ =~= old(html)@ + row(label@, value@));
}

/// A row with the escaped string member `key`, if present.
fn push_text_row(html: &mut String, label: &str, m: &JsonValue, key: &str)
    ensures
        final(html)@ == old(html)@ + opt_row(label@, escaped_opt(str_field(*m, key@))),
{
    match m.get_str(key) {
        Some(v) => {
            let e = escape_html(v);
            push_row(html, label, e.as_str());
        },
        None => {
            assert(html@ =~= old(html)@ + opt_row(label@, escaped_opt(str_field(*m, key@))));
        },
    }
}

/// A row with the number member `key`, if present.
fn push_number_row(html: &mut String, label: &str, m: &JsonValue, key: &str)
    ensures
        final(html)@ == old(html)@ + opt_row(label@, number_field(*m, key@)),
{
    match number_field_text(m, key) {
        Some(v) => push_row(html, label, v.as_str()),
        None => {
            assert(html@ =~= old(html)@ + opt_row(label@, number_field(*m, key@)));
        },
    }
}

/// A row with the number member `key` in seconds, if present.
fn push_seconds_row(html: &mut String, label: &str, m: &JsonValue, key: &str)
    ensures
        final(html)@ == old(html)@ + opt_row(label@, seconds_opt(number_field(*m, key@))),
{
    match number_field_text(m, key) {
        Some(v) => {
            let mut t = v;
            t.append("s");
            push_row(html, label, t.as_str());
        },
        None => {
            assert(html@ =~= old(html)@ + opt_row(label@, seconds_opt(number_field(*m, key@))));
        },
    }
}

pub const METRICS_HEAD: &'static str = "<!DOCTYPE html>\n<html>\n<head>\n<title>Compilation Metrics</title>\n<style>\nbody { font-family: -apple-system, BlinkMacSystemFont, \"Segoe UI\", Roboto, sans-serif; margin: 20px; }\ntable { border-collapse: collapse; margin-bottom: 20px; }\nth, td { border: 1px solid #ddd; padding: 8px; text-align: left; }\nth { background-color: #f5f5f5; width: 200px; }\n.error { color: #dc3545; }\n.success { color: #28a745; }\n.warning { color: #ffc107; }\npre { background: #f8f8f8; padding: 10px; overflow-x: auto; }\ndetails { margin: 10px 0; }\nsummary { cursor: pointer; font-weight: bold; }\n</style>\n</head>\n<body>\n";

pub const BWD_METRICS_HEAD: &'static str = "<!DOCTYPE html>\n<html>\n<head>\n<title>Backward Compilation Metrics</title>\n<style>\nbody { font-family: -apple-system, BlinkMacSystemFont, \"Segoe UI\", Roboto, sans-serif; margin: 20px; }\ntable { border-collapse: collapse; }\nth, td { border: 1px solid #ddd; padding: 8px; text-align: left; }\nth { background-color: #f5f5f5; width: 200px; }\n.error { color: #dc3545; }\npre { background: #f8f8f8; padding: 10px; overflow-x: auto; }\n</style>\n</head>\n<body>\n";

pub const AOT_METRICS_HEAD: &'static str = "<!DOCTYPE html>\n<html>\n<head>\n<title>AOT Autograd Backward Compilation Metrics</title>\n<style>\nbody { font-family: -apple-system, BlinkMacSystemFont, \"Segoe UI\", Roboto, sans-serif; margin: 20px; }\ntable { border-collapse: collapse; }\nth, td { border: 1px solid #ddd; padding: 8px; text-align: left; }\nth { background-color: #f5f5f5; width: 200px; }\n.error { color: #dc3545; }\npre { background: #f8f8f8; padding: 10px; overflow-x: auto; }\n</style>\n</head>\n<body>\n";

pub const FAILURES_HEAD: &'static str = "<!DOCTYPE html>\n<html>\n<head>\n<title>Failures and Restarts</title>\n<style>\nbody { font-family: -apple-system, BlinkMacSystemFont, \"Segoe UI\", Roboto, sans-serif; margin: 20px; }\ntable { border-collapse: collapse; width: 100%; }\nth, td { border: 1px solid #ddd; padding: 8px; text-align: left; }\nth { background-color: #f5f5f5; }\ntr:nth-child(even) { background-color: #fafafa; }\n.error { color: #dc3545; }\npre { margin: 0; white-space: pre-wrap; word-wrap: break-word; font-size: 12px; }\n</style>\n</head>\n<body>\n<h1>Failures and Restarts</h1>\n<p>Found ";

pub const FAILURES_TABLE_HEAD: &'static str = "<table>\n<thead>\n<tr>\n<th>Compile ID</th>\n<th>Function</th>\n<th>Failure Type</th>\n<th>Reason</th>\n</tr>\n</thead>\n<tbody>\n";

/// A symbolic-shape specialization of a compile id.
pub struct Specialization {
    pub symbol: Option<String>,
    pub value: Option<String>,
    pub reason: Option<String>,
}

pub open spec fn text_opt(o: Option<String>) -> Option<Seq<char>> {
    match o {
        Some(s) => Some(s@),
        None => None,
    }
}

/// What a specialization record of a compile id says: compile id, symbol,
/// value and reason.
pub open spec fn specialization_of(e: IntermediateEntry) -> Seq<
    (Seq<char>, Option<Seq<char>>, Option<Seq<char>>, Option<Seq<char>>),
> {
    if e.entry_type@ == "symbolic_shape_specialization"@ && e.compile_id is Some {
        seq![
            (
                e.compile_id.unwrap()@,
                str_field(e.metadata, "symbol"@),
                str_field(e.metadata, "value"@),
                str_field(e.metadata, "reason"@),
            ),
        ]
    } else {
        Seq::empty()
    }
}

pub open spec fn specialization_view(p: (String, Specialization)) -> (Seq<char>, Option<Seq<char>>, Option<Seq<char>>, Option<Seq<char>>) {
    (p.0@, text_opt(p.1.symbol), text_opt(p.1.value), text_opt(p.1.reason))
}

/// The specialization rows of compile id `cid`.
pub open spec fn specialization_rows(
    index: Seq<(Seq<char>, Option<Seq<char>>, Option<Seq<char>>, Option<Seq<char>>)>,
    cid: Seq<char>,
) -> Seq<char>
    decreases index.len(),
{
    if index.len() == 0 {
        Seq::empty()
    } else {
        let rest = specialization_rows(index.drop_last(), cid);
        let x = index.last();
        if x.0 == cid {
            rest + "<tr><td>"@ + html_escaped(or_default(x.1, Seq::empty())) + "</td><td>"@
                + html_escaped(or_default(x.2, Seq::empty())) + "</td><td>"@ + html_escaped(
                or_default(x.3, Seq::empty()),
            ) + "</td></tr>\n"@
        } else {
            rest
        }
    }
}

/// Whether a compilation start of compile id `cid` carries a stack.
pub open spec fn has_stack(records: Seq<IntermediateEntry>, cid: Seq<char>) -> bool {
    exists|i: int|
        0 <= i < records.len() && #[trigger] records[i].entry_type@ == "dynamo_start"@
            && entry_compile_id(records[i]) == Some(cid) && json_get(records[i].metadata, "stack"@) is Some
}

/// The failure type of a metrics record: present when the member is not
/// `null`; a string as it is, another value as its pretty-printed JSON.
pub open spec fn fail_type_text(m: JsonValue) -> Option<Seq<char>> {
    match json_get(m, "fail_type"@) {
        None => None,
        Some(JsonValue::Null) => None,
        Some(JsonValue::Str(s)) => Some(s@),
        Some(v) => Some(crate::json::pretty_json_value_of(v)),
    }
}

/// The failure type of a metrics record.
pub fn fail_type_of(m: &JsonValue) -> (r: Option<String>)
    ensures
        text_opt(r) == fail_type_text(*m),
{
    match m.get("fail_type") {
        None => None,
        Some(JsonValue::Null) => None,
        Some(JsonValue::Str(s)) => Some(s.clone()),
        Some(v) => Some(crate::json::pretty_json_value(v)),
    }
}

/// The failure section of a metrics record.
pub open spec fn failure_section(m: JsonValue) -> Seq<char> {
    match fail_type_text(m) {
        Some(ft) => "<h2 class=\"error\">Failure Information</h2>\n<table>\n"@ + row(
            "Failure Type"@,
            html_escaped(ft),
        ) + match str_field(m, "fail_reason"@) {
            Some(r) => "<tr><th>Failure Reason</th><td><pre>"@ + html_escaped(r) + "</pre></td></tr>\n"@,
            None => Seq::empty(),
        } + match str_field(m, "fail_user_frame_filename"@) {
            Some(f) => "<tr><th>User Frame</th><td>"@ + html_escaped(f) + ":"@ + or_default(
                number_field(m, "fail_user_frame_lineno"@),
                "0"@,
            ) + "</td></tr>\n"@,
            None => Seq::empty(),
        } + "</table>\n"@,
        None => Seq::empty(),
    }
}

/// The restart reasons of a metrics record, when it lists any.
pub open spec fn restart_section(m: JsonValue) -> Seq<char> {
    let reasons = string_elements(array_items(or_json_null(json_get(m, "restart_reasons"@))));
    if reasons.len() > 0 {
        "<h2 class=\"warning\">Restart Reasons</h2>\n<ul>\n"@ + list_items(reasons) + "</ul>\n"@
    } else {
        Seq::empty()
    }
}

pub open spec fn or_json_null(v: Option<JsonValue>) -> JsonValue {
    match v {
        Some(x) => x,
        None => JsonValue::Null,
    }
}

pub open spec fn list_items(items: Seq<Seq<char>>) -> Seq<char>
    decreases items.len(),
{
    if items.len() == 0 {
        Seq::empty()
    } else {
        list_items(items.drop_last()) + "<li>"@ + html_escaped(items.last()) + "</li>\n"@
    }
}

/// The page of one `compilation_metrics` record.
pub open spec fn metrics_page(cid: Seq<char>, m: JsonValue, spec_rows: Seq<char>, stack: bool) -> Seq<char> {
    METRICS_HEAD@ + "<h1>Compilation Metrics - "@ + cid + "</h1>\n"@ + (if fail_type_text(m) is Some {
        "<p class=\"error\">❌ Compilation Failed</p>"@
    } else {
        "<p class=\"success\">✅ Compilation Successful</p>"@
    }) + "<h2>Basic Information</h2>\n<table>\n"@ + opt_row(
        "Function Name"@,
        escaped_opt(str_field(m, "co_name"@)),
    ) + opt_row("Filename"@, escaped_opt(str_field(m, "co_filename"@))) + opt_row(
        "First Line"@,
        number_field(m, "co_firstlineno"@),
    ) + "</table>\n"@ + "<h2>Timing</h2>\n<table>\n"@ + opt_row(
        "Total Compile Time"@,
        seconds_opt(number_field(m, "entire_frame_compile_time_s"@)),
    ) + opt_row("Backend Compile Time"@, seconds_opt(number_field(m, "backend_compile_time_s"@)))
        + opt_row("Inductor Compile Time"@, seconds_opt(number_field(m, "inductor_compile_time_s"@)))
        + opt_row("Code Gen Time"@, seconds_opt(number_field(m, "code_gen_time_s"@))) + "</table>\n"@
        + "<h2>Graph Statistics</h2>\n<table>\n"@ + opt_row(
        "Graph Op Count"@,
        number_field(m, "graph_op_count"@),
    ) + opt_row("Graph Node Count"@, number_field(m, "graph_node_count"@)) + opt_row(
        "Graph Input Count"@,
        number_field(m, "graph_input_count"@),
    ) + opt_row("Guard Count"@, number_field(m, "guard_count"@)) + opt_row(
        "Shape Env Guard Count"@,
        number_field(m, "shape_env_guard_count"@),
    ) + "</table>\n"@ + failure_section(m) + restart_section(m) + (if spec_rows.len() > 0 {
        "<h2>Symbolic Shape Specializations</h2>\n<table>\n"@
            + "<tr><th>Symbol</th><th>Value</th><th>Reason</th></tr>\n"@ + spec_rows + "</table>\n"@
    } else {
        Seq::empty()
    }) + (if stack {
        "<details>\n<summary>Stack Trace</summary>\n"@
            + "<pre>Stack trace data available in compilation_metrics.jsonl</pre>\n"@
            + "</details>\n"@
    } else {
        Seq::empty()
    }) + "</body>\n</html>"@
}

/// The page of a backward or AOT-autograd metrics record.
pub open spec fn backward_page(head: Seq<char>, title: Seq<char>, cid: Seq<char>, m: JsonValue, first: (Seq<char>, Seq<char>), second: (Seq<char>, Seq<char>)) -> Seq<char> {
    head + "<h1>"@ + title + " - "@ + cid + "</h1>\n"@ + "<table>\n"@ + opt_row(
        first.0,
        seconds_opt(number_field(m, first.1)),
    ) + opt_row(second.0, seconds_opt(number_field(m, second.1))) + match fail_type_text(m) {
        Some(ft) => "<tr><th>Failure Type</th><td class=\"error\">"@ + html_escaped(ft) + "</td></tr>\n"@,
        None => Seq::empty(),
    } + match str_field(m, "fail_reason"@) {
        Some(r) => "<tr><th>Failure Reason</th><td><pre>"@ + html_escaped(r) + "</pre></td></tr>\n"@,
        None => Seq::empty(),
    } + "</table>\n</body>\n</html>"@
}

/// One failed compilation.
pub struct FailureEntry {
    pub compile_id: String,
    pub fail_type: String,
    pub fail_reason: Option<String>,
    pub co_name: Option<String>,
    pub co_filename: Option<String>,
}

pub struct FailureView {
    pub compile_id: Seq<char>,
    pub fail_type: Seq<char>,
    pub fail_reason: Option<Seq<char>>,
    pub co_name: Option<Seq<char>>,
    pub co_filename: Option<Seq<char>>,
}

pub open spec fn failure_view(f: FailureEntry) -> FailureView {
    FailureView {
        compile_id: f.compile_id@,
        fail_type: f.fail_type@,
        fail_reason: text_opt(f.fail_reason),
        co_name: text_opt(f.co_name),
        co_filename: text_opt(f.co_filename),
    }
}

/// A metrics record of one of the three kinds.
pub open spec fn metrics_kind(e: IntermediateEntry) -> bool {
    e.entry_type@ == "compilation_metrics"@ || e.entry_type@ == "bwd_compilation_metrics"@
        || e.entry_type@ == "aot_autograd_backward_compilation_metrics"@
}

/// The failure a metrics record reports: one whose failure type is not `null`.
pub open spec fn failure_of(e: IntermediateEntry) -> Seq<FailureView> {
    if metrics_kind(e) && fail_type_text(e.metadata) is Some {
        seq![
            FailureView {
                compile_id: unit_key(e),
                fail_type: fail_type_text(e.metadata).unwrap(),
                fail_reason: str_field(e.metadata, "fail_reason"@),
                co_name: if e.entry_type@ == "compilation_metrics"@ {
                    str_field(e.metadata, "co_name"@)
                } else {
                    None
                },
                co_filename: if e.entry_type@ == "compilation_metrics"@ {
                    str_field(e.metadata, "co_filename"@)
                } else {
                    None
                },
            },
        ]
    } else {
        Seq::empty()
    }
}

/// The file name of the page of a metrics record.
pub open spec fn metrics_file_name(e: IntermediateEntry) -> Seq<char> {
    e.entry_type@ + ".html"@
}

/// The page a metrics record becomes; the page of a forward record shows
/// the specializations of its compile id and whether a stack was recorded.
pub open spec fn metrics_content(
    e: IntermediateEntry,
    index: Seq<(Seq<char>, Option<Seq<char>>, Option<Seq<char>>, Option<Seq<char>>)>,
    records: Seq<IntermediateEntry>,
) -> Seq<char> {
    if e.entry_type@ == "compilation_metrics"@ {
        metrics_page(
            unit_key(e),
            e.metadata,
            specialization_rows(index, unit_key(e)),
            has_stack(records, unit_key(e)),
        )
    } else if e.entry_type@ == "bwd_compilation_metrics"@ {
        backward_page(BWD_METRICS_HEAD@, "Backward Compilation Metrics"@, unit_key(e), e.metadata, ("Inductor Compile Time"@, "inductor_compile_time_s"@), ("Code Gen Time"@, "code_gen_time_s"@))
    } else {
        backward_page(AOT_METRICS_HEAD@, "AOT Autograd Backward Compilation Metrics"@, unit_key(e), e.metadata, ("Start Time"@, "start_time"@), ("Elapsed Time"@, "elapsed_time"@))
    }
}

pub open spec fn metrics_files(
    e: IntermediateEntry,
    index: Seq<(Seq<char>, Option<Seq<char>>, Option<Seq<char>>, Option<Seq<char>>)>,
    records: Seq<IntermediateEntry>,
) -> Seq<(Seq<char>, Seq<char>)> {
    if metrics_kind(e) {
        seq![(unit_path(unit_key(e), metrics_file_name(e)), metrics_content(e, index, records))]
    } else {
        Seq::empty()
    }
}

pub open spec fn metrics_entries(e: IntermediateEntry) -> Seq<(Seq<char>, Seq<char>, Seq<char>, Seq<char>)> {
    if metrics_kind(e) {
        seq![(unit_key(e), metrics_file_name(e), unit_path(unit_key(e), metrics_file_name(e)), Seq::empty())]
    } else {
        Seq::empty()
    }
}

/// One row of the failures page.
pub open spec fn failure_row(f: FailureView) -> Seq<char> {
    "<tr>\n<td><a href=\""@ + f.compile_id + "/compilation_metrics.html\">"@ + f.compile_id
        + "</a></td>\n<td>"@ + match f.co_name {
        Some(n) => html_escaped(n) + " ("@ + html_escaped(or_default(f.co_filename, Seq::empty())) + ")"@,
        None => "-"@,
    } + "</td>\n<td class=\"error\">"@ + html_escaped(f.fail_type) + "</td>\n<td><pre>"@ + match f.fail_reason {
        Some(r) => html_escaped(r),
        None => "-"@,
    } + "</pre></td>\n</tr>\n"@
}

pub open spec fn failure_rows(fs: Seq<FailureView>) -> Seq<char>
    decreases fs.len(),
{
    if fs.len() == 0 {
        Seq::empty()
    } else {
        failure_rows(fs.drop_last()) + failure_row(fs.last())
    }
}

/// The global page of the failures.
pub open spec fn failures_page(fs: Seq<FailureView>) -> Seq<char> {
    FAILURES_HEAD@ + decimal(fs.len()) + " failure(s)</p>\n"@ + FAILURES_TABLE_HEAD@ + failure_rows(fs)
        + "</tbody>\n</table>\n</body>\n</html>"@
}

/// The section of the top-level page that counts the failures.
pub open spec fn failures_summary(n: nat) -> Seq<char> {
    "<div class=\"failures-summary\">\n    <span class=\"failure-count\">"@ + decimal(n)
        + " failure(s)</span>\n    <a href=\"failures_and_restarts.html\">View Details</a>\n</div>"@
}


fn clone_text(o: &Option<String>) -> (r: Option<String>)
    ensures
        text_opt(r) == text_opt(*o),
{
    match o {
        Some(s) => Some(s.clone()),
        None => None,
    }
}

fn opt_str(m: &JsonValue, key: &str) -> (r: Option<String>)
    ensures
        text_opt(r) == str_field(*m, key@),
{
    match m.get_str(key) {
        Some(s) => Some(s.to_owned()),
        None => None,
    }
}

fn push_failure_section(html: &mut String, m: &JsonValue)
    ensures
        final(html)@ == old(html)@ + failure_section(*m),
{
    match fail_type_of(m) {
        Some(ft) => {
            push_text(html, "<h2 class=\"error\">Failure Information</h2>\n<table>\n");
            let e = escape_html(ft.as_str());
            push_row(html, "Failure Type", e.as_str());
            let ghost a = html@;
            if let Some(r) = m.get_str("fail_reason") {
                let er = escape_html(r);
                push_text(html, "<tr><th>Failure Reason</th><td><pre>");
                push_text(html, er.as_str());
                push_text(html, "</pre></td></tr>\n");
            }
            let ghost b = html@;
            if let Some(f) = m.get_str("fail_user_frame_filename") {
                let ef = escape_html(f);
                let line = match number_field_text(m, "fail_user_frame_lineno") {
                    Some(t) => t,
                    None => "0".to_owned(),
                };
                push_text(html, "<tr><th>User Frame</th><td>");
                push_text(html, ef.as_str());
                push_text(html, ":");
                push_text(html, line.as_str());
                push_text(html, "</td></tr>\n");
            }
            let ghost c = html@;
            push_text(html, "</table>\n");
            proof {
                let r = match str_field(*m, "fail_reason"@) {
                    Some(r) => "<tr><th>Failure Reason</th><td><pre>"@ + html_escaped(r)
                        + "</pre></td></tr>\n"@,
                    None => Seq::empty(),
                };
                assert(b =~= a + r);
                let u = match str_field(*m, "fail_user_frame_filename"@) {
                    Some(f) => "<tr><th>User Frame</th><td>"@ + html_escaped(f) + ":"@ + or_default(
                        number_field(*m, "fail_user_frame_lineno"@),
                        "0"@,
                    ) + "</td></tr>\n"@,
                    None => Seq::empty(),
                };
                assert(c =~= b + u);
                assert(html@ =~= old(html)@ + failure_section(*m));
            }
        },
        None => {
            assert(html@ =~= old(html)@ + failure_section(*m));
        },
    }
}

fn push_list_items(html: &mut String, items: &Vec<String>)
    ensures
        final(html)@ == old(html)@ + list_items(items@.map_values(|s: String| s@)),
{
    let ghost v = items@.map_values(|s: String| s@);
    let mut i: usize = 0;
    assert(v.subrange(0, 0) =~= Seq::<Seq<char>>::empty());
    while i < items.len()
        invariant
            i <= items@.len(),
            v == items@.map_values(|s: String| s@),
            html@ == old(html)@ + list_items(v.subrange(0, i as int)),
        decreases items@.len() - i,
    {
        let e = escape_html(items[i].as_str());
        push_text(html, "<li>");
        push_text(html, e.as_str());
        push_text(html, "</li>\n");
        proof {
            let w = v.subrange(0, i + 1);
            assert(w.drop_last() =~= v.subrange(0, i as int));
            assert(w.last() == items@[i as int]@);
        }
        i = i + 1;
    }
    assert(v.subrange(0, items@.len() as int) =~= v);
}

fn push_restart_section(html: &mut String, m: &JsonValue)
    ensures
        final(html)@ == old(html)@ + restart_section(*m),
{
    let reasons = match m.get("restart_reasons") {
        Some(JsonValue::Array(items)) => crate::json::string_list(m, "restart_reasons"),
        _ => Vec::new(),
    };
    proof {
        let r = string_elements(array_items(or_json_null(json_get(*m, "restart_reasons"@))));
        assert(reasons@.map_values(|s: String| s@) =~= r) by {
            match json_get(*m, "restart_reasons"@) {
                Some(JsonValue::Array(a)) => {
                    assert(crate::json::array_field(*m, "restart_reasons"@) == a@);
                },
                _ => {
                    assert(array_items(or_json_null(json_get(*m, "restart_reasons"@))) =~= Seq::<JsonValue>::empty());
                },
            }
        }
    }
    if reasons.len() > 0 {
        push_text(html, "<h2 class=\"warning\">Restart Reasons</h2>\n<ul>\n");
        push_list_items(html, &reasons);
        push_text(html, "</ul>\n");
        assert(html@ =~= old(html)@ + restart_section(*m));
    } else {
        assert(html@ =~= old(html)@ + restart_section(*m));
    }
}

fn push_specializations(
    html: &mut String,
    index: &Vec<(String, Specialization)>,
    cid: &str,
)
    ensures
        final(html)@ == old(html)@ + specialization_rows(
            index@.map_values(|p: (String, Specialization)| specialization_view(p)),
            cid@,
        ),
{
    let ghost v = index@.map_values(|p: (String, Specialization)| specialization_view(p));
    let mut i: usize = 0;
    assert(v.subrange(0, 0) =~= Seq::<(Seq<char>, Option<Seq<char>>, Option<Seq<char>>, Option<Seq<char>>)>::empty());
    while i < index.len()
        invariant
            i <= index@.len(),
            v == index@.map_values(|p: (String, Specialization)| specialization_view(p)),
            html@ == old(html)@ + specialization_rows(v.subrange(0, i as int), cid@),
        decreases index@.len() - i,
    {
        let w = &index[i];
        proof {
            let u = v.subrange(0, i + 1);
            assert(u.drop_last() =~= v.subrange(0, i as int));
            assert(u.last() == specialization_view(index@[i as int]));
        }
        if str_eq(w.0.as_str(), cid) {
            let sym = match &w.1.symbol { Some(t) => escape_html(t.as_str()), None => String::new() };
            let val = match &w.1.value { Some(t) => escape_html(t.as_str()), None => String::new() };
            let rea = match &w.1.reason { Some(t) => escape_html(t.as_str()), None => String::new() };
            proof {
                assert(html_escaped(Seq::<char>::empty()) =~= Seq::<char>::empty());
            }
            push_text(html, "<tr><td>");
            push_text(html, sym.as_str());
            push_text(html, "</td><td>");
            push_text(html, val.as_str());
            push_text(html, "</td><td>");
            push_text(html, rea.as_str());
            push_text(html, "</td></tr>\n");
            assert(html@ =~= old(html)@ + specialization_rows(v.subrange(0, i + 1), cid@));
        }
        i = i + 1;
    }
    assert(v.subrange(0, index@.len() as int) =~= v);
}

fn has_stack_for(records: &Vec<IntermediateEntry>, cid: &str) -> (r: bool)
    ensures
        r == has_stack(records@, cid@),
{
    let mut i: usize = 0;
    while i < records.len()
        invariant
            i <= records@.len(),
            forall|j: int|
                0 <= j < i ==> !(#[trigger] records@[j].entry_type@ == "dynamo_start"@
                    && entry_compile_id(records@[j]) == Some(cid@) && json_get(
                    records@[j].metadata,
                    "stack"@,
                ) is Some),
        decreases records@.len() - i,
    {
        let e = &records[i];
        let same = match &e.compile_id {
            Some(c) => str_eq(c.as_str(), cid),
            None => false,
        };
        if str_eq(e.entry_type.as_str(), "dynamo_start") && same && e.metadata.get("stack").is_some() {
            return true;
        }
        i = i + 1;
    }
    false
}

pub open spec fn function_cell(f: FailureView) -> Seq<char> {
    match f.co_name {
        Some(n) => html_escaped(n) + " ("@ + html_escaped(or_default(f.co_filename, Seq::empty())) + ")"@,
        None => "-"@,
    }
}

pub open spec fn reason_cell(f: FailureView) -> Seq<char> {
    match f.fail_reason {
        Some(r) => html_escaped(r),
        None => "-"@,
    }
}

fn function_cell_of(f: &FailureEntry) -> (r: String)
    ensures
        r@ == function_cell(failure_view(*f)),
{
    match &f.co_name {
        Some(name) => {
            let mut t = escape_html(name.as_str());
            let file = match &f.co_filename {
                Some(x) => escape_html(x.as_str()),
                None => String::new(),
            };
            assert(html_escaped(Seq::<char>::empty()) =~= Seq::<char>::empty());
            t.append(" (");
            t.append(file.as_str());
            t.append(")");
            t
        },
        None => "-".to_owned(),
    }
}

fn push_failure_row(html: &mut String, f: &FailureEntry)
    ensures
        final(html)@ == old(html)@ + failure_row(failure_view(*f)),
{
    let function = function_cell_of(f);
    let reason = match &f.fail_reason {
        Some(r) => escape_html(r.as_str()),
        None => "-".to_owned(),
    };
    assert(reason@ == reason_cell(failure_view(*f)));
    let ft = escape_html(f.fail_type.as_str());
    push_text(html, "<tr>\n<td><a href=\"");
    push_text(html, f.compile_id.as_str());
    push_text(html, "/compilation_metrics.html\">");
    push_text(html, f.compile_id.as_str());
    push_text(html, "</a></td>\n<td>");
    push_text(html, function.as_str());
    push_text(html, "</td>\n<td class=\"error\">");
    push_text(html, ft.as_str());
    push_text(html, "</td>\n<td><pre>");
    push_text(html, reason.as_str());
    push_text(html, "</pre></td>\n</tr>\n");
    let ghost v = failure_view(*f);
    assert(failure_row(v) == "<tr>\n<td><a href=\""@ + v.compile_id + "/compilation_metrics.html\">"@ + v.compile_id
        + "</a></td>\n<td>"@ + function_cell(v) + "</td>\n<td class=\"error\">"@ + html_escaped(v.fail_type) + "</td>\n<td><pre>"@ + reason_cell(v) + "</pre></td>\n</tr>\n"@);
    assert(html@ =~= old(html)@ + failure_row(v));
}

/// Module that renders compilation metrics and the failures page.
pub struct CompilationMetricsModule {
    pub plain_text: bool,
}

impl CompilationMetricsModule {
    pub fn new(plain_text: bool) -> (r: CompilationMetricsModule)
        ensures
            r.plain_text == plain_text,
    {
        CompilationMetricsModule { plain_text }
    }

    /// The specializations of the guard records, with their compile ids.
    pub fn build_specialization_index(&self, guards: &Vec<IntermediateEntry>) -> (r: Vec<
        (String, Specialization),
    >)
        ensures
            r@.map_values(|p: (String, Specialization)| specialization_view(p)) == gather(
                guards@,
                |g: IntermediateEntry| specialization_of(g),
            ),
    {
        let ghost f = |g: IntermediateEntry| specialization_of(g);
        let mut out: Vec<(String, Specialization)> = Vec::new();
        let mut i: usize = 0;
        assert(out@.map_values(|p: (String, Specialization)| specialization_view(p)) =~= gather(guards@.subrange(0, 0), f));
        while i < guards.len()
            invariant
                i <= guards@.len(),
                f == (|g: IntermediateEntry| specialization_of(g)),
                out@.map_values(|p: (String, Specialization)| specialization_view(p)) == gather(guards@.subrange(0, i as int), f),
            decreases guards@.len() - i,
        {
            let e = &guards[i];
            proof {
                lemma_gather_step(guards@, f, i as int);
            }
            let ghost before = out@;
            if str_eq(e.entry_type.as_str(), "symbolic_shape_specialization") {
                if let Some(c) = &e.compile_id {
                    let spec = Specialization {
                        symbol: opt_str(&e.metadata, "symbol"),
                        value: opt_str(&e.metadata, "value"),
                        reason: opt_str(&e.metadata, "reason"),
                    };
                    out.push((c.clone(), spec));
                }
            }
            assert(out@.map_values(|p: (String, Specialization)| specialization_view(p)) =~= gather(guards@.subrange(0, i + 1), f));
            i = i + 1;
        }
        proof {
            lemma_gather_all(guards@, f);
        }
        out
    }

    /// The page of one `compilation_metrics` record.
    pub fn render_compilation_metrics_html(
        &self,
        compile_id: &str,
        m: &JsonValue,
        specializations: &Vec<(String, Specialization)>,
        stack: bool,
    ) -> (r: String)
        ensures
            r@ == metrics_page(
                compile_id@,
                *m,
                specialization_rows(
                    specializations@.map_values(|p: (String, Specialization)| specialization_view(p)),
                    compile_id@,
                ),
                stack,
            ),
    {
        let mut html = METRICS_HEAD.to_owned();
        push_text(&mut html, "<h1>Compilation Metrics - ");
        push_text(&mut html, compile_id);
        push_text(&mut html, "</h1>\n");
        if fail_type_of(m).is_some() {
            push_text(&mut html, "<p class=\"error\">❌ Compilation Failed</p>");
        } else {
            push_text(&mut html, "<p class=\"success\">✅ Compilation Successful</p>");
        }
        let ghost a = html@;
        push_text(&mut html, "<h2>Basic Information</h2>\n<table>\n");
        push_text_row(&mut html, "Function Name", m, "co_name");
        push_text_row(&mut html, "Filename", m, "co_filename");
        push_number_row(&mut html, "First Line", m, "co_firstlineno");
        push_text(&mut html, "</table>\n");
        push_text(&mut html, "<h2>Timing</h2>\n<table>\n");
        push_seconds_row(&mut html, "Total Compile Time", m, "entire_frame_compile_time_s");
        push_seconds_row(&mut html, "Backend Compile Time", m, "backend_compile_time_s");
        push_seconds_row(&mut html, "Inductor Compile Time", m, "inductor_compile_time_s");
        push_seconds_row(&mut html, "Code Gen Time", m, "code_gen_time_s");
        push_text(&mut html, "</table>\n");
        let ghost b = html@;
        push_text(&mut html, "<h2>Graph Statistics</h2>\n<table>\n");
        push_number_row(&mut html, "Graph Op Count", m, "graph_op_count");
        push_number_row(&mut html, "Graph Node Count", m, "graph_node_count");
        push_number_row(&mut html, "Graph Input Count", m, "graph_input_count");
        push_number_row(&mut html, "Guard Count", m, "guard_count");
        push_number_row(&mut html, "Shape Env Guard Count", m, "shape_env_guard_count");
        push_text(&mut html, "</table>\n");
        push_failure_section(&mut html, m);
        push_restart_section(&mut html, m);
        let ghost c = html@;
        let mut rows = String::new();
        push_specializations(&mut rows, specializations, compile_id);
        if rows.as_str().unicode_len() > 0 {
            push_text(&mut html, "<h2>Symbolic Shape Specializations</h2>\n<table>\n");
            push_text(&mut html, "<tr><th>Symbol</th><th>Value</th><th>Reason</th></tr>\n");
            push_text(&mut html, rows.as_str());
            push_text(&mut html, "</table>\n");
        }
        let ghost d = html@;
        if stack {
            push_text(&mut html, "<details>\n<summary>Stack Trace</summary>\n");
            push_text(&mut html, "<pre>Stack trace data available in compilation_metrics.jsonl</pre>\n");
            push_text(&mut html, "</details>\n");
        }
        let ghost e = html@;
        push_text(&mut html, "</body>\n</html>");
        proof {
            let spec_rows = specialization_rows(
                specializations@.map_values(|p: (String, Specialization)| specialization_view(p)),
                compile_id@,
            );
            assert(rows@ =~= spec_rows);
            assert(d =~= c + (if spec_rows.len() > 0 {
                "<h2>Symbolic Shape Specializations</h2>\n<table>\n"@
                    + "<tr><th>Symbol</th><th>Value</th><th>Reason</th></tr>\n"@ + spec_rows + "</table>\n"@
            } else {
                Seq::empty()
            }));
            assert(e =~= d + (if stack {
                "<details>\n<summary>Stack Trace</summary>\n"@
                    + "<pre>Stack trace data available in compilation_metrics.jsonl</pre>\n"@
                    + "</details>\n"@
            } else {
                Seq::empty()
            }));
            assert(html@ =~= metrics_page(compile_id@, *m, spec_rows, stack));
        }
        html
    }

    fn render_backward_html(
        &self,
        head: &str,
        title: &str,
        compile_id: &str,
        m: &JsonValue,
        first: (&str, &str),
        second: (&str, &str),
    ) -> (r: String)
        ensures
            r@ == backward_page(head@, title@, compile_id@, *m, (first.0@, first.1@), (second.0@, second.1@)),
    {
        let mut html = head.to_owned();
        push_text(&mut html, "<h1>");
        push_text(&mut html, title);
        push_text(&mut html, " - ");
        push_text(&mut html, compile_id);
        push_text(&mut html, "</h1>\n");
        push_text(&mut html, "<table>\n");
        push_seconds_row(&mut html, first.0, m, first.1);
        push_seconds_row(&mut html, second.0, m, second.1);
        let ghost a = html@;
        if let Some(ft) = fail_type_of(m) {
            let e = escape_html(ft.as_str());
            push_text(&mut html, "<tr><th>Failure Type</th><td class=\"error\">");
            push_text(&mut html, e.as_str());
            push_text(&mut html, "</td></tr>\n");
        }
        let ghost b = html@;
        if let Some(r) = m.get_str("fail_reason") {
            let e = escape_html(r);
            push_text(&mut html, "<tr><th>Failure Reason</th><td><pre>");
            push_text(&mut html, e.as_str());
            push_text(&mut html, "</pre></td></tr>\n");
        }
        let ghost c = html@;
        push_text(&mut html, "</table>\n</body>\n</html>");
        proof {
            let x = match fail_type_text(*m) {
                Some(ft) => "<tr><th>Failure Type</th><td class=\"error\">"@ + html_escaped(ft) + "</td></tr>\n"@,
                None => Seq::empty(),
            };
            assert(b =~= a + x);
            let y = match str_field(*m, "fail_reason"@) {
                Some(r) => "<tr><th>Failure Reason</th><td><pre>"@ + html_escaped(r) + "</pre></td></tr>\n"@,
                None => Seq::empty(),
            };
            assert(c =~= b + y);
            assert(html@ =~= backward_page(head@, title@, compile_id@, *m, (first.0@, first.1@), (second.0@, second.1@)));
        }
        html
    }

    /// The page of one `bwd_compilation_metrics` record.
    pub fn render_bwd_compilation_metrics_html(&self, compile_id: &str, m: &JsonValue) -> (r: String)
        ensures
            r@ == backward_page(BWD_METRICS_HEAD@, "Backward Compilation Metrics"@, compile_id@, *m, ("Inductor Compile Time"@, "inductor_compile_time_s"@), ("Code Gen Time"@, "code_gen_time_s"@)),
    {
        self.render_backward_html(BWD_METRICS_HEAD, "Backward Compilation Metrics", compile_id, m, ("Inductor Compile Time", "inductor_compile_time_s"), ("Code Gen Time", "code_gen_time_s"))
    }

    /// The page of one `aot_autograd_backward_compilation_metrics` record.
    pub fn render_aot_autograd_metrics_html(&self, compile_id: &str, m: &JsonValue) -> (r: String)
        ensures
            r@ == backward_page(AOT_METRICS_HEAD@, "AOT Autograd Backward Compilation Metrics"@, compile_id@, *m, ("Start Time"@, "start_time"@), ("Elapsed Time"@, "elapsed_time"@)),
    {
        self.render_backward_html(AOT_METRICS_HEAD, "AOT Autograd Backward Compilation Metrics", compile_id, m, ("Start Time", "start_time"), ("Elapsed Time", "elapsed_time"))
    }

    /// The global page that lists the failures.
    pub fn render_failures_html(&self, failures: &Vec<FailureEntry>) -> (r: String)
        ensures
            r@ == failures_page(failures@.map_values(|f: FailureEntry| failure_view(f))),
    {
        let ghost v = failures@.map_values(|f: FailureEntry| failure_view(f));
        let mut html = FAILURES_HEAD.to_owned();
        let n = u64_to_decimal(failures.len() as u64);
        push_text(&mut html, n.as_str());
        push_text(&mut html, " failure(s)</p>\n");
        push_text(&mut html, FAILURES_TABLE_HEAD);
        let ghost start = html@;
        let mut i: usize = 0;
        assert(v.subrange(0, 0) =~= Seq::<FailureView>::empty());
        while i < failures.len()
            invariant
                i <= failures@.len(),
                v == failures@.map_values(|f: FailureEntry| failure_view(f)),
                html@ == start + failure_rows(v.subrange(0, i as int)),
            decreases failures@.len() - i,
        {
            let ghost before = html@;
            push_failure_row(&mut html, &failures[i]);
            proof {
                let w = v.subrange(0, i + 1);
                assert(w.drop_last() =~= v.subrange(0, i as int));
                assert(w.last() == failure_view(failures@[i as int]));
            }
            i = i + 1;
        }
        push_text(&mut html, "</tbody>\n</table>\n</body>\n</html>");
        assert(v.subrange(0, failures@.len() as int) =~= v);
        assert(html@ =~= failures_page(v));
        html
    }
}


impl CompilationMetricsModule {
    /// The page, directory entry and failure of one metrics-category record.
    fn process_record(
        &self,
        e: &IntermediateEntry,
        records: &Vec<IntermediateEntry>,
        spec_index: &Vec<(String, Specialization)>,
        files: &mut Vec<(String, String)>,
        entries: &mut DirectoryEntries,
        failures: &mut Vec<FailureEntry>,
    )
        ensures
            files_view(final(files)@) == files_view(old(files)@) + metrics_files(*e, spec_index@.map_values(|p: (String, Specialization)| specialization_view(p)), records@),
            entries_view(final(entries).items@) == entries_view(old(entries).items@) + metrics_entries(*e),
            final(failures)@.map_values(|x: FailureEntry| failure_view(x)) == old(failures)@.map_values(|x: FailureEntry| failure_view(x)) + failure_of(*e),
            final(failures)@.len() <= old(failures)@.len() + 1,
    {
        let ty = e.entry_type.as_str();
        let forward = str_eq(ty, "compilation_metrics");
        let bwd = str_eq(ty, "bwd_compilation_metrics");
        let aot = str_eq(ty, "aot_autograd_backward_compilation_metrics");
        let ghost fails_before = failures@;
        if forward || bwd || aot {
            let key = unit_key_of(e);
            let m = &e.metadata;
            if let Some(ft) = fail_type_of(m) {
                let (co_name, co_filename) = if forward {
                    (opt_str(m, "co_name"), opt_str(m, "co_filename"))
                } else {
                    (None, None)
                };
                failures.push(
                    FailureEntry {
                        compile_id: key.clone(),
                        fail_type: ft,
                        fail_reason: opt_str(m, "fail_reason"),
                        co_name,
                        co_filename,
                    },
                );
            }
            let html = if forward {
                let stack = has_stack_for(records, key.as_str());
                self.render_compilation_metrics_html(key.as_str(), m, spec_index, stack)
            } else if bwd {
                self.render_bwd_compilation_metrics_html(key.as_str(), m)
            } else {
                self.render_aot_autograd_metrics_html(key.as_str(), m)
            };
            let mut filename = e.entry_type.clone();
            filename.append(".html");
            add_unit_file(files, entries, key.as_str(), filename.as_str(), html, "");
            proof {
                assert(""@ =~= Seq::<char>::empty()) by {
                    reveal_strlit("");
                }
            }
        }
        assert(files_view(files@) =~= files_view(old(files)@) + metrics_files(*e, spec_index@.map_values(|p: (String, Specialization)| specialization_view(p)), records@));
        assert(entries_view(entries.items@) =~= entries_view(old(entries).items@) + metrics_entries(*e));
        assert(failures@.map_values(|x: FailureEntry| failure_view(x)) =~= old(failures)@.map_values(|x: FailureEntry| failure_view(x)) + failure_of(*e));
    }
}

impl CompilationMetricsModule {
    /// A page per metrics record under its compile id, and, when some
    /// compilation failed, the global failures page and a count of failures
    /// for the top-level page.
    pub fn render_metrics(&self, ctx: &ModuleContext) -> (r: Result<ModuleOutput, ModuleError>)
        requires
            ctx.wf(),
        ensures
            r is Err <==> (stream_records(*ctx, IntermediateFileType::CompilationMetrics) is None
                || stream_records(*ctx, IntermediateFileType::Guards) is None),
            r matches Ok(o) ==> ({
                let records = stream_records(*ctx, IntermediateFileType::CompilationMetrics).unwrap();
                let guards = stream_records(*ctx, IntermediateFileType::Guards).unwrap();
                let fails = gather(records, |e: IntermediateEntry| failure_of(e));
                &&& files_view(o.files@) == gather(
                    records,
                    |e: IntermediateEntry| metrics_files(
                        e,
                        gather(guards, |g: IntermediateEntry| specialization_of(g)),
                        records,
                    ),
                ) + if fails.len() > 0 {
                    seq![("failures_and_restarts.html"@, failures_page(fails))]
                } else {
                    Seq::empty()
                }
                &&& entries_view(o.directory_entries.items@) == gather(
                    records,
                    |e: IntermediateEntry| metrics_entries(e),
                )
                &&& (o.index_contribution is Some <==> fails.len() > 0)
                &&& o.index_contribution matches Some(c) ==> c.section@ == "Failures and Restarts"@
                    && c.html@ == failures_summary(fails.len())
            }),
    {
        let records = ctx.read_jsonl(IntermediateFileType::CompilationMetrics)?;
        let guards = ctx.read_jsonl(IntermediateFileType::Guards)?;
        let spec_index = self.build_specialization_index(guards);
        let ghost sx = gather(guards@, |x: IntermediateEntry| specialization_of(x));
        let ghost f = |e: IntermediateEntry| metrics_files(e, sx, records@);
        let ghost g = |e: IntermediateEntry| metrics_entries(e);
        let ghost h = |e: IntermediateEntry| failure_of(e);
        let mut files: Vec<(String, String)> = Vec::new();
        let mut entries = DirectoryEntries::new();
        let mut failures: Vec<FailureEntry> = Vec::new();
        let mut i: usize = 0;
        assert(files_view(files@) =~= gather(records@.subrange(0, 0), f));
        assert(entries_view(entries.items@) =~= gather(records@.subrange(0, 0), g));
        assert(failures@.map_values(|x: FailureEntry| failure_view(x)) =~= gather(records@.subrange(0, 0), h));
        while i < records.len()
            invariant
                i <= records@.len(),
                sx == gather(guards@, |x: IntermediateEntry| specialization_of(x)),
                f == (|e: IntermediateEntry| metrics_files(e, sx, records@)),
                g == (|e: IntermediateEntry| metrics_entries(e)),
                h == (|e: IntermediateEntry| failure_of(e)),
                spec_index@.map_values(|p: (String, Specialization)| specialization_view(p)) == gather(
                    guards@,
                    |x: IntermediateEntry| specialization_of(x),
                ),
                files_view(files@) == gather(records@.subrange(0, i as int), f),
                entries_view(entries.items@) == gather(records@.subrange(0, i as int), g),
                failures@.map_values(|x: FailureEntry| failure_view(x)) == gather(records@.subrange(0, i as int), h),
                failures@.len() <= i,
            decreases records@.len() - i,
        {
            let e = &records[i];
            proof {
                lemma_gather_step(records@, f, i as int);
                lemma_gather_step(records@, g, i as int);
                lemma_gather_step(records@, h, i as int);
            }
            self.process_record(e, records, &spec_index, &mut files, &mut entries, &mut failures);
            assert(files_view(files@) =~= gather(records@.subrange(0, i + 1), f));
            assert(entries_view(entries.items@) =~= gather(records@.subrange(0, i + 1), g));
            assert(failures@.map_values(|x: FailureEntry| failure_view(x)) =~= gather(records@.subrange(0, i + 1), h));
            i = i + 1;
        }
        proof {
            lemma_gather_all(records@, f);
            lemma_gather_all(records@, g);
            lemma_gather_all(records@, h);
        }
        let index_contribution = if failures.len() > 0 {
            let page = self.render_failures_html(&failures);
            files.push(("failures_and_restarts.html".to_owned(), page));
            let n = u64_to_decimal(failures.len() as u64);
            let mut html = "<div class=\"failures-summary\">\n    <span class=\"failure-count\">".to_owned();
            push_text(&mut html, n.as_str());
            push_text(&mut html, " failure(s)</span>\n    <a href=\"failures_and_restarts.html\">View Details</a>\n</div>");
            Some(IndexContribution { section: "Failures and Restarts".to_owned(), html })
        } else {
            None
        };
        Ok(ModuleOutput { files, directory_entries: entries, index_contribution })
    }
}

impl Module for CompilationMetricsModule {
    open spec fn id_is(&self, id: Seq<char>) -> bool {
        id == "compilation_metrics"@
    }

    open spec fn output_ok(&self, ctx: ModuleContext, r: Result<ModuleOutput, ModuleError>) -> bool {
        &&& (r is Err <==> (stream_records(ctx, IntermediateFileType::CompilationMetrics) is None
                || stream_records(ctx, IntermediateFileType::Guards) is None))
        &&& (r matches Ok(o) ==> ({
                let records = stream_records(ctx, IntermediateFileType::CompilationMetrics).unwrap();
                let guards = stream_records(ctx, IntermediateFileType::Guards).unwrap();
                let fails = gather(records, |e: IntermediateEntry| failure_of(e));
                &&& files_view(o.files@) == gather(
                    records,
                    |e: IntermediateEntry| metrics_files(
                        e,
                        gather(guards, |g: IntermediateEntry| specialization_of(g)),
                        records,
                    ),
                ) + if fails.len() > 0 {
                    seq![("failures_and_restarts.html"@, failures_page(fails))]
                } else {
                    Seq::empty()
                }
                &&& entries_view(o.directory_entries.items@) == gather(
                    records,
                    |e: IntermediateEntry| metrics_entries(e),
                )
                &&& (o.index_contribution is Some <==> fails.len() > 0)
                &&& o.index_contribution matches Some(c) ==> c.section@ == "Failures and Restarts"@
                    && c.html@ == failures_summary(fails.len())
            }))
    }

    fn name(&self) -> &'static str {
        "Compilation Metrics"
    }

    fn id(&self) -> (r: &'static str) {
        "compilation_metrics"
    }

    fn subscriptions(&self) -> Vec<IntermediateFileType> {
        vec![IntermediateFileType::CompilationMetrics, IntermediateFileType::Guards]
    }

    fn render(&self, ctx: &ModuleContext) -> (r: Result<ModuleOutput, ModuleError>) {
        self.render_metrics(ctx)
    }
}

} // verus!
