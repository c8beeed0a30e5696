//! Symbolic guard pages: each guard or provenance event becomes a page that
//! shows its expression, stacks and the expression tree rebuilt from the flat
//! table of expression-creation events.
use vstd::prelude::*;

use crate::intermediate::{IntermediateEntry, IntermediateFileType};
use crate::json::{
    array_field, str_field, string_elements, string_list, u64_elements, u64_field, u64_list,
    JsonValue,
};
use crate::modules::context::{stream_records, ModuleContext};
use crate::modules::{unit_key, DirectoryEntries, Module, ModuleError, ModuleOutput};
use crate::text::{decimal, escape_html, html_escaped, push_text, str_eq, u64_to_decimal};

verus! {

/// The deepest level of the expression tree that is rendered; below it a
/// placeholder stands.
pub const MAX_EXPR_DEPTH: usize = 20;

/// One expression-creation event: its result, the operation, the argument
/// texts and the ids of the argument nodes.
pub struct ExpressionInfo {
    pub result: Option<String>,
    pub method: Option<String>,
    pub arguments: Vec<String>,
    pub argument_ids: Vec<u64>,
}

pub struct ExprView {
    pub result: Option<Seq<char>>,
    pub method: Option<Seq<char>>,
    pub arguments: Seq<Seq<char>>,
    pub argument_ids: Seq<u64>,
}

pub open spec fn info_view(i: ExpressionInfo) -> ExprView {
    ExprView {
        result: match i.result {
            Some(s) => Some(s@),
            None => None,
        },
        method: match i.method {
            Some(s) => Some(s@),
            None => None,
        },
        arguments: i.arguments@.map_values(|a: String| a@),
        argument_ids: i.argument_ids@,
    }
}

/// What an expression-creation record says; its id is 0 when it has none.
pub open spec fn expr_of(m: JsonValue) -> (u64, ExprView) {
    (
        match u64_field(m, "id"@) {
            Some(n) => n,
            None => 0,
        },
        ExprView {
            result: str_field(m, "result"@),
            method: str_field(m, "method"@),
            arguments: string_elements(array_field(m, "arguments"@)),
            argument_ids: u64_elements(array_field(m, "argument_ids"@)),
        },
    )
}

/// The expression table of the records, in order.
pub open spec fn expr_table(records: Seq<IntermediateEntry>) -> Seq<(u64, ExprView)>
    decreases records.len(),
{
    if records.len() == 0 {
        Seq::empty()
    } else {
        let rest = expr_table(records.drop_last());
        if records.last().entry_type@ == "expression_created"@ {
            rest.push(expr_of(records.last().metadata))
        } else {
            rest
        }
    }
}

/// The expression with id `id`: the last one of the table with that id.
pub open spec fn expr_lookup(table: Seq<(u64, ExprView)>, id: u64) -> Option<ExprView>
    decreases table.len(),
{
    if table.len() == 0 {
        None
    } else if table.last().0 == id {
        Some(table.last().1)
    } else {
        expr_lookup(table.drop_last(), id)
    }
}

/// The argument texts joined by `, `.
pub open spec fn joined(parts: Seq<Seq<char>>) -> Seq<char>
    decreases parts.len(),
{
    if parts.len() == 0 {
        Seq::empty()
    } else if parts.len() == 1 {
        parts[0]
    } else {
        joined(parts.drop_last()) + ", "@ + parts.last()
    }
}

/// The box of one expression node, without its arguments.
pub open spec fn expr_box(e: ExprView) -> Seq<char> {
    "<div class=\"expr-node\">"@ + match e.result {
        Some(r) => "<strong>"@ + html_escaped(r) + "</strong>"@,
        None => Seq::empty(),
    } + match e.method {
        Some(m) => " ("@ + html_escaped(m) + ")"@,
        None => Seq::empty(),
    } + if e.arguments.len() > 0 {
        "<br>Args: "@ + joined(e.arguments.map_values(|a: Seq<char>| html_escaped(a)))
    } else {
        Seq::empty()
    } + "</div>\n"@
}

/// The tree below node `id` at depth `depth`: past the depth bound a
/// placeholder, for an unknown id a "not found" box, else the node's box and
/// then the trees of its arguments one level deeper.
pub open spec fn expr_tree(table: Seq<(u64, ExprView)>, id: u64, depth: int) -> Seq<char>
    decreases 21 - depth, 0int,
{
    if depth > 20 {
        "<div class=\"expr-node\">... (max depth)</div>"@
    } else {
        match expr_lookup(table, id) {
            Some(e) => expr_box(e) + expr_forest(table, e.argument_ids, depth + 1),
            None => "<div class=\"expr-node\">Node "@ + decimal(id as nat) + " (not found)</div>"@,
        }
    }
}

/// The trees of `ids`, one after the other, at depth `depth`.
pub open spec fn expr_forest(table: Seq<(u64, ExprView)>, ids: Seq<u64>, depth: int) -> Seq<char>
    decreases 21 - depth, ids.len() + 1,
{
    if ids.len() == 0 || depth > 21 {
        Seq::empty()
    } else {
        expr_forest(table, ids.drop_last(), depth) + expr_tree(table, ids.last(), depth)
    }
}

/// How many levels of nodes the rendering of node `id` at `depth` opens.
pub open spec fn expr_height(table: Seq<(u64, ExprView)>, id: u64, depth: int) -> nat
    decreases 21 - depth, 0int,
{
    if depth > 20 {
        0
    } else {
        match expr_lookup(table, id) {
            Some(e) => 1 + forest_height(table, e.argument_ids, depth + 1),
            None => 0,
        }
    }
}

pub open spec fn forest_height(table: Seq<(u64, ExprView)>, ids: Seq<u64>, depth: int) -> nat
    decreases 21 - depth, ids.len() + 1,
{
    if ids.len() == 0 || depth > 21 {
        0
    } else {
        let a = forest_height(table, ids.drop_last(), depth);
        let b = expr_height(table, ids.last(), depth);
        if a > b {
            a
        } else {
            b
        }
    }
}

/// However the argument ids point, including back to an ancestor (a cycle
/// such as node 1 with argument 2 whose argument is 1), the rendering opens
/// at most `21 - depth` levels of nodes below depth `depth`: it never goes
/// past the depth bound.
pub proof fn lemma_expr_tree_depth_bound(table: Seq<(u64, ExprView)>, id: u64, depth: int)
    requires
        0 <= depth,
    ensures
        expr_height(table, id, depth) <= if depth > 20 {
            0
        } else {
            21 - depth
        },
    decreases 21 - depth, 0int,
{
    if depth <= 20 {
        if let Some(e) = expr_lookup(table, id) {
            lemma_forest_depth_bound(table, e.argument_ids, depth + 1);
        }
    }
}

proof fn lemma_forest_depth_bound(table: Seq<(u64, ExprView)>, ids: Seq<u64>, depth: int)
    requires
        0 <= depth,
    ensures
        forest_height(table, ids, depth) <= if depth > 20 {
            0
        } else {
            21 - depth
        },
    decreases 21 - depth, ids.len() + 1,
{
    if ids.len() > 0 && depth <= 21 {
        lemma_forest_depth_bound(table, ids.drop_last(), depth);
        lemma_expr_tree_depth_bound(table, ids.last(), depth);
    }
}

/// Module that renders symbolic guard information pages.
pub struct SymbolicShapesModule;

impl SymbolicShapesModule {
    pub fn new() -> SymbolicShapesModule {
        SymbolicShapesModule
    }

    /// The expression table of the guard records.
    pub fn build_expression_index(&self, records: &Vec<IntermediateEntry>) -> (r: Vec<
        (u64, ExpressionInfo),
    >)
        ensures
            r@.map_values(|p: (u64, ExpressionInfo)| (p.0, info_view(p.1))) == expr_table(
                records@,
            ),
    {
        let mut out: Vec<(u64, ExpressionInfo)> = Vec::new();
        let mut i: usize = 0;
        while i < records.len()
            invariant
                i <= records@.len(),
                out@.map_values(|p: (u64, ExpressionInfo)| (p.0, info_view(p.1))) == expr_table(
                    records@.subrange(0, i as int),
                ),
            decreases records@.len() - i,
        {
            let e = &records[i];
            let ghost before = out@;
            assert(records@.subrange(0, i + 1).drop_last() =~= records@.subrange(0, i as int));
            if str_eq(e.entry_type.as_str(), "expression_created") {
                let m = &e.metadata;
                let id = match m.get_u64("id") {
                    Some(n) => n,
                    None => 0,
                };
                let result = match m.get_str("result") {
                    Some(s) => Some(s.to_owned()),
                    None => None,
                };
                let method = match m.get_str("method") {
                    Some(s) => Some(s.to_owned()),
                    None => None,
                };
                let arguments = string_list(m, "arguments");
                let argument_ids = u64_list(m, "argument_ids");
                let info = ExpressionInfo { result, method, arguments, argument_ids };
                assert(info_view(info).arguments =~= string_elements(array_field(*m, "arguments"@)));
                out.push((id, info));
                assert(out@.map_values(|p: (u64, ExpressionInfo)| (p.0, info_view(p.1))) =~= before.map_values(
                    |p: (u64, ExpressionInfo)| (p.0, info_view(p.1)),
                ).push(expr_of(*m)));
            }
            i = i + 1;
        }
        assert(records@.subrange(0, records@.len() as int) =~= records@);
        out
    }

    /// Appends the expression tree below node `node_id` at depth `depth`.
    pub fn render_expression_tree(
        &self,
        html: &mut String,
        node_id: u64,
        expr_info_index: &Vec<(u64, ExpressionInfo)>,
        depth: usize,
    )
        ensures
            final(html)@ == old(html)@ + expr_tree(
                expr_info_index@.map_values(|p: (u64, ExpressionInfo)| (p.0, info_view(p.1))),
                node_id,
                depth as int,
            ),
        decreases 21 - depth,
    {
        let ghost table = expr_info_index@.map_values(
            |p: (u64, ExpressionInfo)| (p.0, info_view(p.1)),
        );
        if depth > MAX_EXPR_DEPTH {
            push_text(html, "<div class=\"expr-node\">... (max depth)</div>");
            return ;
        }
        match find_expression(expr_info_index, node_id) {
            Some(k) => {
                let info = &expr_info_index[k].1;
                push_expr_box(html, info);
                let ghost after_box = html@;
                let mut j: usize = 0;
                while j < info.argument_ids.len()
                    invariant
                        j <= info.argument_ids@.len(),
                        depth <= 20,
                        html@ == after_box + expr_forest(
                            table,
                            info.argument_ids@.subrange(0, j as int),
                            depth + 1,
                        ),
                        table == expr_info_index@.map_values(
                            |p: (u64, ExpressionInfo)| (p.0, info_view(p.1)),
                        ),
                    decreases info.argument_ids@.len() - j,
                {
                    let arg = info.argument_ids[j];
                    self.render_expression_tree(html, arg, expr_info_index, depth + 1);
                    proof {
                        let ids = info.argument_ids@.subrange(0, j + 1);
                        assert(ids.drop_last() =~= info.argument_ids@.subrange(0, j as int));
                        assert(ids.last() == arg);
                    }
                    j = j + 1;
                }
                proof {
                    assert(info.argument_ids@.subrange(0, info.argument_ids@.len() as int)
                        =~= info.argument_ids@);
                    let e = info_view(*info);
                    assert(expr_lookup(table, node_id) == Some(e));
                    assert(html@ =~= old(html)@ + expr_box(e) + expr_forest(
                        table,
                        e.argument_ids,
                        depth + 1,
                    ));
                }
            },
            None => {
                let id = u64_to_decimal(node_id);
                push_text(html, "<div class=\"expr-node\">Node ");
                push_text(html, id.as_str());
                push_text(html, " (not found)</div>");
                assert(html@ =~= old(html)@ + expr_tree(table, node_id, depth as int));
            },
        }
    }
}

/// The position of the last entry with id `id`.
fn find_expression(index: &Vec<(u64, ExpressionInfo)>, id: u64) -> (r: Option<usize>)
    ensures
        r matches Some(k) ==> k < index@.len() && index@[k as int].0 == id && expr_lookup(
            index@.map_values(|p: (u64, ExpressionInfo)| (p.0, info_view(p.1))),
            id,
        ) == Some(info_view(index@[k as int].1)),
        r is None ==> expr_lookup(
            index@.map_values(|p: (u64, ExpressionInfo)| (p.0, info_view(p.1))),
            id,
        ) is None,
{
    let ghost table = index@.map_values(|p: (u64, ExpressionInfo)| (p.0, info_view(p.1)));
    let mut k: usize = index.len();
    assert(table.subrange(0, index@.len() as int) =~= table);
    while k > 0
        invariant
            k <= index@.len(),
            table == index@.map_values(|p: (u64, ExpressionInfo)| (p.0, info_view(p.1))),
            expr_lookup(table, id) == expr_lookup(table.subrange(0, k as int), id),
        decreases k,
    {
        let ghost pre = table.subrange(0, k as int);
        assert(pre.drop_last() =~= table.subrange(0, k - 1));
        assert(pre.last() == table[k - 1]);
        if index[k - 1].0 == id {
            return Some(k - 1);
        }
        k = k - 1;
    }
    None
}

pub open spec fn result_part(e: ExprView) -> Seq<char> {
    match e.result {
        Some(r) => "<strong>"@ + html_escaped(r) + "</strong>"@,
        None => Seq::empty(),
    }
}

pub open spec fn method_part(e: ExprView) -> Seq<char> {
    match e.method {
        Some(m) => " ("@ + html_escaped(m) + ")"@,
        None => Seq::empty(),
    }
}

pub open spec fn args_part(e: ExprView) -> Seq<char> {
    if e.arguments.len() > 0 {
        "<br>Args: "@ + joined(e.arguments.map_values(|a: Seq<char>| html_escaped(a)))
    } else {
        Seq::empty()
    }
}

fn push_result(html: &mut String, info: &ExpressionInfo)
    ensures
        final(html)@ == old(html)@ + result_part(info_view(*info)),
{
    if let Some(result) = &info.result {
        let r = escape_html(result.as_str());
        push_text(html, "<strong>");
        push_text(html, r.as_str());
        push_text(html, "</strong>");
        assert(html@ =~= old(html)@ + result_part(info_view(*info)));
    } else {
        assert(html@ =~= old(html)@ + result_part(info_view(*info)));
    }
}

fn push_method(html: &mut String, info: &ExpressionInfo)
    ensures
        final(html)@ == old(html)@ + method_part(info_view(*info)),
{
    if let Some(method) = &info.method {
        let m = escape_html(method.as_str());
        push_text(html, " (");
        push_text(html, m.as_str());
        push_text(html, ")");
        assert(html@ =~= old(html)@ + method_part(info_view(*info)));
    } else {
        assert(html@ =~= old(html)@ + method_part(info_view(*info)));
    }
}

fn push_args(html: &mut String, info: &ExpressionInfo)
    ensures
        final(html)@ == old(html)@ + args_part(info_view(*info)),
{
    let ghost e = info_view(*info);
    assert(e.arguments.len() == info.arguments@.len());
    if info.arguments.len() > 0 {
        push_text(html, "<br>Args: ");
        push_joined_escaped(html, &info.arguments);
        assert(e.arguments.map_values(|x: Seq<char>| html_escaped(x)) =~= info.arguments@.map_values(
            |x: String| x@,
        ).map_values(|x: Seq<char>| html_escaped(x)));
        assert(html@ =~= old(html)@ + args_part(e));
    } else {
        assert(html@ =~= old(html)@ + args_part(e));
    }
}

fn push_expr_box(html: &mut String, info: &ExpressionInfo)
    ensures
        final(html)@ == old(html)@ + expr_box(info_view(*info)),
{
    push_text(html, "<div class=\"expr-node\">");
    push_result(html, info);
    push_method(html, info);
    push_args(html, info);
    push_text(html, "</div>\n");
    let ghost e = info_view(*info);
    assert(expr_box(e) == "<div class=\"expr-node\">"@ + result_part(e) + method_part(e)
        + args_part(e) + "</div>\n"@);
    assert(html@ =~= old(html)@ + expr_box(e));
}

#[verifier::rlimit(50)]
fn push_joined_escaped(html: &mut String, parts: &Vec<String>)
    requires
        parts@.len() > 0,
    ensures
        final(html)@ == old(html)@ + joined(
            parts@.map_values(|a: String| a@).map_values(|a: Seq<char>| html_escaped(a)),
        ),
{
    let ghost esc = parts@.map_values(|a: String| a@).map_values(|a: Seq<char>| html_escaped(a));
    let first = escape_html(parts[0].as_str());
    push_text(html, first.as_str());
    assert(esc.subrange(0, 1) =~= seq![esc[0]]);
    let mut i: usize = 1;
    while i < parts.len()
        invariant
            1 <= i <= parts@.len(),
            esc == parts@.map_values(|a: String| a@).map_values(|a: Seq<char>| html_escaped(a)),
            html@ == old(html)@ + joined(esc.subrange(0, i as int)),
        decreases parts@.len() - i,
    {
        let e = escape_html(parts[i].as_str());
        push_text(html, ", ");
        push_text(html, e.as_str());
        proof {
            let s = esc.subrange(0, i + 1);
            assert(s.drop_last() =~= esc.subrange(0, i as int));
            assert(s.last() == html_escaped(parts@[i as int]@));
        }
        i = i + 1;
    }
    assert(esc.subrange(0, parts@.len() as int) =~= esc);
}


/// The head of a symbolic guard page, up to the opening of its body.
pub const SYMBOLIC_GUARD_HEAD: &'static str = "<!DOCTYPE html>\n<html>\n<head>\n<title>Symbolic Guard Information</title>\n<style>\nbody { font-family: -apple-system, BlinkMacSystemFont, \"Segoe UI\", Roboto, sans-serif; margin: 20px; }\ntable { border-collapse: collapse; margin-bottom: 20px; }\nth, td { border: 1px solid #ddd; padding: 8px; text-align: left; }\nth { background-color: #f5f5f5; width: 150px; }\npre { background: #f8f8f8; padding: 10px; overflow-x: auto; margin: 0; }\ndetails { margin: 10px 0; }\nsummary { cursor: pointer; font-weight: bold; }\n.expr-tree { padding-left: 20px; }\n.expr-node { margin: 5px 0; padding: 5px; border-left: 2px solid #ddd; }\n</style>\n</head>\n<body>\n";

/// The elements of an array value; nothing for another value.
pub open spec fn array_items(v: JsonValue) -> Seq<JsonValue> {
    match v {
        JsonValue::Array(a) => a@,
        _ => Seq::empty(),
    }
}

/// Each text escaped, on a line of its own.
pub open spec fn escaped_lines(lines: Seq<Seq<char>>) -> Seq<char>
    decreases lines.len(),
{
    if lines.len() == 0 {
        Seq::empty()
    } else {
        escaped_lines(lines.drop_last()) + html_escaped(lines.last()) + "\n"@
    }
}

/// A collapsible block listing the string elements of a stack member.
pub open spec fn stack_block(m: JsonValue, key: Seq<char>, open_tag: Seq<char>, title: Seq<char>) -> Seq<char> {
    match crate::json::json_get(m, key) {
        Some(v) => open_tag + "\n<summary>"@ + title + "</summary>\n<pre>"@ + escaped_lines(
            string_elements(array_items(v)),
        ) + "</pre>\n</details>\n"@,
        None => Seq::empty(),
    }
}

/// The page of one guard or provenance record.
pub open spec fn guard_page(e: IntermediateEntry, table: Seq<(u64, ExprView)>) -> Seq<char> {
    let m = e.metadata;
    SYMBOLIC_GUARD_HEAD@ + "<h1>Symbolic Guard Information - "@ + e.entry_type@ + "</h1>\n"@ + match str_field(m, "expr"@) {
        Some(x) => "<h2>Expression</h2>\n"@ + "<pre>"@ + html_escaped(x) + "</pre>\n"@,
        None => Seq::empty(),
    } + stack_block(m, "user_stack"@, "<details open>"@, "User Stack"@) + stack_block(
        m,
        "stack"@,
        "<details>"@,
        "Framework Stack"@,
    ) + match u64_field(m, "expr_node_id"@) {
        Some(id) => "<details>\n<summary>Expression Tree</summary>\n"@ + "<div class=\"expr-tree\">"@
            + expr_tree(table, id, 0) + "</div>\n</details>\n"@,
        None => Seq::empty(),
    } + match crate::json::json_get(m, "frame_locals"@) {
        Some(v) => "<details>\n<summary>Frame Locals</summary>\n<pre>"@ + html_escaped(
            crate::json::pretty_json_value_of(v),
        ) + "</pre>\n</details>\n"@,
        None => Seq::empty(),
    } + "</body>\n</html>"@
}

fn push_lines(html: &mut String, items: &Vec<JsonValue>)
    ensures
        final(html)@ == old(html)@ + escaped_lines(string_elements(items@)),
{
    let mut i: usize = 0;
    assert(items@.subrange(0, 0) =~= Seq::<JsonValue>::empty());
    while i < items.len()
        invariant
            i <= items@.len(),
            html@ == old(html)@ + escaped_lines(string_elements(items@.subrange(0, i as int))),
        decreases items@.len() - i,
    {
        let ghost before = html@;
        assert(items@.subrange(0, i + 1).drop_last() =~= items@.subrange(0, i as int));
        if let Some(t) = items[i].as_str() {
            let e = escape_html(t);
            push_text(html, e.as_str());
            push_text(html, "\n");
            let ghost se = string_elements(items@.subrange(0, i + 1));
            assert(items@.subrange(0, i + 1).last() == items@[i as int]);
            assert(se == string_elements(items@.subrange(0, i as int)).push(t@));
            assert(se.drop_last() =~= string_elements(items@.subrange(0, i as int)));
            assert(se.last() == t@);
            assert(html@ =~= old(html)@ + escaped_lines(se));
        }
        i = i + 1;
    }
    assert(items@.subrange(0, items@.len() as int) =~= items@);
}

fn push_stack_block(html: &mut String, m: &JsonValue, key: &str, open_tag: &str, title: &str)
    ensures
        final(html)@ == old(html)@ + stack_block(*m, key@, open_tag@, title@),
{
    match m.get(key) {
        Some(v) => {
            push_text(html, open_tag);
            push_text(html, "\n<summary>");
            push_text(html, title);
            push_text(html, "</summary>\n<pre>");
            let ghost mid = html@;
            match v {
                JsonValue::Array(items) => push_lines(html, items),
                _ => {
                    assert(escaped_lines(string_elements(Seq::<JsonValue>::empty())) =~= Seq::<
                        char,
                    >::empty());
                },
            }
            push_text(html, "</pre>\n</details>\n");
            assert(html@ =~= old(html)@ + stack_block(*m, key@, open_tag@, title@));
        },
        None => {
            assert(html@ =~= old(html)@ + stack_block(*m, key@, open_tag@, title@));
        },
    }
}

impl SymbolicShapesModule {
    /// The page of one guard or provenance record.
    pub fn render_symbolic_guard_html(
        &self,
        entry: &IntermediateEntry,
        expr_info_index: &Vec<(u64, ExpressionInfo)>,
    ) -> (r: String)
        ensures
            r@ == guard_page(
                *entry,
                expr_info_index@.map_values(|p: (u64, ExpressionInfo)| (p.0, info_view(p.1))),
            ),
    {
        let ghost table = expr_info_index@.map_values(
            |p: (u64, ExpressionInfo)| (p.0, info_view(p.1)),
        );
        let m = &entry.metadata;
        let mut html = SYMBOLIC_GUARD_HEAD.to_owned();
        push_text(&mut html, "<h1>Symbolic Guard Information - ");
        push_text(&mut html, entry.entry_type.as_str());
        push_text(&mut html, "</h1>\n");
        let ghost a = html@;
        if let Some(expr) = m.get_str("expr") {
            let x = escape_html(expr);
            push_text(&mut html, "<h2>Expression</h2>\n");
            push_text(&mut html, "<pre>");
            push_text(&mut html, x.as_str());
            push_text(&mut html, "</pre>\n");
        }
        let ghost b = html@;
        push_stack_block(&mut html, m, "user_stack", "<details open>", "User Stack");
        push_stack_block(&mut html, m, "stack", "<details>", "Framework Stack");
        let ghost c = html@;
        if let Some(id) = m.get_u64("expr_node_id") {
            push_text(&mut html, "<details>\n<summary>Expression Tree</summary>\n");
            push_text(&mut html, "<div class=\"expr-tree\">");
            self.render_expression_tree(&mut html, id, expr_info_index, 0);
            push_text(&mut html, "</div>\n</details>\n");
        }
        let ghost d = html@;
        if let Some(locals) = m.get("frame_locals") {
            let text = crate::json::pretty_json_value(locals);
            let e = escape_html(text.as_str());
            push_text(&mut html, "<details>\n<summary>Frame Locals</summary>\n<pre>");
            push_text(&mut html, e.as_str());
            push_text(&mut html, "</pre>\n</details>\n");
        }
        let ghost e = html@;
        push_text(&mut html, "</body>\n</html>");
        proof {
            let fl = match crate::json::json_get(*m, "frame_locals"@) {
                Some(v) => "<details>\n<summary>Frame Locals</summary>\n<pre>"@ + html_escaped(
                    crate::json::pretty_json_value_of(v),
                ) + "</pre>\n</details>\n"@,
                None => Seq::empty(),
            };
            assert(e =~= d + fl);
            let x = match str_field(*m, "expr"@) {
                Some(x) => "<h2>Expression</h2>\n"@ + "<pre>"@ + html_escaped(x) + "</pre>\n"@,
                None => Seq::empty(),
            };
            assert(b =~= a + x);
            let t = match u64_field(*m, "expr_node_id"@) {
                Some(id) => "<details>\n<summary>Expression Tree</summary>\n"@
                    + "<div class=\"expr-tree\">"@ + expr_tree(table, id, 0)
                    + "</div>\n</details>\n"@,
                None => Seq::empty(),
            };
            assert(d =~= c + t);
            assert(html@ =~= guard_page(*entry, table));
        }
        html
    }
}

/// The records that get a symbolic guard page.
pub open spec fn guard_record(e: IntermediateEntry) -> bool {
    e.entry_type@ == "propagate_real_tensors_provenance"@ || e.entry_type@ == "guard_added"@
}

/// How many of the records get a guard page.
pub open spec fn guard_count(records: Seq<IntermediateEntry>) -> nat
    decreases records.len(),
{
    if records.len() == 0 {
        0
    } else {
        guard_count(records.drop_last()) + if guard_record(records.last()) {
            1nat
        } else {
            0nat
        }
    }
}

/// The file name of the `k`-th guard page.
pub open spec fn guard_file_name(k: nat) -> Seq<char> {
    "symbolic_guard_information_"@ + decimal(k) + ".html"@
}

/// The guard pages of the records, numbered in order.
pub open spec fn guard_files(records: Seq<IntermediateEntry>, table: Seq<(u64, ExprView)>) -> Seq<
    (Seq<char>, Seq<char>),
>
    decreases records.len(),
{
    if records.len() == 0 {
        Seq::empty()
    } else {
        let rest = guard_files(records.drop_last(), table);
        let e = records.last();
        if guard_record(e) {
            rest.push(
                (
                    crate::modules::unit_path(unit_key(e), guard_file_name(guard_count(records.drop_last()))),
                    guard_page(e, table),
                ),
            )
        } else {
            rest
        }
    }
}

/// The directory entries of the guard pages.
pub open spec fn guard_entries(records: Seq<IntermediateEntry>) -> Seq<
    (Seq<char>, Seq<char>, Seq<char>, Seq<char>),
>
    decreases records.len(),
{
    if records.len() == 0 {
        Seq::empty()
    } else {
        let rest = guard_entries(records.drop_last());
        let e = records.last();
        if guard_record(e) {
            let name = guard_file_name(guard_count(records.drop_last()));
            rest.push((unit_key(e), name, crate::modules::unit_path(unit_key(e), name), Seq::empty()))
        } else {
            rest
        }
    }
}

impl SymbolicShapesModule {
    /// One page per guard or provenance record of the guards category, under
    /// its compile id.
    pub fn render_symbolic_shapes(&self, ctx: &ModuleContext) -> (r: Result<ModuleOutput, ModuleError>)
        requires
            ctx.wf(),
        ensures
            r is Err <==> stream_records(*ctx, IntermediateFileType::Guards) is None,
            r matches Ok(o) ==> crate::modules::files_view(o.files@) == guard_files(
                stream_records(*ctx, IntermediateFileType::Guards).unwrap(),
                expr_table(stream_records(*ctx, IntermediateFileType::Guards).unwrap()),
            ),
            r matches Ok(o) ==> crate::modules::entries_view(o.directory_entries.items@)
                == guard_entries(stream_records(*ctx, IntermediateFileType::Guards).unwrap()),
            r matches Ok(o) ==> o.index_contribution is None,
    {
        let records = ctx.read_jsonl(IntermediateFileType::Guards)?;
        let index = self.build_expression_index(records);
        let ghost table = expr_table(records@);
        let mut files: Vec<(String, String)> = Vec::new();
        let mut entries = DirectoryEntries::new();
        let mut count: u64 = 0;
        let mut i: usize = 0;
        while i < records.len()
            invariant
                i <= records@.len(),
                table == expr_table(records@),
                index@.map_values(|p: (u64, ExpressionInfo)| (p.0, info_view(p.1))) == table,
                count == guard_count(records@.subrange(0, i as int)),
                count <= i,
                crate::modules::files_view(files@) == guard_files(records@.subrange(0, i as int), table),
                crate::modules::entries_view(entries.items@) == guard_entries(
                    records@.subrange(0, i as int),
                ),
            decreases records@.len() - i,
        {
            let e = &records[i];
            let ghost pre = records@.subrange(0, i as int);
            assert(records@.subrange(0, i + 1).drop_last() =~= pre);
            assert(records@.subrange(0, i + 1).last() == records@[i as int]);
            if str_eq(e.entry_type.as_str(), "propagate_real_tensors_provenance") || str_eq(
                e.entry_type.as_str(),
                "guard_added",
            ) {
                let html = self.render_symbolic_guard_html(e, &index);
                let key = match &e.compile_id {
                    Some(c) => c.clone(),
                    None => "unknown".to_owned(),
                };
                let mut filename = "symbolic_guard_information_".to_owned();
                let n = u64_to_decimal(count);
                filename.append(n.as_str());
                filename.append(".html");
                assert(filename@ == guard_file_name(count as nat));
                crate::modules::add_unit_file(&mut files, &mut entries, key.as_str(), filename.as_str(), html, "");
                assert(""@ =~= Seq::<char>::empty()) by {
                    reveal_strlit("");
                }
                count = count + 1;
            }
            i = i + 1;
        }
        assert(records@.subrange(0, records@.len() as int) =~= records@);
        Ok(ModuleOutput { files, directory_entries: entries, index_contribution: None })
    }
}

impl Module for SymbolicShapesModule {
    open spec fn id_is(&self, id: Seq<char>) -> bool {
        id == "symbolic_shapes"@
    }

    open spec fn output_ok(&self, ctx: ModuleContext, r: Result<ModuleOutput, ModuleError>) -> bool {
        &&& (r is Err <==> stream_records(ctx, IntermediateFileType::Guards) is None)
        &&& (r matches Ok(o) ==> crate::modules::files_view(o.files@) == guard_files(
                stream_records(ctx, IntermediateFileType::Guards).unwrap(),
                expr_table(stream_records(ctx, IntermediateFileType::Guards).unwrap()),
            ))
        &&& (r matches Ok(o) ==> crate::modules::entries_view(o.directory_entries.items@)
                == guard_entries(stream_records(ctx, IntermediateFileType::Guards).unwrap()))
        &&& (r matches Ok(o) ==> o.index_contribution is None)
    }

    fn name(&self) -> &'static str {
        "Symbolic Shapes"
    }

    fn id(&self) -> (r: &'static str) {
        "symbolic_shapes"
    }

    fn subscriptions(&self) -> Vec<IntermediateFileType> {
        vec![IntermediateFileType::Guards]
    }

    fn render(&self, ctx: &ModuleContext) -> (r: Result<ModuleOutput, ModuleError>) {
        self.render_symbolic_shapes(ctx)
    }
}

} // verus!
