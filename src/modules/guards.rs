//! Guard pages: the guards of a compilation as a filterable table, and the
//! text of the generated C++ guards.
use vstd::prelude::*;

use crate::intermediate::{IntermediateEntry, IntermediateFileType};
use crate::json::{array_field, or_default, parse_json, parse_json_of, str_field, string_elements, string_list, JsonValue};
use crate::modules::context::{stream_records, ModuleContext};
use crate::modules::symbolic_shapes::joined;
use crate::modules::{
    add_unit_file, entries_view, files_view, gather, lemma_gather_all, lemma_gather_step,
    payload_of, payload_text, unit_key, unit_key_of, unit_path, DirectoryEntries, Module,
    ModuleError, ModuleOutput,
};
use crate::text::{decimal, escape_html, html_escaped, push_text, str_eq, u64_to_decimal};

verus! {

pub const GUARDS_HEAD: &'static str = "<!DOCTYPE html>\n<html>\n<head>\n<title>Dynamo Guards</title>\n<style>\nbody { font-family: -apple-system, BlinkMacSystemFont, \"Segoe UI\", Roboto, sans-serif; margin: 20px; }\ntable { border-collapse: collapse; width: 100%; }\nth, td { border: 1px solid #ddd; padding: 8px; text-align: left; vertical-align: top; }\nth { background-color: #f5f5f5; }\ntr:nth-child(even) { background-color: #fafafa; }\npre { margin: 0; white-space: pre-wrap; word-wrap: break-word; font-size: 12px; }\n.guard-types { font-size: 11px; color: #666; }\n.filter-box { margin-bottom: 16px; }\n.filter-box input { padding: 8px; width: 300px; border: 1px solid #ddd; border-radius: 4px; }\n.count { color: #666; font-size: 14px; margin-left: 10px; }\n</style>\n<script>\nfunction filterGuards() {\n    const input = document.getElementById('filter-input');\n    const filter = input.value.toLowerCase();\n    const table = document.getElementById('guards-table');\n    const rows = table.getElementsByClassName('guard-row');\n    let visible = 0;\n\n    for (let i = 0; i < rows.length; i++) {\n        const row = rows[i];\n        const text = row.textContent.toLowerCase();\n        if (text.includes(filter)) {\n            row.style.display = '';\n            visible++;\n        } else {\n            row.style.display = 'none';\n        }\n    }\n\n    document.getElementById('count').textContent = visible + ' / ' + rows.length + ' guards';\n}\n</script>\n</head>\n<body>\n<h1>Dynamo Guards</h1>\n<div class=\"filter-box\">\n    <input type=\"text\" id=\"filter-input\" placeholder=\"Filter guards...\" oninput=\"filterGuards()\">\n    <span id=\"count\" class=\"count\">";

pub const GUARDS_TABLE_HEAD: &'static str = "<table id=\"guards-table\">\n<thead>\n<tr>\n<th>Code</th>\n<th>Type</th>\n<th>Guard Types</th>\n</tr>\n</thead>\n<tbody>\n";

pub const GUARDS_TAIL: &'static str = "</tbody>\n</table>\n</body>\n</html>";

/// The guards that the payload of a guards record lists: the elements of its
/// JSON array; none when there is no payload or it is not an array.
pub open spec fn guard_items(e: IntermediateEntry) -> Seq<JsonValue> {
    match e.payload {
        None => Seq::empty(),
        Some(p) => match parse_json_of(p@) {
            Some(JsonValue::Array(a)) => a@,
            _ => Seq::empty(),
        },
    }
}

/// One row of the guards table: code, type and guard types.
pub open spec fn guard_row(g: JsonValue) -> Seq<char> {
    "<tr class=\"guard-row\">\n<td><pre>"@ + html_escaped(or_default(str_field(g, "code"@), Seq::empty()))
        + "</pre></td>\n<td>"@ + html_escaped(or_default(str_field(g, "type"@), Seq::empty()))
        + "</td>\n<td class=\"guard-types\">"@ + joined(string_elements(array_field(g, "guard_types"@)))
        + "</td>\n</tr>\n"@
}

pub open spec fn guard_rows(gs: Seq<JsonValue>) -> Seq<char>
    decreases gs.len(),
{
    if gs.len() == 0 {
        Seq::empty()
    } else {
        guard_rows(gs.drop_last()) + guard_row(gs.last())
    }
}

/// The guards page.
pub open spec fn guards_page(gs: Seq<JsonValue>) -> Seq<char> {
    GUARDS_HEAD@ + decimal(gs.len()) + " guards</span>\n</div>\n"@ + GUARDS_TABLE_HEAD@ + guard_rows(gs)
        + GUARDS_TAIL@
}

pub open spec fn guards_files(e: IntermediateEntry) -> Seq<(Seq<char>, Seq<char>)> {
    if e.entry_type@ == "dynamo_guards"@ {
        seq![(unit_path(unit_key(e), "dynamo_guards.html"@), guards_page(guard_items(e)))]
    } else {
        Seq::empty()
    }
}

pub open spec fn cpp_guards_files(e: IntermediateEntry) -> Seq<(Seq<char>, Seq<char>)> {
    if e.entry_type@ == "dynamo_cpp_guards_str"@ {
        seq![(unit_path(unit_key(e), "dynamo_cpp_guards_str.txt"@), payload_text(e))]
    } else {
        Seq::empty()
    }
}

pub open spec fn named_entry(e: IntermediateEntry, kind: Seq<char>, name: Seq<char>) -> Seq<(Seq<char>, Seq<char>, Seq<char>, Seq<char>)> {
    if e.entry_type@ == kind {
        seq![(unit_key(e), name, unit_path(unit_key(e), name), Seq::empty())]
    } else {
        Seq::empty()
    }
}

fn push_joined(html: &mut String, parts: &Vec<String>)
    ensures
        final(html)@ == old(html)@ + joined(parts@.map_values(|a: String| a@)),
{
    let ghost v = parts@.map_values(|a: String| a@);
    if parts.len() == 0 {
        assert(v =~= Seq::<Seq<char>>::empty());
        assert(html@ =~= old(html)@ + joined(v));
        return ;
    }
    push_text(html, parts[0].as_str());
    assert(v.subrange(0, 1) =~= seq![v[0]]);
    let mut i: usize = 1;
    while i < parts.len()
        invariant
            1 <= i <= parts@.len(),
            v == parts@.map_values(|a: String| a@),
            html@ == old(html)@ + joined(v.subrange(0, i as int)),
        decreases parts@.len() - i,
    {
        push_text(html, ", ");
        push_text(html, parts[i].as_str());
        proof {
            let s = v.subrange(0, i + 1);
            assert(s.drop_last() =~= v.subrange(0, i as int));
            assert(s.last() == parts@[i as int]@);
        }
        i = i + 1;
    }
    assert(v.subrange(0, parts@.len() as int) =~= v);
}

fn push_guard_row(html: &mut String, g: &JsonValue)
    ensures
        final(html)@ == old(html)@ + guard_row(*g),
{
    let code = match g.get_str("code") {
        Some(c) => escape_html(c),
        None => String::new(),
    };
    let ty = match g.get_str("type") {
        Some(t) => escape_html(t),
        None => String::new(),
    };
    let types = string_list(g, "guard_types");
    proof {
        assert(html_escaped(Seq::<char>::empty()) =~= Seq::<char>::empty());
        assert(types@.map_values(|a: String| a@) =~= string_elements(array_field(*g, "guard_types"@)));
    }
    push_text(html, "<tr class=\"guard-row\">\n<td><pre>");
    push_text(html, code.as_str());
    push_text(html, "</pre></td>\n<td>");
    push_text(html, ty.as_str());
    push_text(html, "</td>\n<td class=\"guard-types\">");
    push_joined(html, &types);
    push_text(html, "</td>\n</tr>\n");
    assert(html@ =~= old(html)@ + guard_row(*g));
}

/// Module that renders the guard files.
pub struct GuardsModule {
    pub plain_text: bool,
}

impl GuardsModule {
    pub fn new(plain_text: bool) -> (r: GuardsModule)
        ensures
            r.plain_text == plain_text,
    {
        GuardsModule { plain_text }
    }

    /// The guards page of a list of guards.
    pub fn render_guards_html(&self, guards: &Vec<JsonValue>) -> (r: String)
        ensures
            r@ == guards_page(guards@),
    {
        let mut html = GUARDS_HEAD.to_owned();
        let n = u64_to_decimal(guards.len() as u64);
        push_text(&mut html, n.as_str());
        push_text(&mut html, " guards</span>\n</div>\n");
        push_text(&mut html, GUARDS_TABLE_HEAD);
        let ghost start = html@;
        let mut i: usize = 0;
        assert(guards@.subrange(0, 0) =~= Seq::<JsonValue>::empty());
        while i < guards.len()
            invariant
                i <= guards@.len(),
                html@ == start + guard_rows(guards@.subrange(0, i as int)),
            decreases guards@.len() - i,
        {
            push_guard_row(&mut html, &guards[i]);
            proof {
                let s = guards@.subrange(0, i + 1);
                assert(s.drop_last() =~= guards@.subrange(0, i as int));
                assert(s.last() == guards@[i as int]);
            }
            i = i + 1;
        }
        push_text(&mut html, GUARDS_TAIL);
        assert(guards@.subrange(0, guards@.len() as int) =~= guards@);
        assert(html@ =~= guards_page(guards@));
        html
    }

    /// The guards listed by the payload of a guards record.
    pub fn guards_of(&self, e: &IntermediateEntry) -> (r: Vec<JsonValue>)
        ensures
            r@ == guard_items(*e),
    {
        match &e.payload {
            None => Vec::new(),
            Some(p) => match parse_json(p.as_str()) {
                Some(JsonValue::Array(a)) => a,
                _ => Vec::new(),
            },
        }
    }

    /// A guards page per `dynamo_guards` record and the C++ guard text per
    /// `dynamo_cpp_guards_str` record, under their compile ids.
    pub fn render_guards(&self, ctx: &ModuleContext) -> (r: Result<ModuleOutput, ModuleError>)
        requires
            ctx.wf(),
        ensures
            r is Err <==> (stream_records(*ctx, IntermediateFileType::Guards) is None
                || stream_records(*ctx, IntermediateFileType::Codegen) is None),
            r matches Ok(o) ==> files_view(o.files@) == gather(
                stream_records(*ctx, IntermediateFileType::Guards).unwrap(),
                |e: IntermediateEntry| guards_files(e),
            ) + gather(
                stream_records(*ctx, IntermediateFileType::Codegen).unwrap(),
                |e: IntermediateEntry| cpp_guards_files(e),
            ),
            r matches Ok(o) ==> entries_view(o.directory_entries.items@) == gather(
                stream_records(*ctx, IntermediateFileType::Guards).unwrap(),
                |e: IntermediateEntry| named_entry(e, "dynamo_guards"@, "dynamo_guards.html"@),
            ) + gather(
                stream_records(*ctx, IntermediateFileType::Codegen).unwrap(),
                |e: IntermediateEntry| named_entry(e, "dynamo_cpp_guards_str"@, "dynamo_cpp_guards_str.txt"@),
            ),
            r matches Ok(o) ==> o.index_contribution is None,
    {
        let guards = ctx.read_jsonl(IntermediateFileType::Guards)?;
        let codegen = ctx.read_jsonl(IntermediateFileType::Codegen)?;
        let mut files: Vec<(String, String)> = Vec::new();
        let mut entries = DirectoryEntries::new();
        let ghost f = |e: IntermediateEntry| guards_files(e);
        let ghost g = |e: IntermediateEntry| named_entry(e, "dynamo_guards"@, "dynamo_guards.html"@);
        let mut i: usize = 0;
        assert(files_view(files@) =~= gather(guards@.subrange(0, 0), f));
        assert(entries_view(entries.items@) =~= gather(guards@.subrange(0, 0), g));
        while i < guards.len()
            invariant
                i <= guards@.len(),
                f == (|e: IntermediateEntry| guards_files(e)),
                g == (|e: IntermediateEntry| named_entry(e, "dynamo_guards"@, "dynamo_guards.html"@)),
                files_view(files@) == gather(guards@.subrange(0, i as int), f),
                entries_view(entries.items@) == gather(guards@.subrange(0, i as int), g),
            decreases guards@.len() - i,
        {
            let e = &guards[i];
            proof {
                lemma_gather_step(guards@, f, i as int);
                lemma_gather_step(guards@, g, i as int);
                assert(""@ =~= Seq::<char>::empty()) by {
                    reveal_strlit("");
                }
            }
            if str_eq(e.entry_type.as_str(), "dynamo_guards") {
                let items = self.guards_of(e);
                let html = self.render_guards_html(&items);
                let key = unit_key_of(e);
                add_unit_file(&mut files, &mut entries, key.as_str(), "dynamo_guards.html", html, "");
            }
            assert(files_view(files@) =~= gather(guards@.subrange(0, i + 1), f));
            assert(entries_view(entries.items@) =~= gather(guards@.subrange(0, i + 1), g));
            i = i + 1;
        }
        proof {
            lemma_gather_all(guards@, f);
            lemma_gather_all(guards@, g);
        }
        let ghost files0 = files_view(files@);
        let ghost entries0 = entries_view(entries.items@);
        let ghost f2 = |e: IntermediateEntry| cpp_guards_files(e);
        let ghost g2 = |e: IntermediateEntry| named_entry(e, "dynamo_cpp_guards_str"@, "dynamo_cpp_guards_str.txt"@);
        let mut j: usize = 0;
        assert(files_view(files@) =~= files0 + gather(codegen@.subrange(0, 0), f2));
        assert(entries_view(entries.items@) =~= entries0 + gather(codegen@.subrange(0, 0), g2));
        while j < codegen.len()
            invariant
                j <= codegen@.len(),
                f2 == (|e: IntermediateEntry| cpp_guards_files(e)),
                g2 == (|e: IntermediateEntry| named_entry(e, "dynamo_cpp_guards_str"@, "dynamo_cpp_guards_str.txt"@)),
                files_view(files@) == files0 + gather(codegen@.subrange(0, j as int), f2),
                entries_view(entries.items@) == entries0 + gather(codegen@.subrange(0, j as int), g2),
            decreases codegen@.len() - j,
        {
            let e = &codegen[j];
            proof {
                lemma_gather_step(codegen@, f2, j as int);
                lemma_gather_step(codegen@, g2, j as int);
                assert(""@ =~= Seq::<char>::empty()) by {
                    reveal_strlit("");
                }
            }
            if str_eq(e.entry_type.as_str(), "dynamo_cpp_guards_str") {
                let content = payload_of(e);
                let key = unit_key_of(e);
                add_unit_file(&mut files, &mut entries, key.as_str(), "dynamo_cpp_guards_str.txt", content, "");
            }
            assert(files_view(files@) =~= files0 + gather(codegen@.subrange(0, j + 1), f2));
            assert(entries_view(entries.items@) =~= entries0 + gather(codegen@.subrange(0, j + 1), g2));
            j = j + 1;
        }
        proof {
            lemma_gather_all(codegen@, f2);
            lemma_gather_all(codegen@, g2);
        }
        Ok(ModuleOutput { files, directory_entries: entries, index_contribution: None })
    }
}

impl Module for GuardsModule {
    open spec fn id_is(&self, id: Seq<char>) -> bool {
        id == "guards"@
    }

    open spec fn output_ok(&self, ctx: ModuleContext, r: Result<ModuleOutput, ModuleError>) -> bool {
        &&& (r is Err <==> (stream_records(ctx, IntermediateFileType::Guards) is None
                || stream_records(ctx, IntermediateFileType::Codegen) is None))
        &&& (r matches Ok(o) ==> files_view(o.files@) == gather(
                stream_records(ctx, IntermediateFileType::Guards).unwrap(),
                |e: IntermediateEntry| guards_files(e),
            ) + gather(
                stream_records(ctx, IntermediateFileType::Codegen).unwrap(),
                |e: IntermediateEntry| cpp_guards_files(e),
            ))
        &&& (r matches Ok(o) ==> entries_view(o.directory_entries.items@) == gather(
                stream_records(ctx, IntermediateFileType::Guards).unwrap(),
                |e: IntermediateEntry| named_entry(e, "dynamo_guards"@, "dynamo_guards.html"@),
            ) + gather(
                stream_records(ctx, IntermediateFileType::Codegen).unwrap(),
                |e: IntermediateEntry| named_entry(e, "dynamo_cpp_guards_str"@, "dynamo_cpp_guards_str.txt"@),
            ))
        &&& (r matches Ok(o) ==> o.index_contribution is None)
    }

    fn name(&self) -> &'static str {
        "Dynamo Guards"
    }

    fn id(&self) -> (r: &'static str) {
        "guards"
    }

    fn subscriptions(&self) -> Vec<IntermediateFileType> {
        vec![IntermediateFileType::Guards, IntermediateFileType::Codegen]
    }

    fn render(&self, ctx: &ModuleContext) -> (r: Result<ModuleOutput, ModuleError>) {
        self.render_guards(ctx)
    }
}

} // verus!
