//! Export mode: the page of an export run, with the operators whose fake
//! kernels were missing or mismatched and the exported program.
use vstd::prelude::*;

use crate::intermediate::{IntermediateEntry, IntermediateFileType};
use crate::json::{or_default, str_field, str_field_or};
use crate::modules::context::{stream_records, ModuleContext};
use crate::modules::{
    gather, lemma_gather_all, lemma_gather_step, DirectoryEntries, IndexContribution, Module,
    ModuleError, ModuleOutput,
};
use crate::text::{decimal, escape_html, html_escaped, push_text, str_eq, u64_to_decimal};

verus! {

pub const EXPORT_HEAD: &'static str = "<!DOCTYPE html>\n<html>\n<head>\n<title>Export Analysis</title>\n<style>\nbody { font-family: -apple-system, BlinkMacSystemFont, \"Segoe UI\", Roboto, sans-serif; margin: 20px; }\ntable { border-collapse: collapse; width: 100%; margin-bottom: 20px; }\nth, td { border: 1px solid #ddd; padding: 8px; text-align: left; }\nth { background-color: #f5f5f5; }\ntr:nth-child(even) { background-color: #fafafa; }\n.error { color: #dc3545; }\n.success { color: #28a745; }\npre { background: #f8f8f8; padding: 10px; overflow-x: auto; }\ndetails { margin: 10px 0; }\nsummary { cursor: pointer; font-weight: bold; }\n</style>\n</head>\n<body>\n<h1>Export Analysis</h1>\n";

pub const EXPORT_TABLE_HEAD: &'static str = "<table>\n<thead>\n<tr>\n<th>Type</th>\n<th>Operator</th>\n<th>Reason</th>\n</tr>\n</thead>\n<tbody>\n";

/// A failure of an export: its kind, the operator and the reason.
pub struct ExportFailure {
    pub failure_type: String,
    pub op: String,
    pub reason: String,
}

pub open spec fn export_failure_view(f: ExportFailure) -> (Seq<char>, Seq<char>, Seq<char>) {
    (f.failure_type@, f.op@, f.reason@)
}

/// The failure an export record reports.
pub open spec fn export_failure_of(e: IntermediateEntry) -> Seq<(Seq<char>, Seq<char>, Seq<char>)> {
    if e.entry_type@ == "missing_fake_kernel"@ {
        seq![
            (
                "missing_fake_kernel"@,
                or_default(str_field(e.metadata, "op"@), "unknown"@),
                or_default(str_field(e.metadata, "reason"@), "No fake kernel registered"@),
            ),
        ]
    } else if e.entry_type@ == "mismatched_fake_kernel"@ {
        seq![
            (
                "mismatched_fake_kernel"@,
                or_default(str_field(e.metadata, "op"@), "unknown"@),
                or_default(str_field(e.metadata, "reason"@), "Output mismatch"@),
            ),
        ]
    } else {
        Seq::empty()
    }
}

/// The payload of the last `exported_program` record, if there is one.
pub open spec fn exported_program_of(records: Seq<IntermediateEntry>) -> Option<Option<Seq<char>>>
    decreases records.len(),
{
    if records.len() == 0 {
        None
    } else if records.last().entry_type@ == "exported_program"@ {
        Some(
            match records.last().payload {
                Some(p) => Some(p@),
                None => None,
            },
        )
    } else {
        exported_program_of(records.drop_last())
    }
}

pub open spec fn export_row(f: (Seq<char>, Seq<char>, Seq<char>)) -> Seq<char> {
    "<tr>\n<td class=\"error\">"@ + html_escaped(f.0) + "</td>\n<td><code>"@ + html_escaped(f.1)
        + "</code></td>\n<td>"@ + html_escaped(f.2) + "</td>\n</tr>\n"@
}

pub open spec fn export_rows(fs: Seq<(Seq<char>, Seq<char>, Seq<char>)>) -> Seq<char>
    decreases fs.len(),
{
    if fs.len() == 0 {
        Seq::empty()
    } else {
        export_rows(fs.drop_last()) + export_row(fs.last())
    }
}

/// The export page.
pub open spec fn export_page(fs: Seq<(Seq<char>, Seq<char>, Seq<char>)>, program: Option<Seq<char>>) -> Seq<char> {
    EXPORT_HEAD@ + (if fs.len() == 0 && program is Some {
        "<p class=\"success\">✅ Export successful</p>"@
    } else if fs.len() > 0 {
        "<p class=\"error\">❌ Export failed</p>"@
    } else {
        Seq::empty()
    }) + (if fs.len() > 0 {
        "<h2>Export Failures</h2>\n"@ + EXPORT_TABLE_HEAD@ + export_rows(fs) + "</tbody>\n</table>\n"@
    } else {
        Seq::empty()
    }) + match program {
        Some(p) => "<h2>Exported Program</h2>\n"@ + "<details open>\n<summary>View Program</summary>\n<pre>"@
            + html_escaped(p) + "</pre>\n</details>\n"@,
        None => Seq::empty(),
    } + "</body>\n</html>"@
}

/// The summary of the failures for the top-level page.
pub open spec fn export_summary(n: nat) -> Seq<char> {
    "<div class=\"export-failures-summary\">\n    <span class=\"failure-count\">"@ + decimal(n)
        + " export failure(s)</span>\n</div>"@
}

fn push_export_row(html: &mut String, f: &ExportFailure)
    ensures
        final(html)@ == old(html)@ + export_row(export_failure_view(*f)),
{
    let t = escape_html(f.failure_type.as_str());
    let o = escape_html(f.op.as_str());
    let r = escape_html(f.reason.as_str());
    push_text(html, "<tr>\n<td class=\"error\">");
    push_text(html, t.as_str());
    push_text(html, "</td>\n<td><code>");
    push_text(html, o.as_str());
    push_text(html, "</code></td>\n<td>");
    push_text(html, r.as_str());
    push_text(html, "</td>\n</tr>\n");
    assert(html@ =~= old(html)@ + export_row(export_failure_view(*f)));
}

/// Module that renders the export page.
pub struct ExportModule;

impl ExportModule {
    pub fn new() -> ExportModule {
        ExportModule
    }

    /// The export page of the failures and the exported program.
    pub fn render_export_index(&self, failures: &Vec<ExportFailure>, exported_program: &Option<String>) -> (r: String)
        ensures
            r@ == export_page(
                failures@.map_values(|f: ExportFailure| export_failure_view(f)),
                match exported_program {
                    Some(p) => Some(p@),
                    None => None,
                },
            ),
    {
        let ghost fs = failures@.map_values(|f: ExportFailure| export_failure_view(f));
        let mut html = EXPORT_HEAD.to_owned();
        let ghost a = html@;
        if failures.len() == 0 && exported_program.is_some() {
            push_text(&mut html, "<p class=\"success\">✅ Export successful</p>");
        } else if failures.len() > 0 {
            push_text(&mut html, "<p class=\"error\">❌ Export failed</p>");
        }
        let ghost b = html@;
        if failures.len() > 0 {
            push_text(&mut html, "<h2>Export Failures</h2>\n");
            push_text(&mut html, EXPORT_TABLE_HEAD);
            let ghost start = html@;
            let mut i: usize = 0;
            assert(fs.subrange(0, 0) =~= Seq::<(Seq<char>, Seq<char>, Seq<char>)>::empty());
            while i < failures.len()
                invariant
                    i <= failures@.len(),
                    fs == failures@.map_values(|f: ExportFailure| export_failure_view(f)),
                    html@ == start + export_rows(fs.subrange(0, i as int)),
                decreases failures@.len() - i,
            {
                push_export_row(&mut html, &failures[i]);
                proof {
                    let s = fs.subrange(0, i + 1);
                    assert(s.drop_last() =~= fs.subrange(0, i as int));
                    assert(s.last() == export_failure_view(failures@[i as int]));
                }
                i = i + 1;
            }
            assert(fs.subrange(0, failures@.len() as int) =~= fs);
            push_text(&mut html, "</tbody>\n</table>\n");
        }
        let ghost c = html@;
        if let Some(program) = exported_program {
            let p = escape_html(program.as_str());
            push_text(&mut html, "<h2>Exported Program</h2>\n");
            push_text(&mut html, "<details open>\n<summary>View Program</summary>\n<pre>");
            push_text(&mut html, p.as_str());
            push_text(&mut html, "</pre>\n</details>\n");
        }
        let ghost d = html@;
        push_text(&mut html, "</body>\n</html>");
        proof {
            let prog = match exported_program {
                Some(p) => Some(p@),
                None => None,
            };
            assert(b =~= a + (if fs.len() == 0 && prog is Some {
                "<p class=\"success\">✅ Export successful</p>"@
            } else if fs.len() > 0 {
                "<p class=\"error\">❌ Export failed</p>"@
            } else {
                Seq::empty()
            }));
            assert(c =~= b + (if fs.len() > 0 {
                "<h2>Export Failures</h2>\n"@ + EXPORT_TABLE_HEAD@ + export_rows(fs) + "</tbody>\n</table>\n"@
            } else {
                Seq::empty()
            }));
            assert(d =~= c + match prog {
                Some(p) => "<h2>Exported Program</h2>\n"@
                    + "<details open>\n<summary>View Program</summary>\n<pre>"@ + html_escaped(p)
                    + "</pre>\n</details>\n"@,
                None => Seq::empty(),
            });
            assert(html@ =~= export_page(fs, prog));
        }
        html
    }

    /// In export mode, the export page as `index.html` and a count of the
    /// failures; outside export mode, nothing.
    pub fn render_export(&self, ctx: &ModuleContext) -> (r: Result<ModuleOutput, ModuleError>)
        requires
            ctx.wf(),
        ensures
            r is Err <==> stream_records(*ctx, IntermediateFileType::Export) is None,
            r matches Ok(o) ==> o.directory_entries.items@.len() == 0,
            r matches Ok(o) ==> !ctx.config.export_mode ==> o.files@.len() == 0 && o.index_contribution is None,
            r matches Ok(o) ==> ctx.config.export_mode ==> ({
                let records = stream_records(*ctx, IntermediateFileType::Export).unwrap();
                let fs = gather(records, |e: IntermediateEntry| export_failure_of(e));
                let program = match exported_program_of(records) {
                    Some(p) => p,
                    None => None,
                };
                &&& o.files@.len() == 1
                &&& o.files@[0].0@ == "index.html"@
                &&& o.files@[0].1@ == export_page(fs, program)
                &&& (o.index_contribution is Some <==> fs.len() > 0)
                &&& o.index_contribution matches Some(c) ==> c.section@ == "Export Failures"@
                    && c.html@ == export_summary(fs.len())
            }),
    {
        let records = ctx.read_jsonl(IntermediateFileType::Export)?;
        let ghost f = |e: IntermediateEntry| export_failure_of(e);
        let mut failures: Vec<ExportFailure> = Vec::new();
        let mut exported_program: Option<String> = None;
        let ghost mut seen: Option<Option<Seq<char>>> = None;
        let mut i: usize = 0;
        assert(failures@.map_values(|x: ExportFailure| export_failure_view(x)) =~= gather(records@.subrange(0, 0), f));
        while i < records.len()
            invariant
                i <= records@.len(),
                f == (|e: IntermediateEntry| export_failure_of(e)),
                failures@.map_values(|x: ExportFailure| export_failure_view(x)) == gather(records@.subrange(0, i as int), f),
                failures@.len() <= i,
                (match exported_program {
                    Some(p) => Some(p@),
                    None => None,
                }) == (match exported_program_of(records@.subrange(0, i as int)) {
                    Some(p) => p,
                    None => None,
                }),
            decreases records@.len() - i,
        {
            let e = &records[i];
            proof {
                lemma_gather_step(records@, f, i as int);
                let s = records@.subrange(0, i + 1);
                assert(s.drop_last() =~= records@.subrange(0, i as int));
                assert(s.last() == records@[i as int]);
            }
            let ty = e.entry_type.as_str();
            if str_eq(ty, "missing_fake_kernel") {
                let op = str_field_or(&e.metadata, "op", "unknown");
                let reason = str_field_or(&e.metadata, "reason", "No fake kernel registered");
                failures.push(ExportFailure { failure_type: "missing_fake_kernel".to_owned(), op, reason });
            } else if str_eq(ty, "mismatched_fake_kernel") {
                let op = str_field_or(&e.metadata, "op", "unknown");
                let reason = str_field_or(&e.metadata, "reason", "Output mismatch");
                failures.push(ExportFailure { failure_type: "mismatched_fake_kernel".to_owned(), op, reason });
            }
            if str_eq(ty, "exported_program") {
                exported_program = match &e.payload {
                    Some(p) => Some(p.clone()),
                    None => None,
                };
            }
            assert(failures@.map_values(|x: ExportFailure| export_failure_view(x)) =~= gather(records@.subrange(0, i + 1), f));
            i = i + 1;
        }
        proof {
            lemma_gather_all(records@, f);
            assert(records@.subrange(0, records@.len() as int) =~= records@);
        }
        if !ctx.config.export_mode {
            return Ok(ModuleOutput::empty());
        }
        let html = self.render_export_index(&failures, &exported_program);
        let mut files: Vec<(String, String)> = Vec::new();
        files.push(("index.html".to_owned(), html));
        let index_contribution = if failures.len() > 0 {
            let n = u64_to_decimal(failures.len() as u64);
            let mut summary = "<div class=\"export-failures-summary\">\n    <span class=\"failure-count\">".to_owned();
            push_text(&mut summary, n.as_str());
            push_text(&mut summary, " export failure(s)</span>\n</div>");
            Some(IndexContribution { section: "Export Failures".to_owned(), html: summary })
        } else {
            None
        };
        Ok(ModuleOutput { files, directory_entries: DirectoryEntries::new(), index_contribution })
    }
}

impl Module for ExportModule {
    open spec fn id_is(&self, id: Seq<char>) -> bool {
        id == "export"@
    }

    open spec fn output_ok(&self, ctx: ModuleContext, r: Result<ModuleOutput, ModuleError>) -> bool {
        &&& (r is Err <==> stream_records(ctx, IntermediateFileType::Export) is None)
        &&& (r matches Ok(o) ==> o.directory_entries.items@.len() == 0)
        &&& (r matches Ok(o) ==> !ctx.config.export_mode ==> o.files@.len() == 0 && o.index_contribution is None)
        &&& (r matches Ok(o) ==> ctx.config.export_mode ==> ({
                let records = stream_records(ctx, IntermediateFileType::Export).unwrap();
                let fs = gather(records, |e: IntermediateEntry| export_failure_of(e));
                let program = match exported_program_of(records) {
                    Some(p) => p,
                    None => None,
                };
                &&& o.files@.len() == 1
                &&& o.files@[0].0@ == "index.html"@
                &&& o.files@[0].1@ == export_page(fs, program)
                &&& (o.index_contribution is Some <==> fs.len() > 0)
                &&& o.index_contribution matches Some(c) ==> c.section@ == "Export Failures"@
                    && c.html@ == export_summary(fs.len())
            }))
    }

    fn name(&self) -> &'static str {
        "Export"
    }

    fn id(&self) -> (r: &'static str) {
        "export"
    }

    fn subscriptions(&self) -> Vec<IntermediateFileType> {
        vec![IntermediateFileType::Export]
    }

    fn render(&self, ctx: &ModuleContext) -> (r: Result<ModuleOutput, ModuleError>) {
        self.render_export(ctx)
    }
}

} // verus!
