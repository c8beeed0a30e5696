//! The trace-span events, written as one JSON array for trace viewers.
use vstd::prelude::*;

use crate::intermediate::IntermediateFileType;
use crate::json::{pretty_json, pretty_json_of};
use crate::text::push_text;
use crate::modules::context::ModuleContext;
use crate::modules::{
    DirectoryEntries, DirectoryEntry, IndexContribution, Module, ModuleError, ModuleOutput,
};

verus! {

/// The events as the text of one JSON array: their texts, separated by commas.
pub open spec fn array_text(items: Seq<Seq<char>>) -> Seq<char> {
    "["@ + comma_joined(items) + "]"@
}

pub open spec fn comma_joined(items: Seq<Seq<char>>) -> Seq<char>
    decreases items.len(),
{
    if items.len() == 0 {
        Seq::empty()
    } else if items.len() == 1 {
        items[0]
    } else {
        comma_joined(items.drop_last()) + ","@ + items.last()
    }
}

fn events_array_text(events: &Vec<String>) -> (r: String)
    ensures
        r@ == array_text(events@.map_values(|e: String| e@)),
{
    let ghost v = events@.map_values(|e: String| e@);
    let mut out = "[".to_owned();
    let mut i: usize = 0;
    assert(v.subrange(0, 0) =~= Seq::<Seq<char>>::empty());
    while i < events.len()
        invariant
            i <= events@.len(),
            v == events@.map_values(|e: String| e@),
            out@ == "["@ + comma_joined(v.subrange(0, i as int)),
        decreases events@.len() - i,
    {
        if i > 0 {
            push_text(&mut out, ",");
        }
        push_text(&mut out, events[i].as_str());
        proof {
            let w = v.subrange(0, i + 1);
            assert(w.drop_last() =~= v.subrange(0, i as int));
            assert(w.last() == events@[i as int]@);
            if i == 0 {
                assert(w =~= seq![v[0]]);
            }
            assert(out@ =~= "["@ + comma_joined(w));
        }
        i = i + 1;
    }
    push_text(&mut out, "]");
    assert(v.subrange(0, events@.len() as int) =~= v);
    out
}

/// The section of the top-level page that links the trace file.
pub const TRACE_LINK_HTML: &'static str = "<div class=\"chromium-trace\">\n                <a href=\"chromium_events.json\" target=\"_blank\">View Chromium Trace</a>\n                <span class=\"hint\">(Open in chrome://tracing)</span>\n            </div>";

/// Module that writes the trace-span events for a trace viewer.
pub struct ChromiumTraceModule;

impl ChromiumTraceModule {
    pub fn new() -> ChromiumTraceModule {
        ChromiumTraceModule
    }

    /// The events as `chromium_events.json`, listed under `__global__`, with a
    /// link on the top-level page; nothing when there are no events.
    pub fn render_trace(&self, ctx: &ModuleContext) -> (r: Result<ModuleOutput, ModuleError>)
        ensures
            ctx.chromium_events is Err ==> r is Err,
            ctx.chromium_events matches Ok(events) ==> ({
                let texts = events@.map_values(|e: String| e@);
                &&& (r is Err <==> events@.len() > 0 && pretty_json_of(array_text(texts)) is None)
                &&& r matches Ok(o) ==> (events@.len() == 0 ==> o.files@.len() == 0
                    && o.directory_entries.items@.len() == 0 && o.index_contribution is None)
                &&& r matches Ok(o) ==> (events@.len() > 0 ==> {
                    &&& o.files@.len() == 1
                    &&& o.files@[0].0@ == "chromium_events.json"@
                    &&& Some(o.files@[0].1@) == pretty_json_of(array_text(texts))
                    &&& o.directory_entries.items@.len() == 1
                    &&& o.directory_entries.items@[0].0@ == "__global__"@
                    &&& o.directory_entries.items@[0].1.name@ == "chromium_events.json"@
                    &&& o.directory_entries.items@[0].1.url@ == "chromium_events.json"@
                    &&& o.index_contribution matches Some(c) && c.section@ == "Chromium Trace"@
                        && c.html@ == TRACE_LINK_HTML@
                })
            }),
    {
        let events = ctx.read_chromium_events()?;
        if events.len() == 0 {
            return Ok(ModuleOutput::empty());
        }
        let text = events_array_text(events);
        let content = match pretty_json(text.as_str()) {
            Some(c) => c,
            None => {
                return Err(ModuleError { message: "a trace event is not valid JSON".to_owned() });
            },
        };
        let mut files: Vec<(String, String)> = Vec::new();
        files.push(("chromium_events.json".to_owned(), content));
        let mut entries = DirectoryEntries::new();
        entries.push("__global__", DirectoryEntry::new("chromium_events.json", "chromium_events.json"));
        Ok(
            ModuleOutput {
                files,
                directory_entries: entries,
                index_contribution: Some(
                    IndexContribution {
                        section: "Chromium Trace".to_owned(),
                        html: TRACE_LINK_HTML.to_owned(),
                    },
                ),
            },
        )
    }
}

impl Module for ChromiumTraceModule {
    open spec fn id_is(&self, id: Seq<char>) -> bool {
        id == "chromium_trace"@
    }

    open spec fn output_ok(&self, ctx: ModuleContext, r: Result<ModuleOutput, ModuleError>) -> bool {
        &&& (ctx.chromium_events is Err ==> r is Err)
        &&& (ctx.chromium_events matches Ok(events) ==> ({
                let texts = events@.map_values(|e: String| e@);
                &&& (r is Err <==> events@.len() > 0 && pretty_json_of(array_text(texts)) is None)
                &&& r matches Ok(o) ==> (events@.len() == 0 ==> o.files@.len() == 0
                    && o.directory_entries.items@.len() == 0 && o.index_contribution is None)
                &&& r matches Ok(o) ==> (events@.len() > 0 ==> {
                    &&& o.files@.len() == 1
                    &&& o.files@[0].0@ == "chromium_events.json"@
                    &&& Some(o.files@[0].1@) == pretty_json_of(array_text(texts))
                    &&& o.directory_entries.items@.len() == 1
                    &&& o.directory_entries.items@[0].0@ == "__global__"@
                    &&& o.directory_entries.items@[0].1.name@ == "chromium_events.json"@
                    &&& o.directory_entries.items@[0].1.url@ == "chromium_events.json"@
                    &&& o.index_contribution matches Some(c) && c.section@ == "Chromium Trace"@
                        && c.html@ == TRACE_LINK_HTML@
                })
            }))
    }

    fn name(&self) -> &'static str {
        "Chromium Trace"
    }

    fn id(&self) -> (r: &'static str) {
        "chromium_trace"
    }

    fn subscriptions(&self) -> Vec<IntermediateFileType> {
        vec![IntermediateFileType::ChromiumEvents]
    }

    fn render(&self, ctx: &ModuleContext) -> (r: Result<ModuleOutput, ModuleError>) {
        self.render_trace(ctx)
    }
}

} // verus!
