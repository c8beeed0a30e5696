//! Cache decisions: artifacts whose name marks a cache hit, miss or bypass,
//! each written under its compile id with a status glyph, and a summary of
//! the counts for the top-level page.
use vstd::prelude::*;

use crate::intermediate::{IntermediateEntry, IntermediateFileType};
use crate::json::{or_default, str_field, str_field_or};
use crate::modules::compile_artifacts::{
    artifact_content, artifact_file_name, artifact_output, cache_name, is_cache_artifact,
};
use crate::modules::context::{stream_records, ModuleContext};
use crate::modules::{
    add_unit_file, entries_view, files_view, gather, lemma_gather_all, lemma_gather_step,
    unit_key, unit_key_of, unit_path, DirectoryEntries, IndexContribution, Module, ModuleError,
    ModuleOutput,
};
use crate::text::{contains_seq, decimal, push_text, str_contains, str_eq, u64_to_decimal};

verus! {

/// The cache decision an artifact name records.
#[derive(Clone, Copy, Debug, PartialEq, Eq, Structural)]
pub enum CacheStatus {
    Hit,
    Miss,
    Bypass,
    Unknown,
}

pub open spec fn cache_status_of(name: Seq<char>) -> CacheStatus {
    if contains_seq(name, "cache_hit"@) {
        CacheStatus::Hit
    } else if contains_seq(name, "cache_miss"@) {
        CacheStatus::Miss
    } else if contains_seq(name, "cache_bypass"@) {
        CacheStatus::Bypass
    } else {
        CacheStatus::Unknown
    }
}

/// The glyph that follows a cache artifact in directory listings.
pub open spec fn status_glyph(s: CacheStatus) -> Seq<char> {
    match s {
        CacheStatus::Hit => "✅"@,
        CacheStatus::Miss => "❌"@,
        CacheStatus::Bypass => "❓"@,
        CacheStatus::Unknown => ""@,
    }
}

pub fn cache_status(name: &str) -> (r: CacheStatus)
    ensures
        r == cache_status_of(name@),
{
    if str_contains(name, "cache_hit") {
        CacheStatus::Hit
    } else if str_contains(name, "cache_miss") {
        CacheStatus::Miss
    } else if str_contains(name, "cache_bypass") {
        CacheStatus::Bypass
    } else {
        CacheStatus::Unknown
    }
}

pub fn glyph(s: CacheStatus) -> (r: &'static str)
    ensures
        r@ == status_glyph(s),
{
    match s {
        CacheStatus::Hit => "✅",
        CacheStatus::Miss => "❌",
        CacheStatus::Bypass => "❓",
        CacheStatus::Unknown => "",
    }
}

/// The name of an artifact record, or `cache_artifact`.
pub open spec fn cache_artifact_name(e: IntermediateEntry) -> Seq<char> {
    or_default(str_field(e.metadata, "name"@), "cache_artifact"@)
}

/// An artifact record that the cache renderer takes.
pub open spec fn cache_record(e: IntermediateEntry) -> bool {
    e.entry_type@ == "artifact"@ && cache_name(cache_artifact_name(e))
}

pub open spec fn cache_files(e: IntermediateEntry) -> Seq<(Seq<char>, Seq<char>)> {
    if cache_record(e) {
        seq![
            (
                unit_path(unit_key(e), artifact_file_name(e.metadata, "cache_artifact"@)),
                artifact_content(e),
            ),
        ]
    } else {
        Seq::empty()
    }
}

pub open spec fn cache_entries(e: IntermediateEntry) -> Seq<(Seq<char>, Seq<char>, Seq<char>, Seq<char>)> {
    if cache_record(e) {
        let name = artifact_file_name(e.metadata, "cache_artifact"@);
        seq![
            (
                unit_key(e),
                name,
                unit_path(unit_key(e), name),
                status_glyph(cache_status_of(cache_artifact_name(e))),
            ),
        ]
    } else {
        Seq::empty()
    }
}

/// How many cache records carry the status `s`.
pub open spec fn status_count(records: Seq<IntermediateEntry>, s: CacheStatus) -> nat
    decreases records.len(),
{
    if records.len() == 0 {
        0
    } else {
        status_count(records.drop_last(), s) + if cache_record(records.last())
            && cache_status_of(cache_artifact_name(records.last())) == s {
            1nat
        } else {
            0nat
        }
    }
}

proof fn lemma_status_count_le(records: Seq<IntermediateEntry>)
    ensures
        status_count(records, CacheStatus::Hit) + status_count(records, CacheStatus::Miss)
            + status_count(records, CacheStatus::Bypass) <= records.len(),
    decreases records.len(),
{
    if records.len() > 0 {
        lemma_status_count_le(records.drop_last());
    }
}

/// Counts of cache decisions.
pub struct CacheSummary {
    pub hits: usize,
    pub misses: usize,
    pub bypasses: usize,
}

impl CacheSummary {
    pub fn has_data(&self) -> (r: bool)
        ensures
            r == (self.hits > 0 || self.misses > 0 || self.bypasses > 0),
    {
        self.hits > 0 || self.misses > 0 || self.bypasses > 0
    }
}

/// The summary section of the counts.
pub open spec fn cache_summary_html(hits: nat, misses: nat, bypasses: nat) -> Seq<char> {
    "<div class=\"cache-summary\">\n    <span class=\"cache-stat cache-hit\" title=\"Cache hits\">✅ "@
        + decimal(hits) + " hit(s)</span>\n    <span class=\"cache-stat cache-miss\" title=\"Cache misses\">❌ "@
        + decimal(misses) + " miss(es)</span>\n    <span class=\"cache-stat cache-bypass\" title=\"Cache bypasses\">❓ "@
        + decimal(bypasses) + " bypass(es)</span>\n    <span class=\"cache-total\">("@ + decimal(
        hits + misses + bypasses,
    ) + " total)</span>\n</div>"@
}

/// Module that writes cache artifacts and the cache summary.
pub struct CacheModule;

impl CacheModule {
    pub fn new() -> CacheModule {
        CacheModule
    }

    pub fn render_cache_summary(&self, summary: &CacheSummary) -> (r: String)
        requires
            summary.hits + summary.misses + summary.bypasses <= usize::MAX,
        ensures
            r@ == cache_summary_html(
                summary.hits as nat,
                summary.misses as nat,
                summary.bypasses as nat,
            ),
    {
        let total = summary.hits + summary.misses + summary.bypasses;
        let h = u64_to_decimal(summary.hits as u64);
        let m = u64_to_decimal(summary.misses as u64);
        let b = u64_to_decimal(summary.bypasses as u64);
        let t = u64_to_decimal(total as u64);
        let mut s = "<div class=\"cache-summary\">\n    <span class=\"cache-stat cache-hit\" title=\"Cache hits\">✅ ".to_owned();
        push_text(&mut s, h.as_str());
        push_text(&mut s, " hit(s)</span>\n    <span class=\"cache-stat cache-miss\" title=\"Cache misses\">❌ ");
        push_text(&mut s, m.as_str());
        push_text(&mut s, " miss(es)</span>\n    <span class=\"cache-stat cache-bypass\" title=\"Cache bypasses\">❓ ");
        push_text(&mut s, b.as_str());
        push_text(&mut s, " bypass(es)</span>\n    <span class=\"cache-total\">(");
        push_text(&mut s, t.as_str());
        push_text(&mut s, " total)</span>\n</div>");
        assert(s@ =~= cache_summary_html(
            summary.hits as nat,
            summary.misses as nat,
            summary.bypasses as nat,
        ));
        s
    }

    /// The cache artifacts of the artifacts category, each under its compile
    /// id with its status glyph, and a summary when there was a decision.
    pub fn render_cache(&self, ctx: &ModuleContext) -> (r: Result<ModuleOutput, ModuleError>)
        requires
            ctx.wf(),
        ensures
            r is Err <==> stream_records(*ctx, IntermediateFileType::Artifacts) is None,
            r matches Ok(o) ==> files_view(o.files@) == gather(
                stream_records(*ctx, IntermediateFileType::Artifacts).unwrap(),
                |e: IntermediateEntry| cache_files(e),
            ),
            r matches Ok(o) ==> entries_view(o.directory_entries.items@) == gather(
                stream_records(*ctx, IntermediateFileType::Artifacts).unwrap(),
                |e: IntermediateEntry| cache_entries(e),
            ),
            r matches Ok(o) ==> ({
                let records = stream_records(*ctx, IntermediateFileType::Artifacts).unwrap();
                let hits = status_count(records, CacheStatus::Hit);
                let misses = status_count(records, CacheStatus::Miss);
                let bypasses = status_count(records, CacheStatus::Bypass);
                &&& (o.index_contribution is Some <==> hits + misses + bypasses > 0)
                &&& o.index_contribution matches Some(c) ==> c.section@ == "Cache Status"@
                    && c.html@ == cache_summary_html(hits, misses, bypasses)
            }),
    {
        let records = ctx.read_jsonl(IntermediateFileType::Artifacts)?;
        let ghost f = |e: IntermediateEntry| cache_files(e);
        let ghost g = |e: IntermediateEntry| cache_entries(e);
        let mut files: Vec<(String, String)> = Vec::new();
        let mut entries = DirectoryEntries::new();
        let mut summary = CacheSummary { hits: 0, misses: 0, bypasses: 0 };
        let mut i: usize = 0;
        assert(files_view(files@) =~= gather(records@.subrange(0, 0), f));
        assert(entries_view(entries.items@) =~= gather(records@.subrange(0, 0), g));
        while i < records.len()
            invariant
                i <= records@.len(),
                f == (|e: IntermediateEntry| cache_files(e)),
                g == (|e: IntermediateEntry| cache_entries(e)),
                files_view(files@) == gather(records@.subrange(0, i as int), f),
                entries_view(entries.items@) == gather(records@.subrange(0, i as int), g),
                summary.hits == status_count(records@.subrange(0, i as int), CacheStatus::Hit),
                summary.misses == status_count(records@.subrange(0, i as int), CacheStatus::Miss),
                summary.bypasses == status_count(records@.subrange(0, i as int), CacheStatus::Bypass),
                summary.hits + summary.misses + summary.bypasses <= i,
            decreases records@.len() - i,
        {
            let e = &records[i];
            proof {
                lemma_gather_step(records@, f, i as int);
                lemma_gather_step(records@, g, i as int);
                let pre = records@.subrange(0, i + 1);
                assert(pre.drop_last() =~= records@.subrange(0, i as int));
                assert(pre.last() == records@[i as int]);
            }
            if str_eq(e.entry_type.as_str(), "artifact") {
                let name = str_field_or(&e.metadata, "name", "cache_artifact");
                if is_cache_artifact(name.as_str()) {
                    let status = cache_status(name.as_str());
                    match status {
                        CacheStatus::Hit => summary.hits = summary.hits + 1,
                        CacheStatus::Miss => summary.misses = summary.misses + 1,
                        CacheStatus::Bypass => summary.bypasses = summary.bypasses + 1,
                        CacheStatus::Unknown => {},
                    }
                    let key = unit_key_of(e);
                    let (filename, content) = artifact_output(e, "cache_artifact");
                    add_unit_file(&mut files, &mut entries, key.as_str(), filename.as_str(), content, glyph(status));
                }
            }
            assert(files_view(files@) =~= gather(records@.subrange(0, i + 1), f));
            assert(entries_view(entries.items@) =~= gather(records@.subrange(0, i + 1), g));
            i = i + 1;
        }
        proof {
            lemma_gather_all(records@, f);
            lemma_gather_all(records@, g);
            assert(records@.subrange(0, records@.len() as int) =~= records@);
        }
        let index_contribution = if summary.has_data() {
            let html = self.render_cache_summary(&summary);
            Some(IndexContribution { section: "Cache Status".to_owned(), html })
        } else {
            None
        };
        Ok(ModuleOutput { files, directory_entries: entries, index_contribution })
    }
}

impl Module for CacheModule {
    open spec fn id_is(&self, id: Seq<char>) -> bool {
        id == "cache"@
    }

    open spec fn output_ok(&self, ctx: ModuleContext, r: Result<ModuleOutput, ModuleError>) -> bool {
        &&& (r is Err <==> stream_records(ctx, IntermediateFileType::Artifacts) is None)
        &&& (r matches Ok(o) ==> files_view(o.files@) == gather(
                stream_records(ctx, IntermediateFileType::Artifacts).unwrap(),
                |e: IntermediateEntry| cache_files(e),
            ))
        &&& (r matches Ok(o) ==> entries_view(o.directory_entries.items@) == gather(
                stream_records(ctx, IntermediateFileType::Artifacts).unwrap(),
                |e: IntermediateEntry| cache_entries(e),
            ))
        &&& (r matches Ok(o) ==> ({
                let records = stream_records(ctx, IntermediateFileType::Artifacts).unwrap();
                let hits = status_count(records, CacheStatus::Hit);
                let misses = status_count(records, CacheStatus::Miss);
                let bypasses = status_count(records, CacheStatus::Bypass);
                &&& (o.index_contribution is Some <==> hits + misses + bypasses > 0)
                &&& o.index_contribution matches Some(c) ==> c.section@ == "Cache Status"@
                    && c.html@ == cache_summary_html(hits, misses, bypasses)
            }))
    }

    fn name(&self) -> &'static str {
        "Cache"
    }

    fn id(&self) -> (r: &'static str) {
        "cache"
    }

    fn subscriptions(&self) -> Vec<IntermediateFileType> {
        vec![IntermediateFileType::Artifacts]
    }

    fn render(&self, ctx: &ModuleContext) -> (r: Result<ModuleOutput, ModuleError>) {
        self.render_cache(ctx)
    }
}

} // verus!
