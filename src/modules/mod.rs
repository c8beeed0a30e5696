//! Modules: independent, failure-isolated transformations from the category
//! records of a finalized intermediate set to report files, directory links
//! and sections of the top-level page.
use vstd::prelude::*;

use crate::intermediate::{IntermediateEntry, IntermediateFileType};
use crate::text::str_eq;

pub mod cache;
pub mod chromium_trace;
pub mod compilation_metrics;
pub mod compile_artifacts;
pub mod compile_directory;
pub mod context;
pub mod export;
pub mod guards;
pub mod index_generator;
pub mod stack_trie;
pub mod symbolic_shapes;

pub use cache::CacheModule;
pub use chromium_trace::ChromiumTraceModule;
pub use compilation_metrics::CompilationMetricsModule;
pub use compile_artifacts::CompileArtifactsModule;
pub use compile_directory::CompileDirectoryModule;
pub use context::ModuleContext;
pub use export::ExportModule;
pub use guards::GuardsModule;
pub use index_generator::IndexGeneratorModule;
pub use stack_trie::StackTrieModule;
pub use symbolic_shapes::SymbolicShapesModule;

verus! {

/// Why a module produced nothing.
pub struct ModuleError {
    pub message: String,
}

/// A module transforms category records into output files.
///
/// Modules are stateless: they declare the categories they read, read them
/// through the context, and produce files and directory entries.
pub trait Module {
    /// What a render of this module against `ctx` returns: each module of this
    /// library states its files, directory entries and section exactly; a
    /// module that does not say promises nothing.
    open spec fn output_ok(&self, ctx: ModuleContext, r: Result<ModuleOutput, ModuleError>) -> bool {
        true
    }

    /// Human-readable name for display.
    fn name(&self) -> &'static str;

    /// Whether `id` is this module's identifier; a module that does not say
    /// allows any.
    open spec fn id_is(&self, id: Seq<char>) -> bool {
        true
    }

    /// Short identifier used in file naming.
    fn id(&self) -> (r: &'static str)
        ensures
            self.id_is(r@),
    ;

    /// The categories this module reads.
    fn subscriptions(&self) -> Vec<IntermediateFileType>;

    /// Generates outputs from the intermediate records.
    fn render(&self, ctx: &ModuleContext) -> (r: Result<ModuleOutput, ModuleError>)
        requires
            ctx.wf(),
        ensures
            self.output_ok(*ctx, r),
    ;
}

/// An entry in the compile directory, displayed as a link.
pub struct DirectoryEntry {
    /// Display name for the link.
    pub name: String,
    /// Relative path or external URL.
    pub url: String,
    /// Status glyph after the link, possibly empty.
    pub suffix: String,
}

impl DirectoryEntry {
    pub fn new(name: &str, url: &str) -> (r: DirectoryEntry)
        ensures
            r.name@ == name@,
            r.url@ == url@,
            r.suffix@ == Seq::<char>::empty(),
    {
        DirectoryEntry { name: name.to_owned(), url: url.to_owned(), suffix: String::new() }
    }

    pub fn with_suffix(self, suffix: &str) -> (r: DirectoryEntry)
        ensures
            r.name == self.name,
            r.url == self.url,
            r.suffix@ == suffix@,
    {
        DirectoryEntry { name: self.name, url: self.url, suffix: suffix.to_owned() }
    }
}

/// The entries of `items` filed under `key`, in order.
pub open spec fn entries_under(items: Seq<(String, DirectoryEntry)>, key: Seq<char>) -> Seq<
    DirectoryEntry,
>
    decreases items.len(),
{
    if items.len() == 0 {
        Seq::empty()
    } else {
        let rest = entries_under(items.drop_last(), key);
        if items.last().0@ == key {
            rest.push(items.last().1)
        } else {
            rest
        }
    }
}

pub proof fn lemma_entries_under_concat(
    a: Seq<(String, DirectoryEntry)>,
    b: Seq<(String, DirectoryEntry)>,
    key: Seq<char>,
)
    ensures
        entries_under(a + b, key) == entries_under(a, key) + entries_under(b, key),
    decreases b.len(),
{
    if b.len() == 0 {
        assert(a + b =~= a);
        assert(entries_under(a, key) + entries_under(b, key) =~= entries_under(a, key));
    } else {
        lemma_entries_under_concat(a, b.drop_last(), key);
        assert((a + b).drop_last() =~= a + b.drop_last());
        assert((a + b).last() == b.last());
        if b.last().0@ == key {
            assert(entries_under(a, key) + entries_under(b, key) =~= (entries_under(a, key)
                + entries_under(b.drop_last(), key)).push(b.last().1));
        }
    }
}

/// Directory entries grouped by key: a compile id, or `__global__` for
/// entries tied to no compile id. Entries keep their insertion order.
pub struct DirectoryEntries {
    pub items: Vec<(String, DirectoryEntry)>,
}

impl DirectoryEntries {
    pub fn new() -> (r: DirectoryEntries)
        ensures
            r.items@.len() == 0,
    {
        DirectoryEntries { items: Vec::new() }
    }

    /// Files `entry` under `key`, after the entries already there.
    pub fn push(&mut self, key: &str, entry: DirectoryEntry)
        ensures
            final(self).items@.len() == old(self).items@.len() + 1,
            final(self).items@.drop_last() == old(self).items@,
            final(self).items@.last().0@ == key@,
            final(self).items@.last().1 == entry,
    {
        self.items.push((key.to_owned(), entry));
        assert(self.items@.drop_last() =~= old(self).items@);
    }

    /// The entries filed under `key`.
    pub fn get(&self, key: &str) -> (r: Vec<&DirectoryEntry>)
        ensures
            r@.len() == entries_under(self.items@, key@).len(),
            forall|i: int| 0 <= i < r@.len() ==> *r@[i] == entries_under(self.items@, key@)[i],
    {
        let mut out: Vec<&DirectoryEntry> = Vec::new();
        let mut i: usize = 0;
        while i < self.items.len()
            invariant
                i <= self.items@.len(),
                out@.len() == entries_under(self.items@.subrange(0, i as int), key@).len(),
                forall|j: int|
                    0 <= j < out@.len() ==> *out@[j] == entries_under(
                        self.items@.subrange(0, i as int),
                        key@,
                    )[j],
            decreases self.items@.len() - i,
        {
            assert(self.items@.subrange(0, i + 1).drop_last() =~= self.items@.subrange(
                0,
                i as int,
            ));
            if str_eq(self.items[i].0.as_str(), key) {
                out.push(&self.items[i].1);
            }
            i = i + 1;
        }
        assert(self.items@.subrange(0, self.items@.len() as int) =~= self.items@);
        out
    }

    /// The number of entries under all keys.
    pub fn len(&self) -> (r: usize)
        ensures
            r == self.items@.len(),
    {
        self.items.len()
    }
}

/// Contribution to the top-level page from a module.
pub struct IndexContribution {
    /// Section name (e.g. "Stack Trie").
    pub section: String,
    /// HTML content to insert.
    pub html: String,
}

/// Output produced by a module.
pub struct ModuleOutput {
    /// Files to write: relative path and content.
    pub files: Vec<(String, String)>,
    /// Entries to add to the compile directory.
    pub directory_entries: DirectoryEntries,
    /// Optional section of the top-level page.
    pub index_contribution: Option<IndexContribution>,
}

impl ModuleOutput {
    /// An output with nothing in it.
    pub fn empty() -> (r: ModuleOutput)
        ensures
            r.files@.len() == 0,
            r.directory_entries.items@.len() == 0,
            r.index_contribution is None,
    {
        ModuleOutput {
            files: Vec::new(),
            directory_entries: DirectoryEntries::new(),
            index_contribution: None,
        }
    }
}

/// Configuration passed to modules.
pub struct ModuleConfig {
    /// Plain text output, without syntax highlighting.
    pub plain_text: bool,
    /// Custom HTML for the page header.
    pub custom_header_html: String,
    /// Whether the run is in export mode.
    pub export_mode: bool,
}

impl ModuleConfig {
    pub fn default() -> (r: ModuleConfig)
        ensures
            !r.plain_text,
            r.custom_header_html@ == Seq::<char>::empty(),
            !r.export_mode,
    {
        ModuleConfig { plain_text: false, custom_header_html: String::new(), export_mode: false }
    }
}

/// A module whose render failed, and why.
pub struct ModuleFailure {
    pub module_name: String,
    pub message: String,
}

/// Combined output from all modules.
pub struct CombinedOutput {
    /// All files to write.
    pub files: Vec<(String, String)>,
    /// All directory entries.
    pub directory_entries: DirectoryEntries,
    /// All index contributions.
    pub index_contributions: Vec<IndexContribution>,
    /// The modules that failed, in registration order.
    pub failures: Vec<ModuleFailure>,
}

/// What one module's render adds to the combined output's files.
pub open spec fn ok_files(r: Result<ModuleOutput, ModuleError>) -> Seq<(String, String)> {
    match r {
        Ok(o) => o.files@,
        Err(_) => Seq::empty(),
    }
}

pub open spec fn ok_entries(r: Result<ModuleOutput, ModuleError>) -> Seq<(String, DirectoryEntry)> {
    match r {
        Ok(o) => o.directory_entries.items@,
        Err(_) => Seq::empty(),
    }
}

pub open spec fn ok_contributions(r: Result<ModuleOutput, ModuleError>) -> Seq<IndexContribution> {
    match r {
        Ok(o) => match o.index_contribution {
            Some(c) => seq![c],
            None => Seq::empty(),
        },
        Err(_) => Seq::empty(),
    }
}

/// The files of every successful render, in order.
pub open spec fn all_files(rs: Seq<Result<ModuleOutput, ModuleError>>) -> Seq<(String, String)>
    decreases rs.len(),
{
    if rs.len() == 0 {
        Seq::empty()
    } else {
        all_files(rs.drop_last()) + ok_files(rs.last())
    }
}

/// The directory entries of every successful render, in order.
pub open spec fn all_entries(rs: Seq<Result<ModuleOutput, ModuleError>>) -> Seq<
    (String, DirectoryEntry),
>
    decreases rs.len(),
{
    if rs.len() == 0 {
        Seq::empty()
    } else {
        all_entries(rs.drop_last()) + ok_entries(rs.last())
    }
}

/// The index contributions of every successful render, in order.
pub open spec fn all_contributions(rs: Seq<Result<ModuleOutput, ModuleError>>) -> Seq<
    IndexContribution,
>
    decreases rs.len(),
{
    if rs.len() == 0 {
        Seq::empty()
    } else {
        all_contributions(rs.drop_last()) + ok_contributions(rs.last())
    }
}

/// How many renders failed.
pub open spec fn failure_count(rs: Seq<Result<ModuleOutput, ModuleError>>) -> nat
    decreases rs.len(),
{
    if rs.len() == 0 {
        0
    } else {
        failure_count(rs.drop_last()) + if rs.last() is Err {
            1nat
        } else {
            0nat
        }
    }
}

/// The combined output holds exactly what the successful renders `rs` produced.
pub open spec fn combines(c: CombinedOutput, rs: Seq<Result<ModuleOutput, ModuleError>>) -> bool {
    &&& c.files@ == all_files(rs)
    &&& c.directory_entries.items@ == all_entries(rs)
    &&& c.index_contributions@ == all_contributions(rs)
    &&& c.failures@.len() == failure_count(rs)
}

impl CombinedOutput {
    pub fn new() -> (r: CombinedOutput)
        ensures
            combines(r, Seq::empty()),
    {
        let r = CombinedOutput {
            files: Vec::new(),
            directory_entries: DirectoryEntries::new(),
            index_contributions: Vec::new(),
            failures: Vec::new(),
        };
        let ghost none = Seq::<Result<ModuleOutput, ModuleError>>::empty();
        assert(r.files@ =~= all_files(none));
        assert(r.directory_entries.items@ =~= all_entries(none));
        assert(r.index_contributions@ =~= all_contributions(none));
        r
    }

    /// Merges the output of one module: files are concatenated, directory
    /// entries appended under their keys, and the contribution appended.
    pub fn merge(&mut self, output: ModuleOutput)
        ensures
            final(self).files@ == old(self).files@ + output.files@,
            final(self).directory_entries.items@ == old(self).directory_entries.items@
                + output.directory_entries.items@,
            forall|key: Seq<char>|
                #![trigger entries_under(final(self).directory_entries.items@, key)]
                entries_under(final(self).directory_entries.items@, key) == entries_under(
                    old(self).directory_entries.items@,
                    key,
                ) + entries_under(output.directory_entries.items@, key),
            final(self).index_contributions@ == old(self).index_contributions@ + match output.index_contribution {
                Some(c) => seq![c],
                None => Seq::<IndexContribution>::empty(),
            },
            final(self).failures == old(self).failures,
    {
        let ghost out_items = output.directory_entries.items@;
        let ghost out_contrib = output.index_contribution;
        let mut files = output.files;
        self.files.append(&mut files);
        let mut items = output.directory_entries.items;
        self.directory_entries.items.append(&mut items);
        proof {
            assert forall|key: Seq<char>|
                #![trigger entries_under(self.directory_entries.items@, key)]
                entries_under(self.directory_entries.items@, key) == entries_under(
                    old(self).directory_entries.items@,
                    key,
                ) + entries_under(out_items, key) by {
                lemma_entries_under_concat(old(self).directory_entries.items@, out_items, key);
            }
        }
        if let Some(c) = output.index_contribution {
            self.index_contributions.push(c);
        }
        proof {
            match out_contrib {
                Some(c) => {},
                None => {
                    assert(self.index_contributions@ =~= old(self).index_contributions@
                        + Seq::<IndexContribution>::empty());
                },
            }
        }
    }

    /// Records that the module `name` failed; its output is left out.
    pub fn record_failure(&mut self, name: &str, error: ModuleError)
        ensures
            final(self).files == old(self).files,
            final(self).directory_entries == old(self).directory_entries,
            final(self).index_contributions == old(self).index_contributions,
            final(self).failures@.len() == old(self).failures@.len() + 1,
    {
        self.failures.push(ModuleFailure { module_name: name.to_owned(), message: error.message });
    }

    /// Adds the result of one module's render: its output when it succeeded, a
    /// failure record when it did not.
    pub fn absorb(&mut self, name: &str, result: Result<ModuleOutput, ModuleError>)
        ensures
            final(self).files@ == old(self).files@ + ok_files(result),
            final(self).directory_entries.items@ == old(self).directory_entries.items@
                + ok_entries(result),
            final(self).index_contributions@ == old(self).index_contributions@ + ok_contributions(
                result,
            ),
            final(self).failures@.len() == old(self).failures@.len() + if result is Err {
                1nat
            } else {
                0nat
            },
    {
        match result {
            Ok(o) => {
                let ghost g = o;
                self.merge(o);
                proof {
                    match g.index_contribution {
                        Some(c) => {},
                        None => {},
                    }
                }
            },
            Err(e) => {
                self.record_failure(name, e);
                assert(self.files@ =~= old(self).files@ + Seq::<(String, String)>::empty());
                assert(self.directory_entries.items@ =~= old(self).directory_entries.items@
                    + Seq::<(String, DirectoryEntry)>::empty());
                assert(self.index_contributions@ =~= old(self).index_contributions@
                    + Seq::<IndexContribution>::empty());
            },
        }
    }
}

proof fn lemma_combine_concat(
    a: Seq<Result<ModuleOutput, ModuleError>>,
    b: Seq<Result<ModuleOutput, ModuleError>>,
)
    ensures
        all_files(a + b) == all_files(a) + all_files(b),
        all_entries(a + b) == all_entries(a) + all_entries(b),
        all_contributions(a + b) == all_contributions(a) + all_contributions(b),
    decreases b.len(),
{
    if b.len() == 0 {
        assert(a + b =~= a);
        assert(all_files(a) + all_files(b) =~= all_files(a));
        assert(all_entries(a) + all_entries(b) =~= all_entries(a));
        assert(all_contributions(a) + all_contributions(b) =~= all_contributions(a));
    } else {
        lemma_combine_concat(a, b.drop_last());
        assert((a + b).drop_last() =~= a + b.drop_last());
        assert((a + b).last() == b.last());
        assert(all_files(a) + all_files(b) =~= all_files(a) + all_files(b.drop_last())
            + ok_files(b.last()));
        assert(all_entries(a) + all_entries(b) =~= all_entries(a) + all_entries(b.drop_last())
            + ok_entries(b.last()));
        assert(all_contributions(a) + all_contributions(b) =~= all_contributions(a)
            + all_contributions(b.drop_last()) + ok_contributions(b.last()));
    }
}

/// A failing module costs only its own output: when the render at position
/// `k` fails, the combined files, directory entries and index contributions
/// are exactly those of the other modules, in their order.
pub proof fn lemma_module_isolation(rs: Seq<Result<ModuleOutput, ModuleError>>, k: int)
    requires
        0 <= k < rs.len(),
        rs[k] is Err,
    ensures
        all_files(rs) == all_files(rs.remove(k)),
        all_entries(rs) == all_entries(rs.remove(k)),
        all_contributions(rs) == all_contributions(rs.remove(k)),
        failure_count(rs) >= 1,
{
    let pre = rs.subrange(0, k);
    let post = rs.subrange(k + 1, rs.len() as int);
    let mid = seq![rs[k]];
    assert(rs =~= pre + mid + post);
    assert(rs.remove(k) =~= pre + post);
    lemma_combine_concat(pre + mid, post);
    lemma_combine_concat(pre, mid);
    lemma_combine_concat(pre, post);
    let none = Seq::<Result<ModuleOutput, ModuleError>>::empty();
    assert(mid.drop_last() =~= none);
    assert(mid.last() == rs[k]);
    assert(all_files(none) =~= Seq::<(String, String)>::empty());
    assert(all_entries(none) =~= Seq::<(String, DirectoryEntry)>::empty());
    assert(all_contributions(none) =~= Seq::<IndexContribution>::empty());
    assert(all_files(mid) =~= Seq::<(String, String)>::empty());
    assert(all_entries(mid) =~= Seq::<(String, DirectoryEntry)>::empty());
    assert(all_contributions(mid) =~= Seq::<IndexContribution>::empty());
    assert(all_files(pre) + all_files(mid) =~= all_files(pre));
    assert(all_entries(pre) + all_entries(mid) =~= all_entries(pre));
    assert(all_contributions(pre) + all_contributions(mid) =~= all_contributions(pre));
    lemma_failure_count_at(rs, k);
}

/// When every render fails the run still completes: the combined output has
/// no files, no directory entries and no contributions, and every module is
/// recorded as failed.
pub proof fn lemma_all_failed(rs: Seq<Result<ModuleOutput, ModuleError>>)
    requires
        forall|i: int| 0 <= i < rs.len() ==> #[trigger] rs[i] is Err,
    ensures
        all_files(rs) == Seq::<(String, String)>::empty(),
        all_entries(rs) == Seq::<(String, DirectoryEntry)>::empty(),
        all_contributions(rs) == Seq::<IndexContribution>::empty(),
        failure_count(rs) == rs.len(),
    decreases rs.len(),
{
    if rs.len() > 0 {
        let p = rs.drop_last();
        assert forall|i: int| 0 <= i < p.len() implies #[trigger] p[i] is Err by {
            assert(p[i] == rs[i]);
        }
        lemma_all_failed(p);
        assert(rs.last() == rs[rs.len() - 1]);
        assert(all_files(rs) =~= all_files(p) + ok_files(rs.last()));
        assert(all_entries(rs) =~= all_entries(p) + ok_entries(rs.last()));
        assert(all_contributions(rs) =~= all_contributions(p) + ok_contributions(rs.last()));
    }
}

proof fn lemma_failure_count_at(rs: Seq<Result<ModuleOutput, ModuleError>>, k: int)
    requires
        0 <= k < rs.len(),
        rs[k] is Err,
    ensures
        failure_count(rs) >= 1,
    decreases rs.len(),
{
    if k < rs.len() - 1 {
        lemma_failure_count_at(rs.drop_last(), k);
    }
}

/// Registry of modules, run in registration order.
/// A module of a registry.
pub struct RegisteredModule {
    pub module: Box<dyn Module>,
}

impl RegisteredModule {
    /// The module's display name.
    pub fn name(&self) -> &'static str {
        self.module.name()
    }

    /// The module's identifier.
    pub fn id(&self) -> (r: &'static str)
        ensures
            self.module.id_is(r@),
    {
        self.module.id()
    }
}

/// The module has identifier `id` and no other.
pub open spec fn has_id(m: RegisteredModule, id: Seq<char>) -> bool {
    forall|s: Seq<char>| #[trigger] m.module.id_is(s) <==> s == id
}

/// Registry of modules, run in registration order.
pub struct ModuleRegistry {
    pub modules: Vec<RegisteredModule>,
}

impl ModuleRegistry {
    /// An empty registry.
    pub fn new() -> (r: ModuleRegistry)
        ensures
            r.modules@.len() == 0,
    {
        ModuleRegistry { modules: Vec::new() }
    }

    /// Registers a module after the ones already there.
    pub fn register(&mut self, module: Box<dyn Module>)
        ensures
            final(self).modules@ == old(self).modules@.push((RegisteredModule { module })),
    {
        self.modules.push(RegisteredModule { module });
    }

    /// All registered modules.
    pub fn modules(&self) -> (r: &Vec<RegisteredModule>)
        ensures
            r@ == self.modules@,
    {
        &self.modules
    }

    /// Renders every module against the one context and combines the
    /// successful outputs; a module that fails is recorded and skipped, and the
    /// run goes on with the next.
    pub fn render_all(&self, ctx: &ModuleContext) -> (r: CombinedOutput)
        requires
            ctx.wf(),
        ensures
            exists|rs: Seq<Result<ModuleOutput, ModuleError>>|
                rs.len() == self.modules@.len() && combines(r, rs) && forall|i: int|
                    0 <= i < rs.len() ==> #[trigger] self.modules@[i].module.output_ok(*ctx, rs[i]),
    {
        let mut combined = CombinedOutput::new();
        let ghost mut rs: Seq<Result<ModuleOutput, ModuleError>> = Seq::empty();
        let mut i: usize = 0;
        while i < self.modules.len()
            invariant
                i <= self.modules@.len(),
                ctx.wf(),
                rs.len() == i,
                combines(combined, rs),
                forall|j: int| 0 <= j < i ==> #[trigger] self.modules@[j].module.output_ok(*ctx, rs[j]),
            decreases self.modules@.len() - i,
        {
            let module = &self.modules[i].module;
            let result = module.render(ctx);
            let ghost g = result;
            combined.absorb(module.name(), result);
            proof {
                let prev = rs;
                rs = rs.push(g);
                assert(rs.drop_last() =~= prev);
                assert forall|j: int| 0 <= j < i + 1 implies #[trigger] self.modules@[j].module.output_ok(
                    *ctx,
                    rs[j],
                ) by {
                    if j < i {
                        assert(rs[j] == prev[j]);
                    }
                }
            }
            i = i + 1;
        }
        combined
    }
}


/// The path and content of each file, as text.
pub open spec fn files_view(files: Seq<(String, String)>) -> Seq<(Seq<char>, Seq<char>)> {
    files.map_values(|f: (String, String)| (f.0@, f.1@))
}

/// Key, name, url and suffix of each directory entry, as text.
pub open spec fn entries_view(items: Seq<(String, DirectoryEntry)>) -> Seq<
    (Seq<char>, Seq<char>, Seq<char>, Seq<char>),
> {
    items.map_values(
        |i: (String, DirectoryEntry)| (i.0@, i.1.name@, i.1.url@, i.1.suffix@),
    )
}

/// The relative path of a file of one compile id.
pub open spec fn unit_path(key: Seq<char>, filename: Seq<char>) -> Seq<char> {
    key + "/"@ + filename
}

/// Adds the file `key/filename` with `content`, and a directory entry for it
/// under `key` with the given suffix.
pub fn add_unit_file(
    files: &mut Vec<(String, String)>,
    entries: &mut DirectoryEntries,
    key: &str,
    filename: &str,
    content: String,
    suffix: &str,
)
    ensures
        files_view(final(files)@) == files_view(old(files)@).push(
            (unit_path(key@, filename@), content@),
        ),
        entries_view(final(entries).items@) == entries_view(old(entries).items@).push(
            (key@, filename@, unit_path(key@, filename@), suffix@),
        ),
{
    let mut path = key.to_owned();
    path.append("/");
    path.append(filename);
    let entry = DirectoryEntry::new(filename, path.as_str()).with_suffix(suffix);
    files.push((path, content));
    entries.push(key, entry);
    assert(files_view(files@) =~= files_view(old(files)@).push(
        (unit_path(key@, filename@), content@),
    ));
    assert(entries_view(entries.items@) =~= entries_view(old(entries).items@).push(
        (key@, filename@, unit_path(key@, filename@), suffix@),
    ));
}


/// What each record contributes, in record order.
pub open spec fn gather<T>(records: Seq<IntermediateEntry>, f: spec_fn(IntermediateEntry) -> Seq<T>) -> Seq<T>
    decreases records.len(),
{
    if records.len() == 0 {
        Seq::empty()
    } else {
        gather(records.drop_last(), f) + f(records.last())
    }
}

pub proof fn lemma_gather_step<T>(
    records: Seq<IntermediateEntry>,
    f: spec_fn(IntermediateEntry) -> Seq<T>,
    i: int,
)
    requires
        0 <= i < records.len(),
    ensures
        gather(records.subrange(0, i + 1), f) == gather(records.subrange(0, i), f) + f(records[i]),
{
    assert(records.subrange(0, i + 1).drop_last() =~= records.subrange(0, i));
    assert(records.subrange(0, i + 1).last() == records[i]);
}

pub proof fn lemma_gather_all<T>(records: Seq<IntermediateEntry>, f: spec_fn(IntermediateEntry) -> Seq<T>)
    ensures
        gather(records.subrange(0, records.len() as int), f) == gather(records, f),
{
    assert(records.subrange(0, records.len() as int) =~= records);
}

/// The inline payload of a record; empty when it has none.
pub open spec fn payload_text(e: IntermediateEntry) -> Seq<char> {
    match e.payload {
        Some(p) => p@,
        None => Seq::empty(),
    }
}

/// The directory a record's files go to: its compile id, or `unknown`.
pub open spec fn unit_key(e: IntermediateEntry) -> Seq<char> {
    match e.compile_id {
        Some(c) => c@,
        None => "unknown"@,
    }
}

/// The compile id of a record, or `unknown`.
pub fn unit_key_of(e: &IntermediateEntry) -> (r: String)
    ensures
        r@ == unit_key(*e),
{
    match &e.compile_id {
        Some(c) => c.clone(),
        None => "unknown".to_owned(),
    }
}

/// The inline payload of a record, or empty.
pub fn payload_of(e: &IntermediateEntry) -> (r: String)
    ensures
        r@ == payload_text(*e),
{
    match &e.payload {
        Some(p) => p.clone(),
        None => String::new(),
    }
}

/// Adds a file at `path` and an entry for it under `key`.
pub fn add_file(
    files: &mut Vec<(String, String)>,
    entries: &mut DirectoryEntries,
    path: String,
    content: String,
    key: &str,
    name: &str,
)
    ensures
        files_view(final(files)@) == files_view(old(files)@).push((path@, content@)),
        entries_view(final(entries).items@) == entries_view(old(entries).items@).push(
            (key@, name@, path@, Seq::empty()),
        ),
{
    let entry = DirectoryEntry::new(name, path.as_str());
    files.push((path, content));
    entries.push(key, entry);
    assert(files_view(files@) =~= files_view(old(files)@).push((path@, content@)));
    assert(entries_view(entries.items@) =~= entries_view(old(entries).items@).push(
        (key@, name@, path@, Seq::empty()),
    ));
}


impl ModuleRegistry {
    /// The modules of a normal run, in this order: artifacts, guards, cache,
    /// compilation metrics, trace, symbolic shapes, stack trie and the compile
    /// directory.
    pub fn with_defaults(config: &ModuleConfig) -> (r: ModuleRegistry)
        ensures
            r.modules@.len() == 8,
            has_id(r.modules@[0], "compile_artifacts"@),
            has_id(r.modules@[1], "guards"@),
            has_id(r.modules@[2], "cache"@),
            has_id(r.modules@[3], "compilation_metrics"@),
            has_id(r.modules@[4], "chromium_trace"@),
            has_id(r.modules@[5], "symbolic_shapes"@),
            has_id(r.modules@[6], "stack_trie"@),
            has_id(r.modules@[7], "compile_directory"@),
    {
        let m0 = RegisteredModule { module: Box::new(CompileArtifactsModule::new(config.plain_text)) };
        assert(has_id(m0, "compile_artifacts"@));
        let ghost g0 = m0;
        let m1 = RegisteredModule { module: Box::new(GuardsModule::new(config.plain_text)) };
        assert(has_id(m1, "guards"@));
        let ghost g1 = m1;
        let m2 = RegisteredModule { module: Box::new(CacheModule::new()) };
        assert(has_id(m2, "cache"@));
        let ghost g2 = m2;
        let m3 = RegisteredModule { module: Box::new(CompilationMetricsModule::new(config.plain_text)) };
        assert(has_id(m3, "compilation_metrics"@));
        let ghost g3 = m3;
        let m4 = RegisteredModule { module: Box::new(ChromiumTraceModule::new()) };
        assert(has_id(m4, "chromium_trace"@));
        let ghost g4 = m4;
        let m5 = RegisteredModule { module: Box::new(SymbolicShapesModule::new()) };
        assert(has_id(m5, "symbolic_shapes"@));
        let ghost g5 = m5;
        let m6 = RegisteredModule { module: Box::new(StackTrieModule::new()) };
        assert(has_id(m6, "stack_trie"@));
        let ghost g6 = m6;
        let m7 = RegisteredModule { module: Box::new(CompileDirectoryModule::new()) };
        assert(has_id(m7, "compile_directory"@));
        let ghost g7 = m7;
        let modules = vec![m0, m1, m2, m3, m4, m5, m6, m7];
        assert(modules@[0] == g0);
        assert(modules@[1] == g1);
        assert(modules@[2] == g2);
        assert(modules@[3] == g3);
        assert(modules@[4] == g4);
        assert(modules@[5] == g5);
        assert(modules@[6] == g6);
        assert(modules@[7] == g7);
        ModuleRegistry { modules }
    }

    /// The modules of an export run: the export page, then symbolic shapes.
    pub fn for_export_mode(config: &ModuleConfig) -> (r: ModuleRegistry)
        ensures
            r.modules@.len() == 2,
            has_id(r.modules@[0], "export"@),
            has_id(r.modules@[1], "symbolic_shapes"@),
    {
        let m0 = RegisteredModule { module: Box::new(ExportModule::new()) };
        assert(has_id(m0, "export"@));
        let ghost g0 = m0;
        let m1 = RegisteredModule { module: Box::new(SymbolicShapesModule::new()) };
        assert(has_id(m1, "symbolic_shapes"@));
        let ghost g1 = m1;
        let modules = vec![m0, m1];
        assert(modules@[0] == g0);
        assert(modules@[1] == g1);
        ModuleRegistry { modules }
    }
}

} // verus!
