//! The directory of the top-level page: the entries of every module grouped
//! by compile id, in compile-id order.
use vstd::prelude::*;

use crate::intermediate::{insert_sorted_text, sorted_texts, texts, IntermediateFileType};
use crate::modules::context::ModuleContext;
use crate::modules::{entries_under, DirectoryEntries, DirectoryEntry, Module, ModuleError, ModuleOutput};
use crate::text::str_eq;

verus! {

/// One link of the directory, numbered within its compile id.
pub struct OutputFile {
    pub url: String,
    pub name: String,
    pub number: i32,
    pub suffix: String,
    pub readable_url: Option<String>,
}

/// Whether some entry is filed under `key`.
pub open spec fn has_key(items: Seq<(String, DirectoryEntry)>, key: Seq<char>) -> bool {
    exists|i: int| 0 <= i < items.len() && #[trigger] items[i].0@ == key
}

/// The links of one compile id: its entries in order, numbered from 0.
pub open spec fn numbered(files: Seq<OutputFile>, entries: Seq<DirectoryEntry>) -> bool {
    &&& files.len() == entries.len()
    &&& forall|i: int|
        0 <= i < files.len() ==> {
            &&& (#[trigger] files[i]).url == entries[i].url
            &&& files[i].name == entries[i].name
            &&& files[i].suffix == entries[i].suffix
            &&& files[i].number == i
            &&& files[i].readable_url is None
        }
}

/// Module that assembles the top-level page from the combined output.
pub struct IndexGeneratorModule {
    pub custom_header_html: String,
    pub has_inductor_provenance: bool,
}

impl IndexGeneratorModule {
    pub fn new(custom_header_html: String, has_inductor_provenance: bool) -> (r: IndexGeneratorModule)
        ensures
            r.custom_header_html == custom_header_html,
            r.has_inductor_provenance == has_inductor_provenance,
    {
        IndexGeneratorModule { custom_header_html, has_inductor_provenance }
    }

    /// The directory: one group per compile id, sorted, without the global
    /// key, each with its entries numbered in order.
    pub fn build_directory(&self, entries: &DirectoryEntries) -> (r: Vec<(String, Vec<OutputFile>)>)
        requires
            entries.items@.len() <= i32::MAX,
        ensures
            sorted_texts(r@.map_values(|g: (String, Vec<OutputFile>)| g.0)),
            forall|k: Seq<char>|
                #![trigger has_key(entries.items@, k)]
                texts(r@.map_values(|g: (String, Vec<OutputFile>)| g.0)).contains(k) <==> (k
                    != "__global__"@ && has_key(entries.items@, k)),
            forall|j: int|
                0 <= j < r@.len() ==> numbered(
                    (#[trigger] r@[j]).1@,
                    entries_under(entries.items@, r@[j].0@),
                ),
    {
        let items = &entries.items;
        let mut keys: Vec<String> = Vec::new();
        let mut i: usize = 0;
        while i < items.len()
            invariant
                i <= items@.len(),
                sorted_texts(keys@),
                forall|k: Seq<char>|
                    #![trigger texts(keys@).contains(k)]
                    texts(keys@).contains(k) <==> (k != "__global__"@ && exists|j: int|
                        0 <= j < i && #[trigger] items@[j].0@ == k),
            decreases items@.len() - i,
        {
            let ghost before = keys@;
            if !str_eq(items[i].0.as_str(), "__global__") {
                insert_sorted_text(&mut keys, items[i].0.as_str());
            }
            proof {
                assert forall|k: Seq<char>|
                    #![trigger texts(keys@).contains(k)]
                    texts(keys@).contains(k) <==> (k != "__global__"@ && exists|j: int|
                        0 <= j < i + 1 && #[trigger] items@[j].0@ == k) by {
                    if texts(keys@).contains(k) && k != items@[i as int].0@ {
                        assert(texts(before).contains(k));
                    }
                    if k != "__global__"@ && exists|j: int| 0 <= j < i + 1 && #[trigger] items@[j].0@ == k {
                        let j = choose|j: int| 0 <= j < i + 1 && #[trigger] items@[j].0@ == k;
                        if j < i {
                            assert(texts(before).contains(k));
                        }
                    }
                }
            }
            i = i + 1;
        }
        let mut out: Vec<(String, Vec<OutputFile>)> = Vec::new();
        let mut g: usize = 0;
        while g < keys.len()
            invariant
                g <= keys@.len(),
                items@ == entries.items@,
                items@.len() <= i32::MAX,
                out@.len() == g,
                forall|j: int| 0 <= j < g ==> (#[trigger] out@[j]).0 == keys@[j],
                forall|j: int| 0 <= j < g ==> numbered((#[trigger] out@[j]).1@, entries_under(items@, out@[j].0@)),
            decreases keys@.len() - g,
        {
            let key = keys[g].as_str();
            let under = entries.get(key);
            proof {
                lemma_entries_under_len(items@, key@);
            }
            let mut files: Vec<OutputFile> = Vec::new();
            let mut n: usize = 0;
            while n < under.len()
                invariant
                    n <= under@.len(),
                    under@.len() == entries_under(items@, key@).len(),
                    under@.len() <= items@.len(),
                    items@.len() <= i32::MAX,
                    forall|q: int| 0 <= q < under@.len() ==> *under@[q] == entries_under(items@, key@)[q],
                    files@.len() == n,
                    forall|q: int| 0 <= q < n ==> {
                        &&& (#[trigger] files@[q]).url == entries_under(items@, key@)[q].url
                        &&& files@[q].name == entries_under(items@, key@)[q].name
                        &&& files@[q].suffix == entries_under(items@, key@)[q].suffix
                        &&& files@[q].number == q
                        &&& files@[q].readable_url is None
                    },
                decreases under@.len() - n,
            {
                let e = under[n];
                files.push(
                    OutputFile {
                        url: e.url.clone(),
                        name: e.name.clone(),
                        number: n as i32,
                        suffix: e.suffix.clone(),
                        readable_url: None,
                    },
                );
                n = n + 1;
            }
            out.push((keys[g].clone(), files));
            g = g + 1;
        }
        assert(out@.map_values(|x: (String, Vec<OutputFile>)| x.0) =~= keys@);
        proof {
            assert forall|k: Seq<char>|
                #![trigger has_key(entries.items@, k)]
                texts(out@.map_values(|x: (String, Vec<OutputFile>)| x.0)).contains(k) <==> (k
                    != "__global__"@ && has_key(entries.items@, k)) by {
                assert(texts(keys@).contains(k) <==> (k != "__global__"@ && exists|j: int|
                    0 <= j < items@.len() && #[trigger] items@[j].0@ == k));
            }
        }
        out
    }
}

proof fn lemma_entries_under_len(items: Seq<(String, DirectoryEntry)>, key: Seq<char>)
    ensures
        entries_under(items, key).len() <= items.len(),
    decreases items.len(),
{
    if items.len() > 0 {
        lemma_entries_under_len(items.drop_last(), key);
    }
}

impl Module for IndexGeneratorModule {
    open spec fn id_is(&self, id: Seq<char>) -> bool {
        id == "index_generator"@
    }

    open spec fn output_ok(&self, ctx: ModuleContext, r: Result<ModuleOutput, ModuleError>) -> bool {
        r matches Ok(o) && o.files@.len() == 0 && o.directory_entries.items@.len() == 0
            && o.index_contribution is None
    }

    fn name(&self) -> &'static str {
        "Index Generator"
    }

    fn id(&self) -> (r: &'static str) {
        "index_generator"
    }

    fn subscriptions(&self) -> Vec<IntermediateFileType> {
        Vec::new()
    }

    fn render(&self, ctx: &ModuleContext) -> (r: Result<ModuleOutput, ModuleError>) {
        Ok(ModuleOutput::empty())
    }
}

} // verus!
