//! The read-only view of a finalized intermediate set that modules render
//! from: the records of each category, the trace-span events, the manifest
//! and the configuration.
use vstd::prelude::*;

use crate::intermediate::{
    category_index, entry_compile_id, file_name_of, texts, IntermediateEntry,
    IntermediateFileType, IntermediateManifest,
};
use crate::modules::{ModuleConfig, ModuleError};
use crate::text::str_eq;

verus! {

/// What reading one category stream gave: its records (none for an absent
/// file), or why a line of it could not be read.
pub enum CategoryRead {
    Records(Vec<IntermediateEntry>),
    Failed(String),
}

/// Context provided to modules during rendering.
pub struct ModuleContext {
    /// Manifest describing the intermediate files.
    pub manifest: IntermediateManifest,
    /// Module configuration.
    pub config: ModuleConfig,
    /// The read of each category, by `category_index`.
    pub streams: Vec<CategoryRead>,
    /// The trace-span events, each as its JSON text, or why they could not be read.
    pub chromium_events: Result<Vec<String>, String>,
}

/// The records of `file_type` in `ctx`, or `None` when its read failed.
pub open spec fn stream_records(ctx: ModuleContext, file_type: IntermediateFileType) -> Option<
    Seq<IntermediateEntry>,
> {
    match ctx.streams@[category_index(file_type)] {
        CategoryRead::Records(v) => Some(v@),
        CategoryRead::Failed(_) => None,
    }
}

/// The records of `records` whose compile id is `id`.
pub open spec fn with_compile_id(records: Seq<IntermediateEntry>, id: Seq<char>) -> Seq<
    IntermediateEntry,
>
    decreases records.len(),
{
    if records.len() == 0 {
        Seq::empty()
    } else {
        let rest = with_compile_id(records.drop_last(), id);
        if entry_compile_id(records.last()) == Some(id) {
            rest.push(records.last())
        } else {
            rest
        }
    }
}

/// The records of `records` whose type is `kind`.
pub open spec fn with_type(records: Seq<IntermediateEntry>, kind: Seq<char>) -> Seq<
    IntermediateEntry,
>
    decreases records.len(),
{
    if records.len() == 0 {
        Seq::empty()
    } else {
        let rest = with_type(records.drop_last(), kind);
        if records.last().entry_type@ == kind {
            rest.push(records.last())
        } else {
            rest
        }
    }
}

impl ModuleContext {
    pub open spec fn wf(&self) -> bool {
        self.streams@.len() == 8
    }

    /// A context over `manifest` in which every category has no records and
    /// there are no trace-span events.
    pub fn new(manifest: IntermediateManifest, config: ModuleConfig) -> (r: ModuleContext)
        ensures
            r.wf(),
            r.manifest == manifest,
            r.config == config,
            forall|i: int| 0 <= i < 8 ==> (#[trigger] r.streams@[i] matches CategoryRead::Records(v)
                && v@.len() == 0),
            r.chromium_events matches Ok(v) && v@.len() == 0,
    {
        let mut streams: Vec<CategoryRead> = Vec::new();
        let mut i: usize = 0;
        while i < 8
            invariant
                i <= 8,
                streams@.len() == i,
                forall|j: int| 0 <= j < i ==> (#[trigger] streams@[j] matches CategoryRead::Records(
                    v,
                ) && v@.len() == 0),
            decreases 8 - i,
        {
            streams.push(CategoryRead::Records(Vec::new()));
            i = i + 1;
        }
        ModuleContext { manifest, config, streams, chromium_events: Ok(Vec::new()) }
    }

    /// Sets what reading the stream of `file_type` gave.
    pub fn set_stream(&mut self, file_type: IntermediateFileType, read: CategoryRead)
        requires
            old(self).wf(),
        ensures
            final(self).wf(),
            final(self).streams@ == old(self).streams@.update(category_index(file_type), read),
            final(self).manifest == old(self).manifest,
            final(self).config == old(self).config,
            final(self).chromium_events == old(self).chromium_events,
    {
        let k = file_type.index();
        self.streams.set(k, read);
    }

    /// Sets what reading the trace-span events gave.
    pub fn set_chromium_events(&mut self, events: Result<Vec<String>, String>)
        ensures
            final(self).streams == old(self).streams,
            final(self).manifest == old(self).manifest,
            final(self).config == old(self).config,
            final(self).chromium_events == events,
    {
        self.chromium_events = events;
    }

    /// All records of a category, or the error of its read.
    pub fn read_jsonl(&self, file_type: IntermediateFileType) -> (r: Result<
        &Vec<IntermediateEntry>,
        ModuleError,
    >)
        requires
            self.wf(),
        ensures
            r matches Ok(v) ==> stream_records(*self, file_type) == Some(v@),
            r is Err <==> stream_records(*self, file_type) is None,
    {
        match &self.streams[file_type.index()] {
            CategoryRead::Records(v) => Ok(v),
            CategoryRead::Failed(msg) => Err(ModuleError { message: msg.clone() }),
        }
    }

    /// The records of a category whose compile id is `compile_id`.
    pub fn get_entries_for_compile(&self, file_type: IntermediateFileType, compile_id: &str) -> (r:
        Result<Vec<&IntermediateEntry>, ModuleError>)
        requires
            self.wf(),
        ensures
            r is Err <==> stream_records(*self, file_type) is None,
            r matches Ok(v) ==> v@.len() == with_compile_id(
                stream_records(*self, file_type).unwrap(),
                compile_id@,
            ).len() && forall|i: int|
                0 <= i < v@.len() ==> *v@[i] == with_compile_id(
                    stream_records(*self, file_type).unwrap(),
                    compile_id@,
                )[i],
    {
        let records = self.read_jsonl(file_type)?;
        let mut out: Vec<&IntermediateEntry> = Vec::new();
        let mut i: usize = 0;
        while i < records.len()
            invariant
                i <= records@.len(),
                out@.len() == with_compile_id(records@.subrange(0, i as int), compile_id@).len(),
                forall|j: int|
                    0 <= j < out@.len() ==> *out@[j] == with_compile_id(
                        records@.subrange(0, i as int),
                        compile_id@,
                    )[j],
            decreases records@.len() - i,
        {
            assert(records@.subrange(0, i + 1).drop_last() =~= records@.subrange(0, i as int));
            let matches = match &records[i].compile_id {
                Some(c) => str_eq(c.as_str(), compile_id),
                None => false,
            };
            if matches {
                out.push(&records[i]);
            }
            i = i + 1;
        }
        assert(records@.subrange(0, records@.len() as int) =~= records@);
        Ok(out)
    }

    /// The records of a category whose type is `entry_type`.
    pub fn get_entries_by_type(&self, file_type: IntermediateFileType, entry_type: &str) -> (r:
        Result<Vec<&IntermediateEntry>, ModuleError>)
        requires
            self.wf(),
        ensures
            r is Err <==> stream_records(*self, file_type) is None,
            r matches Ok(v) ==> v@.len() == with_type(
                stream_records(*self, file_type).unwrap(),
                entry_type@,
            ).len() && forall|i: int|
                0 <= i < v@.len() ==> *v@[i] == with_type(
                    stream_records(*self, file_type).unwrap(),
                    entry_type@,
                )[i],
    {
        let records = self.read_jsonl(file_type)?;
        let mut out: Vec<&IntermediateEntry> = Vec::new();
        let mut i: usize = 0;
        while i < records.len()
            invariant
                i <= records@.len(),
                out@.len() == with_type(records@.subrange(0, i as int), entry_type@).len(),
                forall|j: int|
                    0 <= j < out@.len() ==> *out@[j] == with_type(
                        records@.subrange(0, i as int),
                        entry_type@,
                    )[j],
            decreases records@.len() - i,
        {
            assert(records@.subrange(0, i + 1).drop_last() =~= records@.subrange(0, i as int));
            if str_eq(records[i].entry_type.as_str(), entry_type) {
                out.push(&records[i]);
            }
            i = i + 1;
        }
        assert(records@.subrange(0, records@.len() as int) =~= records@);
        Ok(out)
    }

    /// The trace-span events, each as its JSON text.
    pub fn read_chromium_events(&self) -> (r: Result<&Vec<String>, ModuleError>)
        ensures
            r matches Ok(v) ==> self.chromium_events == Ok::<Vec<String>, String>(*v),
            r is Err <==> self.chromium_events is Err,
    {
        match &self.chromium_events {
            Ok(v) => Ok(v),
            Err(msg) => Err(ModuleError { message: msg.clone() }),
        }
    }

    /// The compile ids that the manifest lists.
    pub fn compile_ids(&self) -> (r: &Vec<String>)
        ensures
            r@ == self.manifest.compile_ids@,
    {
        &self.manifest.compile_ids
    }

    /// Whether the manifest lists the file of `file_type` as written.
    pub fn has_entries(&self, file_type: IntermediateFileType) -> (r: bool)
        ensures
            r == texts(self.manifest.files@).contains(file_name_of(file_type)),
    {
        let name = file_type.filename();
        let files = &self.manifest.files;
        let mut i: usize = 0;
        while i < files.len()
            invariant
                i <= files@.len(),
                files@ == self.manifest.files@,
                name@ == file_name_of(file_type),
                forall|j: int| 0 <= j < i ==> files@[j]@ != name@,
            decreases files@.len() - i,
        {
            if str_eq(files[i].as_str(), name) {
                assert(texts(files@)[i as int] == name@);
                assert(texts(files@).contains(file_name_of(file_type)));
                return true;
            }
            i = i + 1;
        }
        assert(!texts(files@).contains(name@)) by {
            if texts(files@).contains(name@) {
                let j = choose|j: int| 0 <= j < texts(files@).len() && texts(files@)[j] == name@;
                assert(files@[j]@ == name@);
            }
        }
        false
    }
}


/// The distinct compile ids of the records (absent included), in order of
/// first appearance.
pub open spec fn group_keys(records: Seq<IntermediateEntry>) -> Seq<Option<Seq<char>>>
    decreases records.len(),
{
    if records.len() == 0 {
        Seq::empty()
    } else {
        let keys = group_keys(records.drop_last());
        let k = entry_compile_id(records.last());
        if keys.contains(k) {
            keys
        } else {
            keys.push(k)
        }
    }
}

/// The records whose compile id is `k` (absent included).
pub open spec fn with_key(records: Seq<IntermediateEntry>, k: Option<Seq<char>>) -> Seq<IntermediateEntry>
    decreases records.len(),
{
    if records.len() == 0 {
        Seq::empty()
    } else {
        let rest = with_key(records.drop_last(), k);
        if entry_compile_id(records.last()) == k {
            rest.push(records.last())
        } else {
            rest
        }
    }
}

pub open spec fn key_text(k: Option<String>) -> Option<Seq<char>> {
    match k {
        Some(s) => Some(s@),
        None => None,
    }
}

fn same_key(a: &Option<String>, b: &Option<String>) -> (r: bool)
    ensures
        r == (key_text(*a) == key_text(*b)),
{
    match (a, b) {
        (Some(x), Some(y)) => str_eq(x.as_str(), y.as_str()),
        (None, None) => true,
        _ => false,
    }
}

fn clone_key(k: &Option<String>) -> (r: Option<String>)
    ensures
        key_text(r) == key_text(*k),
{
    match k {
        Some(s) => Some(s.clone()),
        None => None,
    }
}

impl ModuleContext {
    /// The records of a category grouped by compile id, groups in order of
    /// first appearance and records in order within each group.
    pub fn group_by_compile_id(&self, file_type: IntermediateFileType) -> (r: Result<
        Vec<(Option<String>, Vec<&IntermediateEntry>)>,
        ModuleError,
    >)
        requires
            self.wf(),
        ensures
            r is Err <==> stream_records(*self, file_type) is None,
            r matches Ok(groups) ==> {
                let records = stream_records(*self, file_type).unwrap();
                &&& groups@.len() == group_keys(records).len()
                &&& forall|j: int|
                    0 <= j < groups@.len() ==> {
                        &&& key_text((#[trigger] groups@[j]).0) == group_keys(records)[j]
                        &&& groups@[j].1@.len() == with_key(records, group_keys(records)[j]).len()
                        &&& forall|q: int|
                            0 <= q < groups@[j].1@.len() ==> *groups@[j].1@[q] == with_key(
                                records,
                                group_keys(records)[j],
                            )[q]
                    }
            },
    {
        let records = self.read_jsonl(file_type)?;
        let mut keys: Vec<Option<String>> = Vec::new();
        let mut i: usize = 0;
        while i < records.len()
            invariant
                i <= records@.len(),
                keys@.map_values(|k: Option<String>| key_text(k)) == group_keys(records@.subrange(0, i as int)),
            decreases records@.len() - i,
        {
            let ghost kv = keys@.map_values(|k: Option<String>| key_text(k));
            let mut found = false;
            let mut j: usize = 0;
            while j < keys.len()
                invariant
                    j <= keys@.len(),
                    i < records@.len(),
                    kv == keys@.map_values(|k: Option<String>| key_text(k)),
                    found == exists|q: int| 0 <= q < j && kv[q] == entry_compile_id(records@[i as int]),
                decreases keys@.len() - j,
            {
                assert(kv[j as int] == key_text(keys@[j as int]));
                if same_key(&keys[j], &records[i].compile_id) {
                    found = true;
                }
                j = j + 1;
            }
            proof {
                let pre = records@.subrange(0, i + 1);
                assert(pre.drop_last() =~= records@.subrange(0, i as int));
                assert(pre.last() == records@[i as int]);
                if found {
                    let q = choose|q: int| 0 <= q < keys@.len() && kv[q] == entry_compile_id(records@[i as int]);
                    assert(kv.contains(entry_compile_id(records@[i as int])));
                } else {
                    assert(!kv.contains(entry_compile_id(records@[i as int])));
                }
            }
            if !found {
                keys.push(clone_key(&records[i].compile_id));
                assert(keys@.map_values(|k: Option<String>| key_text(k)) =~= kv.push(
                    entry_compile_id(records@[i as int]),
                ));
            }
            i = i + 1;
        }
        assert(records@.subrange(0, records@.len() as int) =~= records@);
        let ghost kv = keys@.map_values(|k: Option<String>| key_text(k));
        let mut groups: Vec<(Option<String>, Vec<&IntermediateEntry>)> = Vec::new();
        let mut g: usize = 0;
        while g < keys.len()
            invariant
                g <= keys@.len(),
                kv == keys@.map_values(|k: Option<String>| key_text(k)),
                kv == group_keys(records@),
                groups@.len() == g,
                forall|j: int|
                    0 <= j < g ==> {
                        &&& key_text((#[trigger] groups@[j]).0) == kv[j]
                        &&& groups@[j].1@.len() == with_key(records@, kv[j]).len()
                        &&& forall|q: int|
                            0 <= q < groups@[j].1@.len() ==> *groups@[j].1@[q] == with_key(
                                records@,
                                kv[j],
                            )[q]
                    },
            decreases keys@.len() - g,
        {
            let key = &keys[g];
            assert(kv[g as int] == key_text(keys@[g as int]));
            let mut members: Vec<&IntermediateEntry> = Vec::new();
            let mut n: usize = 0;
            while n < records.len()
                invariant
                    n <= records@.len(),
                    g < kv.len(),
                    key_text(*key) == kv[g as int],
                    members@.len() == with_key(records@.subrange(0, n as int), kv[g as int]).len(),
                    forall|q: int|
                        0 <= q < members@.len() ==> *members@[q] == with_key(
                            records@.subrange(0, n as int),
                            kv[g as int],
                        )[q],
                decreases records@.len() - n,
            {
                assert(records@.subrange(0, n + 1).drop_last() =~= records@.subrange(0, n as int));
                if same_key(&records[n].compile_id, key) {
                    members.push(&records[n]);
                }
                n = n + 1;
            }
            assert(records@.subrange(0, records@.len() as int) =~= records@);
            groups.push((clone_key(key), members));
            g = g + 1;
        }
        Ok(groups)
    }
}

} // verus!
