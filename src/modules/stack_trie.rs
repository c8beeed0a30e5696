//! The stack trie: call stacks of compilation starts, shared by common
//! prefix, with the compile ids that started at each stack and their status.
use vstd::prelude::*;

use crate::compile_id::{encode_compile_id, format_compile_id, parse_compile_id, CompileId};
use crate::intermediate::{IntermediateEntry, IntermediateFileType};
use crate::json::{array_field, json_as_str, json_get, JsonNumber, JsonValue};
use crate::modules::context::{stream_records, ModuleContext};
use crate::modules::{gather, IndexContribution, Module, ModuleError, ModuleOutput};
use crate::text::{
    char_vec, digit_run, escape_html, find_first, find_from, html_escaped, i64_to_decimal,
    is_ascii_digit, occurs_at, parse_u64, parse_u64_spec, push_text, signed_decimal, str_eq,
    u64_to_decimal, decimal,
};

verus! {

#[verifier::external_type_specification]
#[verifier::external_body]
#[verifier::reject_recursive_types(K)]
#[verifier::reject_recursive_types(V)]
#[verifier::reject_recursive_types(S)]
pub struct ExIndexMap<K, V, S>(indexmap::IndexMap<K, V, S>);

#[verifier::external_type_specification]
#[verifier::external_body]
#[verifier::reject_recursive_types(H)]
pub struct ExBuildHasherDefault<H>(core::hash::BuildHasherDefault<H>);

#[verifier::external_type_specification]
#[verifier::external_body]
pub struct ExFxHasher(fxhash::FxHasher);

/// The children of a trie node: frame position to node position, in
/// insertion order.
pub type ChildMap = indexmap::IndexMap<usize, usize, fxhash::FxBuildHasher>;

/// The entries of a child map, in insertion order.
pub uninterp spec fn child_entries(m: ChildMap) -> Seq<(usize, usize)>;

/// The value of the first entry of `entries` with key `key`.
pub open spec fn entry_lookup(entries: Seq<(usize, usize)>, key: usize) -> Option<usize>
    decreases entries.len(),
{
    if entries.len() == 0 {
        None
    } else if entries[0].0 == key {
        Some(entries[0].1)
    } else {
        entry_lookup(entries.drop_first(), key)
    }
}

/// Relies on `IndexMap::default` with `FxBuildHasher`: a map with no entries.
#[verifier::external_body]
fn new_child_map() -> (r: ChildMap)
    ensures
        child_entries(r).len() == 0,
{
    indexmap::IndexMap::default()
}

/// Relies on `IndexMap::get`: the value stored for `key`, if any.
#[verifier::external_body]
fn child_get(m: &ChildMap, key: usize) -> (r: Option<usize>)
    ensures
        r == entry_lookup(child_entries(*m), key),
{
    m.get(&key).copied()
}

/// Relies on `IndexMap::insert`: a key that is absent is added last in order.
#[verifier::external_body]
fn child_insert(m: &mut ChildMap, key: usize, value: usize)
    requires
        entry_lookup(child_entries(*old(m)), key) is None,
    ensures
        child_entries(*final(m)) == child_entries(*old(m)).push((key, value)),
{
    m.insert(key, value);
}

/// Relies on `IndexMap::len`: the number of entries.
#[verifier::external_body]
fn child_count(m: &ChildMap) -> (r: usize)
    ensures
        r == child_entries(*m).len(),
{
    m.len()
}

/// Relies on `IndexMap::get_index`: the entry at position `i` in insertion order.
#[verifier::external_body]
fn child_at(m: &ChildMap, i: usize) -> (r: Option<(usize, usize)>)
    ensures
        i < child_entries(*m).len() ==> r == Some(child_entries(*m)[i as int]),
        i >= child_entries(*m).len() ==> r is None,
{
    m.get_index(i).map(|(k, v)| (*k, *v))
}

proof fn lemma_lookup_prefix(p: Seq<(usize, usize)>, e: Seq<(usize, usize)>, key: usize)
    requires
        p.len() <= e.len(),
        e.subrange(0, p.len() as int) == p,
        entry_lookup(p, key) is Some,
    ensures
        entry_lookup(e, key) == entry_lookup(p, key),
    decreases p.len(),
{
    assert(e[0] == p[0]);
    if p[0].0 != key {
        assert(e.drop_first().subrange(0, p.drop_first().len() as int) =~= p.drop_first());
        lemma_lookup_prefix(p.drop_first(), e.drop_first(), key);
    }
}

proof fn lemma_lookup_push(e: Seq<(usize, usize)>, key: usize, value: usize)
    requires
        entry_lookup(e, key) is None,
    ensures
        entry_lookup(e.push((key, value)), key) == Some(value),
    decreases e.len(),
{
    if e.len() > 0 {
        assert(e.push((key, value)).drop_first() =~= e.drop_first().push((key, value)));
        lemma_lookup_push(e.drop_first(), key, value);
    }
}

proof fn lemma_lookup_bounds(e: Seq<(usize, usize)>, key: usize)
    requires
        entry_lookup(e, key) is Some,
    ensures
        exists|j: int| 0 <= j < e.len() && e[j] == (key, entry_lookup(e, key).unwrap()),
    decreases e.len(),
{
    if e[0].0 != key {
        lemma_lookup_bounds(e.drop_first(), key);
        let j = choose|j: int|
            0 <= j < e.drop_first().len() && e.drop_first()[j] == (key, entry_lookup(e, key).unwrap());
        assert(e[j + 1] == e.drop_first()[j]);
    }
}

/// One frame of a call stack.
pub struct FrameSummary {
    pub uninterned_filename: Option<String>,
    pub line: i32,
    pub name: String,
    pub loc: Option<String>,
}

/// The identity of a frame in the trie: file, line, function and source text.
pub struct FrameKey {
    pub filename: String,
    pub line: i32,
    pub name: String,
    pub loc: Option<String>,
}

/// What identifies a frame: two frames with the same view share trie nodes.
pub struct FrameView {
    pub filename: Seq<char>,
    pub line: i32,
    pub name: Seq<char>,
    pub loc: Option<Seq<char>>,
}

pub open spec fn opt_text(o: Option<String>) -> Option<Seq<char>> {
    match o {
        Some(s) => Some(s@),
        None => None,
    }
}

pub open spec fn key_view(k: FrameKey) -> FrameView {
    FrameView { filename: k.filename@, line: k.line, name: k.name@, loc: opt_text(k.loc) }
}

/// The identity of a frame; a frame without a file name is `(unknown)`.
pub open spec fn frame_view(f: FrameSummary) -> FrameView {
    FrameView {
        filename: match f.uninterned_filename {
            Some(s) => s@,
            None => "(unknown)"@,
        },
        line: f.line,
        name: f.name@,
        loc: opt_text(f.loc),
    }
}

fn clone_opt(o: &Option<String>) -> (r: Option<String>)
    ensures
        opt_text(r) == opt_text(*o),
{
    match o {
        Some(s) => Some(s.clone()),
        None => None,
    }
}

/// The trie key of a frame.
pub fn frame_key(frame: &FrameSummary) -> (r: FrameKey)
    ensures
        key_view(r) == frame_view(*frame),
{
    let filename = match &frame.uninterned_filename {
        Some(s) => s.clone(),
        None => "(unknown)".to_owned(),
    };
    FrameKey { filename, line: frame.line, name: frame.name.clone(), loc: clone_opt(&frame.loc) }
}

fn same_opt(a: &Option<String>, b: &Option<String>) -> (r: bool)
    ensures
        r == (opt_text(*a) == opt_text(*b)),
{
    match (a, b) {
        (Some(x), Some(y)) => str_eq(x.as_str(), y.as_str()),
        (None, None) => true,
        _ => false,
    }
}

fn same_key(a: &FrameKey, b: &FrameKey) -> (r: bool)
    ensures
        r == (key_view(*a) == key_view(*b)),
{
    str_eq(a.filename.as_str(), b.filename.as_str()) && a.line == b.line && str_eq(
        a.name.as_str(),
        b.name.as_str(),
    ) && same_opt(&a.loc, &b.loc)
}

/// The first position of a frame with view `v`.
pub open spec fn frame_position(frames: Seq<FrameKey>, v: FrameView) -> Option<int>
    decreases frames.len(),
{
    if frames.len() == 0 {
        None
    } else if key_view(frames.last()) == v && frame_position(frames.drop_last(), v) is None {
        Some(frames.len() - 1)
    } else {
        frame_position(frames.drop_last(), v)
    }
}

proof fn lemma_frame_position_push(frames: Seq<FrameKey>, k: FrameKey, v: FrameView)
    requires
        frame_position(frames, v) is Some,
    ensures
        frame_position(frames.push(k), v) == frame_position(frames, v),
{
    assert(frames.push(k).drop_last() =~= frames);
}

proof fn lemma_frame_position_bounds(frames: Seq<FrameKey>, v: FrameView)
    requires
        frame_position(frames, v) is Some,
    ensures
        0 <= frame_position(frames, v).unwrap() < frames.len(),
        key_view(frames[frame_position(frames, v).unwrap()]) == v,
    decreases frames.len(),
{
    if !(key_view(frames.last()) == v && frame_position(frames.drop_last(), v) is None) {
        lemma_frame_position_bounds(frames.drop_last(), v);
    }
}

/// One node of the trie: the compile ids whose stack ends here, and the
/// children by frame.
pub struct TrieNode {
    pub terminal: Vec<Option<CompileId>>,
    pub children: ChildMap,
}

/// A shared-prefix tree over call stacks, kept as an arena: node 0 is the
/// root, and frames are stored once and referred to by position.
pub struct StackTrie {
    pub frames: Vec<FrameKey>,
    pub nodes: Vec<TrieNode>,
}

/// The node reached from `node` by following the frames of `keys`.
pub open spec fn path_from(t: StackTrie, node: int, keys: Seq<FrameView>) -> Option<int>
    decreases keys.len(),
{
    if keys.len() == 0 {
        Some(node)
    } else {
        match frame_position(t.frames@, keys[0]) {
            None => None,
            Some(f) => if 0 <= node < t.nodes@.len() {
                match entry_lookup(child_entries(t.nodes@[node].children), f as usize) {
                    None => None,
                    Some(c) => path_from(t, c as int, keys.drop_first()),
                }
            } else {
                None
            },
        }
    }
}

/// The node reached from `node` by one frame.
pub open spec fn step(t: StackTrie, node: int, v: FrameView) -> Option<int> {
    match frame_position(t.frames@, v) {
        None => None,
        Some(f) => if 0 <= node < t.nodes@.len() {
            match entry_lookup(child_entries(t.nodes@[node].children), f as usize) {
                None => None,
                Some(c) => Some(c as int),
            }
        } else {
            None
        },
    }
}

proof fn lemma_path_push(t: StackTrie, node: int, keys: Seq<FrameView>, v: FrameView)
    ensures
        path_from(t, node, keys.push(v)) == match path_from(t, node, keys) {
            Some(m) => step(t, m, v),
            None => None,
        },
    decreases keys.len(),
{
    if keys.len() == 0 {
        let kv = keys.push(v);
        assert(kv.drop_first() =~= Seq::<FrameView>::empty());
        assert(kv[0] == v);
        match frame_position(t.frames@, v) {
            None => {},
            Some(f) => if 0 <= node < t.nodes@.len() {
                match entry_lookup(child_entries(t.nodes@[node].children), f as usize) {
                    None => {},
                    Some(c) => {
                        assert(path_from(t, c as int, kv.drop_first()) == Some(c as int));
                    },
                }
            },
        }
    } else {
        assert(keys.push(v).drop_first() =~= keys.drop_first().push(v));
        assert(keys.push(v)[0] == keys[0]);
        match frame_position(t.frames@, keys[0]) {
            None => {},
            Some(f) => if 0 <= node < t.nodes@.len() {
                match entry_lookup(child_entries(t.nodes@[node].children), f as usize) {
                    None => {},
                    Some(c) => {
                        lemma_path_push(t, c as int, keys.drop_first(), v);
                    },
                }
            },
        }
    }
}

/// `t2` holds everything `t1` holds: frames and nodes are only added, and
/// each node's children only gain entries at the end.
pub open spec fn extends(t2: StackTrie, t1: StackTrie) -> bool {
    &&& t1.frames@.len() <= t2.frames@.len()
    &&& t2.frames@.subrange(0, t1.frames@.len() as int) == t1.frames@
    &&& t1.nodes@.len() <= t2.nodes@.len()
    &&& forall|m: int|
        #![trigger t1.nodes@[m]]
        0 <= m < t1.nodes@.len() ==> {
            &&& child_entries(t1.nodes@[m].children).len() <= child_entries(
                t2.nodes@[m].children,
            ).len()
            &&& child_entries(t2.nodes@[m].children).subrange(
                0,
                child_entries(t1.nodes@[m].children).len() as int,
            ) == child_entries(t1.nodes@[m].children)
        }
}

proof fn lemma_frame_position_prefix(f1: Seq<FrameKey>, f2: Seq<FrameKey>, v: FrameView)
    requires
        f1.len() <= f2.len(),
        f2.subrange(0, f1.len() as int) == f1,
        frame_position(f1, v) is Some,
    ensures
        frame_position(f2, v) == frame_position(f1, v),
    decreases f2.len() - f1.len(),
{
    if f2.len() > f1.len() {
        let f3 = f2.drop_last();
        assert(f3.subrange(0, f1.len() as int) =~= f1);
        lemma_frame_position_prefix(f1, f3, v);
        lemma_frame_position_push(f3, f2.last(), v);
        assert(f3.push(f2.last()) =~= f2);
    } else {
        assert(f2 =~= f1);
    }
}

proof fn lemma_path_extends(t2: StackTrie, t1: StackTrie, node: int, keys: Seq<FrameView>)
    requires
        extends(t2, t1),
        path_from(t1, node, keys) is Some,
    ensures
        path_from(t2, node, keys) == path_from(t1, node, keys),
    decreases keys.len(),
{
    if keys.len() > 0 {
        let f = frame_position(t1.frames@, keys[0]).unwrap();
        lemma_frame_position_prefix(t1.frames@, t2.frames@, keys[0]);
        let e1 = child_entries(t1.nodes@[node].children);
        let e2 = child_entries(t2.nodes@[node].children);
        assert(e2.subrange(0, e1.len() as int) == e1);
        lemma_lookup_prefix(e1, e2, f as usize);
        let c = entry_lookup(e1, f as usize).unwrap();
        lemma_path_extends(t2, t1, c as int, keys.drop_first());
    }
}

proof fn lemma_extends_refl(t: StackTrie)
    ensures
        extends(t, t),
{
    assert(t.frames@.subrange(0, t.frames@.len() as int) =~= t.frames@);
    assert forall|m: int| #![trigger t.nodes@[m]] 0 <= m < t.nodes@.len() implies child_entries(
        t.nodes@[m].children,
    ).subrange(0, child_entries(t.nodes@[m].children).len() as int) == child_entries(
        t.nodes@[m].children,
    ) by {
        assert(child_entries(t.nodes@[m].children).subrange(
            0,
            child_entries(t.nodes@[m].children).len() as int,
        ) =~= child_entries(t.nodes@[m].children));
    }
}

proof fn lemma_extends_trans(t3: StackTrie, t2: StackTrie, t1: StackTrie)
    requires
        extends(t3, t2),
        extends(t2, t1),
    ensures
        extends(t3, t1),
{
    assert(t3.frames@.subrange(0, t1.frames@.len() as int) =~= t3.frames@.subrange(
        0,
        t2.frames@.len() as int,
    ).subrange(0, t1.frames@.len() as int));
    assert forall|m: int| #![trigger t1.nodes@[m]] 0 <= m < t1.nodes@.len() implies {
        &&& child_entries(t1.nodes@[m].children).len() <= child_entries(
            t3.nodes@[m].children,
        ).len()
        &&& child_entries(t3.nodes@[m].children).subrange(
            0,
            child_entries(t1.nodes@[m].children).len() as int,
        ) == child_entries(t1.nodes@[m].children)
    } by {
        let e1 = child_entries(t1.nodes@[m].children);
        let e2 = child_entries(t2.nodes@[m].children);
        let e3 = child_entries(t3.nodes@[m].children);
        assert(t2.nodes@[m] == t2.nodes@[m]);
        assert(e3.subrange(0, e2.len() as int) == e2);
        assert(e3.subrange(0, e1.len() as int) =~= e3.subrange(0, e2.len() as int).subrange(
            0,
            e1.len() as int,
        ));
    }
}

/// How many frames of `keys`, from the first, already form a path from `node`.
pub open spec fn existing_prefix(t: StackTrie, node: int, keys: Seq<FrameView>) -> nat
    decreases keys.len(),
{
    if keys.len() == 0 {
        0
    } else {
        match step(t, node, keys[0]) {
            Some(c) => 1 + existing_prefix(t, c, keys.drop_first()),
            None => 0,
        }
    }
}

proof fn lemma_position_exists(frames: Seq<FrameKey>, v: FrameView, j: int)
    requires
        0 <= j < frames.len(),
        key_view(frames[j]) == v,
    ensures
        frame_position(frames, v) is Some,
    decreases frames.len(),
{
    if j < frames.len() - 1 {
        lemma_position_exists(frames.drop_last(), v, j);
    }
}

/// Adding frames changes no step of a trie whose nodes stay as they are.
proof fn lemma_step_same(t2: StackTrie, t1: StackTrie, node: int, v: FrameView)
    requires
        t1.wf(),
        t2.nodes == t1.nodes,
        t1.frames@.len() <= t2.frames@.len(),
        t2.frames@.len() <= usize::MAX,
        t2.frames@.subrange(0, t1.frames@.len() as int) == t1.frames@,
        0 <= node < t1.nodes@.len(),
    ensures
        step(t2, node, v) == step(t1, node, v),
{
    match frame_position(t1.frames@, v) {
        Some(f) => {
            lemma_frame_position_prefix(t1.frames@, t2.frames@, v);
        },
        None => {
            if let Some(f2) = frame_position(t2.frames@, v) {
                lemma_frame_position_bounds(t2.frames@, v);
                if f2 < t1.frames@.len() {
                    assert(t2.frames@[f2] == t2.frames@.subrange(0, t1.frames@.len() as int)[f2]);
                    lemma_position_exists(t1.frames@, v, f2);
                }
                let e = child_entries(t1.nodes@[node].children);
                assert(t2.nodes@[node] == t1.nodes@[node]);
                if entry_lookup(e, f2 as usize) is Some {
                    lemma_lookup_bounds(e, f2 as usize);
                    let j = choose|j: int| 0 <= j < e.len() && e[j] == (f2 as usize, entry_lookup(e, f2 as usize).unwrap());
                    assert(child_entries(t1.nodes@[node].children)[j].0 == f2 as usize);
                    assert((child_entries(t1.nodes@[node].children)[j].0 as int) < t1.frames@.len());
                }
                assert(entry_lookup(e, f2 as usize) is None);
                assert(step(t2, node, v) is None);
            }
            assert(step(t1, node, v) is None);
        },
    }
}

impl StackTrie {
    pub open spec fn wf(&self) -> bool {
        &&& self.nodes@.len() >= 1
        &&& forall|n: int, j: int|
            #![trigger child_entries(self.nodes@[n].children)[j]]
            0 <= n < self.nodes@.len() && 0 <= j < child_entries(self.nodes@[n].children).len()
                ==> {
                &&& (child_entries(self.nodes@[n].children)[j].0 as int) < self.frames@.len()
                &&& n < (child_entries(self.nodes@[n].children)[j].1 as int)
                &&& (child_entries(self.nodes@[n].children)[j].1 as int) < self.nodes@.len()
            }
    }

    /// A trie with a root and nothing else.
    pub fn new() -> (r: StackTrie)
        ensures
            r.wf(),
            r.frames@.len() == 0,
            r.nodes@.len() == 1,
            r.nodes@[0].terminal@.len() == 0,
            child_entries(r.nodes@[0].children).len() == 0,
    {
        let root = TrieNode { terminal: Vec::new(), children: new_child_map() };
        StackTrie { frames: Vec::new(), nodes: vec![root] }
    }

    /// A trie with no children and no terminal at the root is empty.
    pub fn is_empty(&self) -> (r: bool)
        requires
            self.wf(),
        ensures
            r == (child_entries(self.nodes@[0].children).len() == 0
                && self.nodes@[0].terminal@.len() == 0),
    {
        child_count(&self.nodes[0].children) == 0 && self.nodes[0].terminal.len() == 0
    }

    /// The position of `key` among the frames, adding it when new.
    fn intern(&mut self, key: FrameKey) -> (r: usize)
        requires
            old(self).wf(),
        ensures
            final(self).wf(),
            extends(*final(self), *old(self)),
            final(self).nodes == old(self).nodes,
            frame_position(final(self).frames@, key_view(key)) == Some(r as int),
    {
        let ghost v = key_view(key);
        let mut i: usize = 0;
        while i < self.frames.len()
            invariant
                i <= self.frames@.len(),
                v == key_view(key),
                *self == *old(self),
                self.wf(),
                forall|j: int| 0 <= j < i ==> key_view(#[trigger] self.frames@[j]) != v,
            decreases self.frames@.len() - i,
        {
            if same_key(&self.frames[i], &key) {
                proof {
                    lemma_position_first(self.frames@, v, i as int);
                    lemma_extends_refl(*self);
                }
                return i;
            }
            i = i + 1;
        }
        let ghost before = *self;
        proof {
            lemma_position_absent(self.frames@, v);
        }
        self.frames.push(key);
        proof {
            assert(self.frames@.drop_last() =~= before.frames@);
            assert(self.frames@.subrange(0, before.frames@.len() as int) =~= before.frames@);
            assert forall|m: int| #![trigger before.nodes@[m]] 0 <= m < before.nodes@.len() implies child_entries(
                self.nodes@[m].children,
            ).subrange(0, child_entries(before.nodes@[m].children).len() as int) == child_entries(
                before.nodes@[m].children,
            ) by {
                assert(child_entries(self.nodes@[m].children).subrange(
                    0,
                    child_entries(before.nodes@[m].children).len() as int,
                ) =~= child_entries(before.nodes@[m].children));
            }
        }
        self.frames.len() - 1
    }

    /// Inserts a stack, root frame first, ending at a node whose terminal list
    /// gains `compile_id`. Every stack already in the trie keeps its node.
    pub fn insert(&mut self, stack: &Vec<FrameSummary>, compile_id: Option<CompileId>) -> (r: usize)
        requires
            old(self).wf(),
        ensures
            final(self).wf(),
            extends(*final(self), *old(self)),
            path_from(*final(self), 0, stack@.map_values(|f: FrameSummary| frame_view(f)))
                == Some(r as int),
            r < final(self).nodes@.len(),
            final(self).nodes@[r as int].terminal@ == (if r < old(self).nodes@.len() {
                old(self).nodes@[r as int].terminal@
            } else {
                Seq::empty()
            }).push(compile_id),
            forall|m: int|
                0 <= m < old(self).nodes@.len() && m != r ==> #[trigger] final(self).nodes@[m].terminal
                    == old(self).nodes@[m].terminal,
            forall|m: int|
                old(self).nodes@.len() <= m < final(self).nodes@.len() && m != r ==> (
                #[trigger] final(self).nodes@[m].terminal@).len() == 0,
            final(self).nodes@.len() == old(self).nodes@.len() + stack@.len() - existing_prefix(
                *old(self),
                0,
                stack@.map_values(|f: FrameSummary| frame_view(f)),
            ),
    {
        let ghost keys = stack@.map_values(|f: FrameSummary| frame_view(f));
        let ghost mut created = false;
        let ghost mut p: int = 0;
        let mut cur: usize = 0;
        let mut i: usize = 0;
        assert(keys.subrange(0, keys.len() as int) =~= keys);
        proof {
            lemma_extends_refl(*self);
            assert(keys.subrange(0, 0) =~= Seq::<FrameView>::empty());
        }
        while i < stack.len()
            invariant
                i <= stack@.len(),
                keys == stack@.map_values(|f: FrameSummary| frame_view(f)),
                self.wf(),
                old(self).wf(),
                extends(*self, *old(self)),
                cur < self.nodes@.len(),
                path_from(*self, 0, keys.subrange(0, i as int)) == Some(cur as int),
                !created ==> self.nodes == old(self).nodes && existing_prefix(*old(self), 0, keys)
                    == i + existing_prefix(*old(self), cur as int, keys.subrange(i as int, keys.len() as int)),
                created ==> p == existing_prefix(*old(self), 0, keys) && p < i
                    && self.nodes@.len() == old(self).nodes@.len() + (i - p)
                    && cur >= old(self).nodes@.len()
                    && child_entries(self.nodes@[cur as int].children).len() == 0,
                forall|m: int|
                    0 <= m < old(self).nodes@.len() ==> #[trigger] self.nodes@[m].terminal
                        == old(self).nodes@[m].terminal,
                forall|m: int|
                    old(self).nodes@.len() <= m < self.nodes@.len() ==> (
                    #[trigger] self.nodes@[m].terminal@).len() == 0,
            decreases stack@.len() - i,
        {
            let ghost prev = *self;
            let key = frame_key(&stack[i]);
            let f = self.intern(key);
            proof {
                lemma_path_extends(*self, prev, 0, keys.subrange(0, i as int));
                lemma_frame_position_bounds(self.frames@, keys[i as int]);
                lemma_extends_trans(*self, prev, *old(self));
            }
            let ghost mid = *self;
            let nframes = self.frames.len();
            proof {
                assert(keys.subrange(i as int, keys.len() as int)[0] == keys[i as int]);
                assert(keys.subrange(i as int, keys.len() as int).drop_first() =~= keys.subrange(
                    i + 1,
                    keys.len() as int,
                ));
                assert(keys[i as int] == frame_view(stack@[i as int]));
                if !created {
                    lemma_step_same(*self, *old(self), cur as int, keys[i as int]);
                }
            }
            match child_get(&self.nodes[cur].children, f) {
                Some(c) => {
                    proof {
                        assert(step(*self, cur as int, keys[i as int]) == Some(c as int));
                        lemma_lookup_bounds(child_entries(self.nodes@[cur as int].children), f);
                        let j = choose|j: int|
                            0 <= j < child_entries(self.nodes@[cur as int].children).len()
                                && child_entries(self.nodes@[cur as int].children)[j] == (f, c);
                        assert(child_entries(self.nodes@[cur as int].children)[j].1 == c);
                        lemma_path_push(*self, 0, keys.subrange(0, i as int), keys[i as int]);
                        assert(keys.subrange(0, i + 1) =~= keys.subrange(0, i as int).push(
                            keys[i as int],
                        ));
                    }
                    cur = c;
                },
                None => {
                    proof {
                        assert(step(*self, cur as int, keys[i as int]) is None);
                        if !created {
                            created = true;
                            p = i as int;
                        }
                    }
                    let c = self.nodes.len();
                    self.nodes.push(TrieNode { terminal: Vec::new(), children: new_child_map() });
                    let ghost pushed = *self;
                    child_insert(&mut self.nodes[cur].children, f, c);
                    proof {
                        let e_old = child_entries(mid.nodes@[cur as int].children);
                        assert(pushed.nodes@[cur as int] == mid.nodes@[cur as int]);
                        assert(child_entries(self.nodes@[cur as int].children) == e_old.push((f, c)));
                        // Every node of `mid` keeps its children, `cur` gains one.
                        assert(self.frames@.subrange(0, mid.frames@.len() as int) =~= mid.frames@);
                        assert forall|m: int| #![trigger mid.nodes@[m]] 0 <= m < mid.nodes@.len() implies {
                            &&& child_entries(mid.nodes@[m].children).len() <= child_entries(
                                self.nodes@[m].children,
                            ).len()
                            &&& child_entries(self.nodes@[m].children).subrange(
                                0,
                                child_entries(mid.nodes@[m].children).len() as int,
                            ) == child_entries(mid.nodes@[m].children)
                        } by {
                            if m == cur {
                                assert(e_old.push((f, c)).subrange(0, e_old.len() as int) =~= e_old);
                            } else {
                                assert(self.nodes@[m] == mid.nodes@[m]);
                                assert(child_entries(self.nodes@[m].children).subrange(
                                    0,
                                    child_entries(mid.nodes@[m].children).len() as int,
                                ) =~= child_entries(mid.nodes@[m].children));
                            }
                        }
                        assert(extends(*self, mid));
                        lemma_extends_trans(*self, mid, *old(self));
                        lemma_path_extends(*self, mid, 0, keys.subrange(0, i as int));
                        assert forall|n: int, j: int|
                            #![trigger child_entries(self.nodes@[n].children)[j]]
                            0 <= n < self.nodes@.len() && 0 <= j < child_entries(
                                self.nodes@[n].children,
                            ).len() implies {
                            &&& (child_entries(self.nodes@[n].children)[j].0 as int)
                                < self.frames@.len()
                            &&& n < (child_entries(self.nodes@[n].children)[j].1 as int)
                            &&& (child_entries(self.nodes@[n].children)[j].1 as int)
                                < self.nodes@.len()
                        } by {
                            if n == cur {
                                if j < e_old.len() {
                                    assert(child_entries(self.nodes@[n].children)[j] == e_old[j]);
                                    assert(e_old[j] == child_entries(mid.nodes@[n].children)[j]);
                                }
                            } else if n < mid.nodes@.len() {
                                assert(self.nodes@[n] == mid.nodes@[n]);
                                assert(child_entries(self.nodes@[n].children)[j]
                                    == child_entries(mid.nodes@[n].children)[j]);
                            } else {
                                assert(self.nodes@[n] == pushed.nodes@[n]);
                            }
                        }
                        lemma_lookup_push(e_old, f, c);
                        lemma_frame_position_bounds(self.frames@, keys[i as int]);
                        lemma_path_push(*self, 0, keys.subrange(0, i as int), keys[i as int]);
                        assert(keys.subrange(0, i + 1) =~= keys.subrange(0, i as int).push(
                            keys[i as int],
                        ));
                        assert forall|m: int|
                            0 <= m < old(self).nodes@.len() implies #[trigger] self.nodes@[m].terminal
                            == old(self).nodes@[m].terminal by {
                            assert(self.nodes@[m].terminal == mid.nodes@[m].terminal);
                        }
                        assert forall|m: int|
                            old(self).nodes@.len() <= m < self.nodes@.len() implies (
                            #[trigger] self.nodes@[m].terminal@).len() == 0 by {
                            if m < mid.nodes@.len() {
                                assert(self.nodes@[m].terminal == mid.nodes@[m].terminal);
                            } else {
                                assert(self.nodes@[m] == pushed.nodes@[m]);
                            }
                        }
                    }
                    cur = c;
                },
            }
            i = i + 1;
        }
        assert(keys.subrange(0, stack@.len() as int) =~= keys);
        assert(keys.subrange(stack@.len() as int, keys.len() as int) =~= Seq::<FrameView>::empty());
        let ghost before = *self;
        self.nodes[cur].terminal.push(compile_id);
        proof {
            assert(self.frames@.subrange(0, before.frames@.len() as int) =~= before.frames@);
            assert forall|m: int| #![trigger before.nodes@[m]] 0 <= m < before.nodes@.len() implies {
                &&& child_entries(before.nodes@[m].children).len() <= child_entries(
                    self.nodes@[m].children,
                ).len()
                &&& child_entries(self.nodes@[m].children).subrange(
                    0,
                    child_entries(before.nodes@[m].children).len() as int,
                ) == child_entries(before.nodes@[m].children)
            } by {
                assert(self.nodes@[m].children == before.nodes@[m].children);
                assert(child_entries(self.nodes@[m].children).subrange(
                    0,
                    child_entries(before.nodes@[m].children).len() as int,
                ) =~= child_entries(before.nodes@[m].children));
            }
            assert(extends(*self, before));
            lemma_extends_trans(*self, before, *old(self));
            lemma_path_extends(*self, before, 0, keys);
            assert forall|n: int, j: int|
                #![trigger child_entries(self.nodes@[n].children)[j]]
                0 <= n < self.nodes@.len() && 0 <= j < child_entries(self.nodes@[n].children).len()
                    implies {
                &&& (child_entries(self.nodes@[n].children)[j].0 as int) < self.frames@.len()
                &&& n < (child_entries(self.nodes@[n].children)[j].1 as int)
                &&& (child_entries(self.nodes@[n].children)[j].1 as int) < self.nodes@.len()
            } by {
                assert(self.nodes@[n].children == before.nodes@[n].children);
            }
        }
        cur
    }
}

proof fn lemma_position_first(frames: Seq<FrameKey>, v: FrameView, i: int)
    requires
        0 <= i < frames.len(),
        key_view(frames[i]) == v,
        forall|j: int| 0 <= j < i ==> key_view(#[trigger] frames[j]) != v,
    ensures
        frame_position(frames, v) == Some(i),
    decreases frames.len(),
{
    if i < frames.len() - 1 {
        lemma_position_first(frames.drop_last(), v, i);
    } else {
        lemma_position_absent(frames.drop_last(), v);
    }
}

proof fn lemma_position_absent(frames: Seq<FrameKey>, v: FrameView)
    requires
        forall|j: int| 0 <= j < frames.len() ==> key_view(#[trigger] frames[j]) != v,
    ensures
        frame_position(frames, v) is None,
    decreases frames.len(),
{
    if frames.len() > 0 {
        lemma_position_absent(frames.drop_last(), v);
    }
}

/// Two stacks that are the same frame for frame end at the same node, and a
/// stack inserted once keeps its node through every later insertion, so two
/// records with identical stacks share a node in whatever order they come.
pub proof fn lemma_identical_stacks_share_node(
    t1: StackTrie,
    t2: StackTrie,
    a: Seq<FrameSummary>,
    b: Seq<FrameSummary>,
)
    requires
        extends(t2, t1),
        a.map_values(|f: FrameSummary| frame_view(f)) == b.map_values(
            |f: FrameSummary| frame_view(f),
        ),
        path_from(t1, 0, a.map_values(|f: FrameSummary| frame_view(f))) is Some,
    ensures
        path_from(t2, 0, b.map_values(|f: FrameSummary| frame_view(f))) == path_from(
            t1,
            0,
            a.map_values(|f: FrameSummary| frame_view(f)),
        ),
{
    lemma_path_extends(t2, t1, 0, a.map_values(|f: FrameSummary| frame_view(f)));
}


/// What `simplify_filename` keeps: after a first `#link-tree/`, the text up to
/// the next one; the whole name when there is none.
pub open spec fn simplified_filename(s: Seq<char>) -> Seq<char> {
    let pat = "#link-tree/"@;
    match find_from(s, pat, 0) {
        None => s,
        Some(i) => {
            let rest = s.subrange(i + pat.len(), s.len() as int);
            match find_from(rest, pat, 0) {
                None => rest,
                Some(j) => rest.subrange(0, j),
            }
        },
    }
}

/// Shortens a file name to the part after its `#link-tree/` marker.
pub fn simplify_filename(filename: &str) -> (r: String)
    ensures
        r@ == simplified_filename(filename@),
{
    let pat = "#link-tree/";
    let plen = char_vec(pat).len();
    let n = char_vec(filename).len();
    match find_first(filename, pat) {
        None => filename.to_owned(),
        Some(i) => {
            proof {
                lemma_find_bounds(filename@, pat@, 0);
            }
            let rest = filename.substring_char(i + plen, n);
            match find_first(rest, pat) {
                None => rest.to_owned(),
                Some(j) => {
                    proof {
                        lemma_find_bounds(rest@, pat@, 0);
                    }
                    rest.substring_char(0, j).to_owned()
                },
            }
        },
    }
}

proof fn lemma_find_bounds(s: Seq<char>, pat: Seq<char>, i: int)
    requires
        find_from(s, pat, i) is Some,
    ensures
        i <= find_from(s, pat, i).unwrap(),
        find_from(s, pat, i).unwrap() + pat.len() <= s.len(),
    decreases s.len() + 1 - i,
{
    if !occurs_at(s, pat, i) {
        lemma_find_bounds(s, pat, i + 1);
    }
}

/// A frame of the compiler's own entry points: simplified file name and function.
pub open spec fn harness_frame(v: FrameView, function: Seq<char>) -> bool {
    simplified_filename(v.filename) == "torch/_dynamo/convert_frame.py"@ && v.name == function
}

/// Whether a stack ends with the frames `functions` of the compiler's entry file.
pub open spec fn ends_with_harness(frames: Seq<FrameView>, functions: Seq<Seq<char>>) -> bool {
    frames.len() >= functions.len() && forall|k: int|
        0 <= k < functions.len() ==> harness_frame(
            frames[frames.len() - functions.len() + k],
            #[trigger] functions[k],
        )
}

pub open spec fn catch_errors_tail() -> Seq<Seq<char>> {
    seq!["catch_errors"@, "_convert_frame"@, "_convert_frame_assert"@]
}

pub open spec fn call_tail() -> Seq<Seq<char>> {
    seq!["__call__"@, "__call__"@, "__call__"@]
}

/// The stack without a tail of the compiler's own entry-point frames.
pub open spec fn stripped_stack(frames: Seq<FrameView>) -> Seq<FrameView> {
    if ends_with_harness(frames, catch_errors_tail()) || ends_with_harness(frames, call_tail()) {
        frames.subrange(0, frames.len() - 3)
    } else {
        frames
    }
}

fn frame_is_harness(frame: &FrameSummary, function: &str) -> (r: bool)
    ensures
        r == harness_frame(frame_view(*frame), function@),
{
    let filename = match &frame.uninterned_filename {
        Some(f) => simplify_filename(f.as_str()),
        None => simplify_filename("(unknown)"),
    };
    str_eq(filename.as_str(), "torch/_dynamo/convert_frame.py") && str_eq(
        frame.name.as_str(),
        function,
    )
}

fn tail_matches(frames: &Vec<FrameSummary>, f0: &str, f1: &str, f2: &str) -> (r: bool)
    ensures
        r == ends_with_harness(
            frames@.map_values(|f: FrameSummary| frame_view(f)),
            seq![f0@, f1@, f2@],
        ),
{
    let ghost views = frames@.map_values(|f: FrameSummary| frame_view(f));
    let ghost fs = seq![f0@, f1@, f2@];
    let n = frames.len();
    if n < 3 {
        return false;
    }
    let r = frame_is_harness(&frames[n - 3], f0) && frame_is_harness(&frames[n - 2], f1)
        && frame_is_harness(&frames[n - 1], f2);
    proof {
        assert(views[n - 3] == frame_view(frames@[n - 3]));
        assert(views[n - 2] == frame_view(frames@[n - 2]));
        assert(views[n - 1] == frame_view(frames@[n - 1]));
        if r {
            assert forall|k: int| 0 <= k < fs.len() implies harness_frame(
                views[views.len() - fs.len() + k],
                #[trigger] fs[k],
            ) by {
                if k == 0 {
                } else if k == 1 {
                } else {
                }
            }
        } else {
            if !harness_frame(views[n - 3], fs[0]) {
            } else if !harness_frame(views[n - 2], fs[1]) {
            } else {
                assert(!harness_frame(views[views.len() - fs.len() + 2], fs[2]));
            }
        }
    }
    r
}

/// Removes the compiler's entry-point frames from the end of a stack.
pub fn maybe_remove_convert_frame_suffixes(frames: &mut Vec<FrameSummary>)
    ensures
        final(frames)@ == old(frames)@ || (old(frames)@.len() >= 3 && final(frames)@
            == old(frames)@.subrange(0, old(frames)@.len() - 3)),
        final(frames)@.map_values(|f: FrameSummary| frame_view(f)) == stripped_stack(
            old(frames)@.map_values(|f: FrameSummary| frame_view(f)),
        ),
{
    let ghost views = frames@.map_values(|f: FrameSummary| frame_view(f));
    let first = tail_matches(frames, "catch_errors", "_convert_frame", "_convert_frame_assert");
    let matched = first || tail_matches(frames, "__call__", "__call__", "__call__");
    proof {
        assert(seq!["catch_errors"@, "_convert_frame"@, "_convert_frame_assert"@]
            == catch_errors_tail());
        assert(seq!["__call__"@, "__call__"@, "__call__"@] == call_tail());
    }
    if matched {
        let n = frames.len();
        frames.truncate(n - 3);
        assert(frames@ =~= old(frames)@.subrange(0, n - 3));
        assert(frames@.map_values(|f: FrameSummary| frame_view(f)) =~= views.subrange(
            0,
            views.len() - 3,
        ));
    }
}

/// The text of an optional string member: `Some(None)` when absent or `null`,
/// `None` when it holds something else.
pub open spec fn optional_text_member(v: JsonValue, key: Seq<char>) -> Option<Option<Seq<char>>> {
    match json_get(v, key) {
        None => Some(None),
        Some(JsonValue::Null) => Some(None),
        Some(JsonValue::Str(s)) => Some(Some(s@)),
        Some(_) => None,
    }
}

/// A 32-bit line number.
pub open spec fn json_i32(v: JsonValue) -> Option<i32> {
    match v {
        JsonValue::Number(JsonNumber::Unsigned(n)) => if n <= i32::MAX {
            Some(n as i32)
        } else {
            None
        },
        JsonValue::Number(JsonNumber::Signed(n)) => if i32::MIN <= n && n <= i32::MAX {
            Some(n as i32)
        } else {
            None
        },
        _ => None,
    }
}

/// The frame that a JSON object describes: `line` and `name` are required,
/// the file name and the source text are optional.
pub open spec fn frame_of_json(v: JsonValue) -> Option<FrameView> {
    let line = match json_get(v, "line"@) {
        Some(l) => json_i32(l),
        None => None,
    };
    let name = match json_get(v, "name"@) {
        Some(m) => json_as_str(m),
        None => None,
    };
    let file = optional_text_member(v, "uninterned_filename"@);
    let loc = optional_text_member(v, "loc"@);
    if v is Object && line is Some && name is Some && file is Some && loc is Some {
        Some(
            FrameView {
                filename: match file.unwrap() {
                    Some(f) => f,
                    None => "(unknown)"@,
                },
                line: line.unwrap(),
                name: name.unwrap(),
                loc: loc.unwrap(),
            },
        )
    } else {
        None
    }
}

fn optional_text(v: &JsonValue, key: &str) -> (r: Result<Option<String>, ()>)
    ensures
        r is Ok <==> optional_text_member(*v, key@) is Some,
        r matches Ok(o) ==> Some(opt_text(o)) == optional_text_member(*v, key@),
{
    match v.get(key) {
        None => Ok(None),
        Some(JsonValue::Null) => Ok(None),
        Some(JsonValue::Str(s)) => Ok(Some(s.clone())),
        Some(_) => Err(()),
    }
}

fn line_of(v: &JsonValue) -> (r: Option<i32>)
    ensures
        r == json_i32(*v),
{
    match v {
        JsonValue::Number(JsonNumber::Unsigned(n)) => if *n <= 2147483647 {
            Some(*n as i32)
        } else {
            None
        },
        JsonValue::Number(JsonNumber::Signed(n)) => if -2147483648 <= *n && *n <= 2147483647 {
            Some(*n as i32)
        } else {
            None
        },
        _ => None,
    }
}

/// Reads one frame from its JSON object.
pub fn frame_from_json(v: &JsonValue) -> (r: Option<FrameSummary>)
    ensures
        r is Some <==> frame_of_json(*v) is Some,
        r matches Some(f) ==> frame_of_json(*v) == Some(frame_view(f)),
{
    if !(v matches JsonValue::Object(_)) {
        return None;
    }
    let line = match v.get("line") {
        Some(l) => line_of(l),
        None => None,
    };
    let name = match v.get_str("name") {
        Some(n) => n.to_owned(),
        None => return None,
    };
    let file = optional_text(v, "uninterned_filename");
    let loc = optional_text(v, "loc");
    match (line, file, loc) {
        (Some(line), Ok(uninterned_filename), Ok(loc)) => Some(
            FrameSummary { uninterned_filename, line, name, loc },
        ),
        _ => None,
    }
}

/// The frames of the `stack` member, if it is an array of frames.
pub open spec fn stack_of(metadata: JsonValue) -> Option<Seq<FrameView>> {
    match json_get(metadata, "stack"@) {
        Some(JsonValue::Array(items)) => if forall|i: int|
            0 <= i < items@.len() ==> #[trigger] frame_of_json(items@[i]) is Some {
            Some(items@.map_values(|it: JsonValue| frame_of_json(it).unwrap()))
        } else {
            None
        },
        _ => None,
    }
}

/// Reads the `stack` member of a record's metadata.
pub fn stack_from_json(metadata: &JsonValue) -> (r: Option<Vec<FrameSummary>>)
    ensures
        r is Some <==> stack_of(*metadata) is Some,
        r matches Some(v) ==> stack_of(*metadata) == Some(
            v@.map_values(|f: FrameSummary| frame_view(f)),
        ),
{
    let items = match metadata.get("stack") {
        Some(JsonValue::Array(items)) => items,
        _ => return None,
    };
    let mut frames: Vec<FrameSummary> = Vec::new();
    let mut i: usize = 0;
    while i < items.len()
        invariant
            i <= items@.len(),
            json_get(*metadata, "stack"@) == Some(JsonValue::Array(*items)),
            frames@.len() == i,
            forall|j: int|
                0 <= j < i ==> frame_of_json(items@[j]) == Some(frame_view(#[trigger] frames@[j])),
        decreases items@.len() - i,
    {
        match frame_from_json(&items[i]) {
            Some(f) => frames.push(f),
            None => {
                assert(frame_of_json(items@[i as int]) is None);
                return None;
            },
        }
        i = i + 1;
    }
    assert forall|j: int| 0 <= j < items@.len() implies #[trigger] frame_of_json(items@[j]) is Some
        && frame_of_json(items@[j]).unwrap() == frame_view(frames@[j]) by {
        assert(frame_of_json(items@[j]) == Some(frame_view(frames@[j])));
    }
    assert(frames@.map_values(|f: FrameSummary| frame_view(f)) =~= items@.map_values(
        |it: JsonValue| frame_of_json(it).unwrap(),
    ));
    Some(frames)
}

/// The frames of a stack from its root: stripped, then reversed.
pub open spec fn trie_path(frames: Seq<FrameView>) -> Seq<FrameView> {
    stripped_stack(frames).reverse()
}

/// A record that contributes a stack to the trie: a compilation start whose
/// metadata holds a readable stack.
pub open spec fn stack_record(e: IntermediateEntry) -> bool {
    e.entry_type@ == "dynamo_start"@ && stack_of(e.metadata) is Some
}

pub open spec fn record_compile_id(e: IntermediateEntry) -> Option<CompileId> {
    match e.compile_id {
        Some(s) => Some(crate::compile_id::decode_compile_id(s@)),
        None => None,
    }
}

/// Whether a trie is empty: no child and no terminal at the root.
pub open spec fn trie_is_empty(t: StackTrie) -> bool {
    child_entries(t.nodes@[0].children).len() == 0 && t.nodes@[0].terminal@.len() == 0
}

/// What the trie built from `records` holds: it is the fresh trie after the
/// insertions of the stack records in order; the stack of every stack record
/// leads to a node that lists the record's compile id; and the trie is empty
/// exactly when no record has a stack.
pub open spec fn trie_of_records(t: StackTrie, records: Seq<IntermediateEntry>) -> bool {
    &&& t.wf()
    &&& built_by(t, gather(records, |e: IntermediateEntry| stack_insertion(e)))
    &&& forall|i: int|
        0 <= i < records.len() && #[trigger] stack_record(records[i]) ==> {
            let p = path_from(t, 0, trie_path(stack_of(records[i].metadata).unwrap()));
            &&& p is Some
            &&& 0 <= p.unwrap() < t.nodes@.len()
            &&& t.nodes@[p.unwrap()].terminal@.contains(record_compile_id(records[i]))
        }
    &&& trie_is_empty(t) <==> !(exists|i: int| 0 <= i < records.len() && #[trigger] stack_record(
        records[i],
    ))
}

fn reversed(frames: Vec<FrameSummary>) -> (r: Vec<FrameSummary>)
    ensures
        r@ == frames@.reverse(),
{
    let mut out: Vec<FrameSummary> = Vec::new();
    let mut rest = frames;
    while rest.len() > 0
        invariant
            out@ + rest@.reverse() == frames@.reverse(),
        decreases rest@.len(),
    {
        let ghost before = rest@;
        let f = rest.pop().unwrap();
        proof {
            assert(before == rest@.push(f));
            assert(before.reverse() =~= seq![f] + rest@.reverse());
        }
        out.push(f);
        assert(out@ + rest@.reverse() =~= frames@.reverse());
    }
    assert(out@ =~= frames@.reverse());
    out
}

proof fn lemma_nonempty_path(t: StackTrie, keys: Seq<FrameView>)
    requires
        t.wf(),
        keys.len() > 0,
        path_from(t, 0, keys) is Some,
    ensures
        child_entries(t.nodes@[0].children).len() > 0,
{
    let f = frame_position(t.frames@, keys[0]).unwrap();
    let e = child_entries(t.nodes@[0].children);
    if e.len() == 0 {
        assert(entry_lookup(e, f as usize) is None);
    }
}

/// All that `StackTrie::insert` promises of one insertion of the path `keys`
/// with `cid` into `a`, giving `b` and the end node `r`.
pub open spec fn insert_result(a: StackTrie, b: StackTrie, keys: Seq<FrameView>, cid: Option<CompileId>, r: int) -> bool {
    &&& b.wf()
    &&& extends(b, a)
    &&& path_from(b, 0, keys) == Some(r)
    &&& 0 <= r < b.nodes@.len()
    &&& b.nodes@[r].terminal@ == (if r < a.nodes@.len() {
        a.nodes@[r].terminal@
    } else {
        Seq::empty()
    }).push(cid)
    &&& forall|m: int| 0 <= m < a.nodes@.len() && m != r ==> #[trigger] b.nodes@[m].terminal == a.nodes@[m].terminal
    &&& forall|m: int| a.nodes@.len() <= m < b.nodes@.len() && m != r ==> (#[trigger] b.nodes@[m].terminal@).len() == 0
    &&& b.nodes@.len() == a.nodes@.len() + keys.len() - existing_prefix(a, 0, keys)
}

/// A trie with a root and nothing else.
pub open spec fn fresh_trie(t: StackTrie) -> bool {
    &&& t.wf()
    &&& t.frames@.len() == 0
    &&& t.nodes@.len() == 1
    &&& t.nodes@[0].terminal@.len() == 0
    &&& child_entries(t.nodes@[0].children).len() == 0
}

/// The insertions that a stack record asks for: its path from the root and
/// its compile id.
pub open spec fn stack_insertion(e: IntermediateEntry) -> Seq<(Seq<FrameView>, Option<CompileId>)> {
    if stack_record(e) {
        seq![(trie_path(stack_of(e.metadata).unwrap()), record_compile_id(e))]
    } else {
        Seq::empty()
    }
}

/// The `k`-th trie of `ts` becomes the next by the `k`-th insertion.
pub open spec fn chain_step(ts: Seq<StackTrie>, ins: Seq<(Seq<FrameView>, Option<CompileId>)>, k: int) -> bool {
    exists|r: int| #[trigger] insert_result(ts[k], ts[k + 1], ins[k].0, ins[k].1, r)
}

/// `t` is a fresh trie after the insertions `ins`, one after the other.
pub open spec fn built_by(t: StackTrie, ins: Seq<(Seq<FrameView>, Option<CompileId>)>) -> bool {
    exists|ts: Seq<StackTrie>|
        ts.len() == ins.len() + 1 && fresh_trie(ts[0]) && ts[ins.len() as int] == t && forall|k: int|
            0 <= k < ins.len() ==> #[trigger] chain_step(ts, ins, k)
}

/// Builds the trie of the stacks of `records`.
pub fn build_stack_trie(records: &Vec<IntermediateEntry>) -> (t: StackTrie)
    ensures
        trie_of_records(t, records@),
        built_by(t, gather(records@, |e: IntermediateEntry| stack_insertion(e))),
{
    let mut trie = StackTrie::new();
    let ghost f = |e: IntermediateEntry| stack_insertion(e);
    let ghost mut ts: Seq<StackTrie> = seq![trie];
    let mut i: usize = 0;
    assert(gather(records@.subrange(0, 0), f) =~= Seq::<(Seq<FrameView>, Option<CompileId>)>::empty());
    while i < records.len()
        invariant
            i <= records@.len(),
            trie.wf(),
            f == (|e: IntermediateEntry| stack_insertion(e)),
            ts.len() == gather(records@.subrange(0, i as int), f).len() + 1,
            fresh_trie(ts[0]),
            ts.last() == trie,
            forall|k: int|
                0 <= k < ts.len() - 1 ==> #[trigger] chain_step(ts, gather(records@.subrange(0, i as int), f), k),
            forall|j: int|
                0 <= j < i && #[trigger] stack_record(records@[j]) ==> {
                    let p = path_from(trie, 0, trie_path(stack_of(records@[j].metadata).unwrap()));
                    &&& p is Some
                    &&& 0 <= p.unwrap() < trie.nodes@.len()
                    &&& trie.nodes@[p.unwrap()].terminal@.contains(record_compile_id(records@[j]))
                },
            trie_is_empty(trie) <==> !(exists|j: int| 0 <= j < i && #[trigger] stack_record(
                records@[j],
            )),
        decreases records@.len() - i,
    {
        let entry = &records[i];
        let ghost ts_before = ts;
        proof {
            crate::modules::lemma_gather_step(records@, f, i as int);
        }
        if str_eq(entry.entry_type.as_str(), "dynamo_start") {
            if let Some(mut stack) = stack_from_json(&entry.metadata) {
                let compile_id = parse_compile_id(&entry.compile_id);
                maybe_remove_convert_frame_suffixes(&mut stack);
                let path = reversed(stack);
                let ghost before = trie;
                proof {
                    assert(path@.map_values(|f: FrameSummary| frame_view(f)) =~= trie_path(
                        stack_of(records@[i as int].metadata).unwrap(),
                    ));
                }
                let n = trie.insert(&path, compile_id);
                proof {
                    let ins = gather(records@.subrange(0, i + 1), f);
                    let old_ins = gather(records@.subrange(0, i as int), f);
                    assert(stack_record(records@[i as int]));
                    assert(ins == old_ins + stack_insertion(records@[i as int]));
                    assert(insert_result(before, trie, ins[old_ins.len() as int].0, ins[old_ins.len() as int].1, n as int));
                    ts = ts.push(trie);
                    assert forall|k: int| 0 <= k < ts.len() - 1 implies #[trigger] chain_step(ts, ins, k) by {
                        if k < ts.len() - 2 {
                            assert(ts[k] == ts_before[k] && ts[k + 1] == ts_before[k + 1]);
                            assert(ins[k] == old_ins[k]);
                            assert(chain_step(ts_before, old_ins, k));
                        } else {
                            assert(ts[k] == before);
                            assert(insert_result(ts[k], ts[k + 1], ins[k].0, ins[k].1, n as int));
                        }
                    }
                    assert(record_compile_id(records@[i as int]) == compile_id);
                    assert(trie.nodes@[n as int].terminal@.last() == compile_id);
                    assert(trie.nodes@[n as int].terminal@.contains(compile_id));
                    assert forall|j: int|
                        0 <= j < i + 1 && #[trigger] stack_record(records@[j]) implies {
                        let p = path_from(
                            trie,
                            0,
                            trie_path(stack_of(records@[j].metadata).unwrap()),
                        );
                        &&& p is Some
                        &&& 0 <= p.unwrap() < trie.nodes@.len()
                        &&& trie.nodes@[p.unwrap()].terminal@.contains(
                            record_compile_id(records@[j]),
                        )
                    } by {
                        if j < i {
                            let keys = trie_path(stack_of(records@[j].metadata).unwrap());
                            lemma_path_extends(trie, before, 0, keys);
                            let m = path_from(before, 0, keys).unwrap();
                            let cid = record_compile_id(records@[j]);
                            let k = choose|k: int|
                                0 <= k < before.nodes@[m].terminal@.len()
                                    && before.nodes@[m].terminal@[k] == cid;
                            if m == n {
                                assert(trie.nodes@[m].terminal@[k] == cid);
                            } else {
                                assert(trie.nodes@[m].terminal == before.nodes@[m].terminal);
                            }
                        }
                    }
                    if path@.len() > 0 {
                        lemma_nonempty_path(trie, path@.map_values(|f: FrameSummary| frame_view(f)));
                    } else {
                        assert(path_from(trie, 0, path@.map_values(|f: FrameSummary| frame_view(f)))
                            == Some(0int));
                        assert(trie.nodes@[0].terminal@.len() > 0);
                    }
                    assert(stack_record(records@[i as int]));
                }
            } else {
                assert(!stack_record(records@[i as int]));
            }
        } else {
            assert(!stack_record(records@[i as int]));
        }
        proof {
            if !stack_record(records@[i as int]) {
                assert(gather(records@.subrange(0, i + 1), f) =~= gather(records@.subrange(0, i as int), f));
                assert(ts == ts_before);
            }
            if !trie_is_empty(trie) {
                if !stack_record(records@[i as int]) {
                    let j = choose|j: int| 0 <= j < i && #[trigger] stack_record(records@[j]);
                    assert(0 <= j < i + 1 && stack_record(records@[j]));
                }
            } else {
                assert forall|j: int| 0 <= j < i + 1 implies !#[trigger] stack_record(records@[j]) by {
                    if j < i {
                    }
                }
            }
        }
        i = i + 1;
    }
    proof {
        crate::modules::lemma_gather_all(records@, f);
        let ins = gather(records@, f);
        assert(ts[ins.len() as int] == trie);
        assert(built_by(trie, ins));
    }
    trie
}


/// What the trie's status marks need of one compilation-metrics record.
pub struct MetricSummary {
    pub compile_id: Option<CompileId>,
    /// The record carries a failure type.
    pub failed: bool,
    /// The record counts zero graph operations.
    pub empty: bool,
    /// The record lists restart reasons.
    pub restarted: bool,
}

/// The summary of a compilation-metrics record, or `None` for a record of
/// another type or with metadata that is not an object.
pub open spec fn summary_of(e: IntermediateEntry) -> Option<MetricSummary> {
    if e.entry_type@ == "compilation_metrics"@ && e.metadata is Object {
        Some(
            MetricSummary {
                compile_id: record_compile_id(e),
                failed: crate::json::has_non_null(e.metadata, "fail_type"@),
                empty: crate::json::u64_field(e.metadata, "graph_op_count"@) == Some(0u64),
                restarted: array_field(e.metadata, "restart_reasons"@).len() > 0,
            },
        )
    } else {
        None
    }
}

/// The summaries of the compilation-metrics records, in order.
pub open spec fn metric_summaries(records: Seq<IntermediateEntry>) -> Seq<MetricSummary>
    decreases records.len(),
{
    if records.len() == 0 {
        Seq::empty()
    } else {
        let rest = metric_summaries(records.drop_last());
        match summary_of(records.last()) {
            Some(m) => rest.push(m),
            None => rest,
        }
    }
}

/// Summarizes the compilation-metrics records.
pub fn build_metrics_index(records: &Vec<IntermediateEntry>) -> (r: Vec<MetricSummary>)
    ensures
        r@ == metric_summaries(records@),
{
    let mut out: Vec<MetricSummary> = Vec::new();
    let mut i: usize = 0;
    while i < records.len()
        invariant
            i <= records@.len(),
            out@ == metric_summaries(records@.subrange(0, i as int)),
        decreases records@.len() - i,
    {
        let e = &records[i];
        assert(records@.subrange(0, i + 1).drop_last() =~= records@.subrange(0, i as int));
        if str_eq(e.entry_type.as_str(), "compilation_metrics") && (e.metadata matches JsonValue::Object(_)) {
            let empty = match e.metadata.get_u64("graph_op_count") {
                Some(n) => n == 0,
                None => false,
            };
            let restarted = match e.metadata.get("restart_reasons") {
                Some(JsonValue::Array(a)) => a.len() > 0,
                _ => false,
            };
            out.push(
                MetricSummary {
                    compile_id: parse_compile_id(&e.compile_id),
                    failed: e.metadata.has_non_null("fail_type"),
                    empty,
                    restarted,
                },
            );
        }
        i = i + 1;
    }
    assert(records@.subrange(0, records@.len() as int) =~= records@);
    out
}

/// The status of a compile id in the trie.
#[derive(Clone, Copy, Debug, PartialEq, Eq, Structural)]
pub enum CompileStatus {
    Missing,
    Error,
    Empty,
    Break,
    Fine,
}

/// The status of `c`: missing without metrics, else error if a record failed,
/// else empty if a graph was empty, else break if compilation restarted.
pub open spec fn status_of(index: Seq<MetricSummary>, c: CompileId) -> CompileStatus {
    if !(exists|i: int| 0 <= i < index.len() && #[trigger] index[i].compile_id == Some(c)) {
        CompileStatus::Missing
    } else if exists|i: int|
        0 <= i < index.len() && #[trigger] index[i].compile_id == Some(c) && index[i].failed {
        CompileStatus::Error
    } else if exists|i: int|
        0 <= i < index.len() && #[trigger] index[i].compile_id == Some(c) && index[i].empty {
        CompileStatus::Empty
    } else if exists|i: int|
        0 <= i < index.len() && #[trigger] index[i].compile_id == Some(c) && index[i].restarted {
        CompileStatus::Break
    } else {
        CompileStatus::Fine
    }
}

/// The status of a compile id, from the metrics summaries.
pub fn status_for(index: &Vec<MetricSummary>, c: &CompileId) -> (r: CompileStatus)
    ensures
        r == status_of(index@, *c),
{
    let mut found = false;
    let mut failed = false;
    let mut empty = false;
    let mut restarted = false;
    let mut i: usize = 0;
    while i < index.len()
        invariant
            i <= index@.len(),
            found == exists|j: int| 0 <= j < i && #[trigger] index@[j].compile_id == Some(*c),
            failed == exists|j: int|
                0 <= j < i && #[trigger] index@[j].compile_id == Some(*c) && index@[j].failed,
            empty == exists|j: int|
                0 <= j < i && #[trigger] index@[j].compile_id == Some(*c) && index@[j].empty,
            restarted == exists|j: int|
                0 <= j < i && #[trigger] index@[j].compile_id == Some(*c) && index@[j].restarted,
        decreases index@.len() - i,
    {
        let m = &index[i];
        let same = match m.compile_id {
            Some(x) => x == *c,
            None => false,
        };
        if same {
            found = true;
            failed = failed || m.failed;
            empty = empty || m.empty;
            restarted = restarted || m.restarted;
        }
        i = i + 1;
    }
    if !found {
        CompileStatus::Missing
    } else if failed {
        CompileStatus::Error
    } else if empty {
        CompileStatus::Empty
    } else if restarted {
        CompileStatus::Break
    } else {
        CompileStatus::Fine
    }
}

/// The CSS class that marks a status.
pub open spec fn status_class(s: CompileStatus) -> Seq<char> {
    match s {
        CompileStatus::Missing => "status-missing"@,
        CompileStatus::Error => "status-error"@,
        CompileStatus::Empty => "status-empty"@,
        CompileStatus::Break => "status-break"@,
        CompileStatus::Fine => "status-ok"@,
    }
}

pub fn status_class_of(s: CompileStatus) -> (r: &'static str)
    ensures
        r@ == status_class(s),
{
    match s {
        CompileStatus::Missing => "status-missing",
        CompileStatus::Error => "status-error",
        CompileStatus::Empty => "status-empty",
        CompileStatus::Break => "status-break",
        CompileStatus::Fine => "status-ok",
    }
}

/// The digits of the leftmost `<eval_with_key>.` followed by at least one
/// digit, searching from position `i`.
pub open spec fn eval_key_from(s: Seq<char>, i: int) -> Option<Seq<char>>
    decreases s.len() + 1 - i,
{
    let p = "<eval_with_key>."@;
    if i < 0 || i + p.len() >= s.len() {
        None
    } else if occurs_at(s, p, i) && is_ascii_digit(s[i + p.len()]) {
        Some(digit_run(s.subrange(i + p.len(), s.len() as int)))
    } else {
        eval_key_from(s, i + 1)
    }
}

/// Relies on `regex::Regex::captures` with the pattern
/// `<eval_with_key>\.([0-9]+)`: the leftmost match, with its greedy run of
/// ASCII digits as the first group.
#[verifier::external_body]
fn eval_with_key_digits(filename: &str) -> (r: Option<String>)
    ensures
        r matches Some(d) ==> eval_key_from(filename@, 0) == Some(d@),
        r is None ==> eval_key_from(filename@, 0) is None,
{
    let re = regex::Regex::new(r"<eval_with_key>\.([0-9]+)").ok()?;
    re.captures(filename).and_then(|caps| caps.get(1)).map(|m| m.as_str().to_owned())
}

/// The number of a generated-code file name `<eval_with_key>.N`.
pub open spec fn eval_key_id(filename: Seq<char>) -> Option<u64> {
    match eval_key_from(filename, 0) {
        Some(d) => parse_u64_spec(d),
        None => None,
    }
}

/// Reads the number of a generated-code file name.
pub fn extract_eval_with_key_id(filename: &str) -> (r: Option<u64>)
    ensures
        r == eval_key_id(filename@),
{
    match eval_with_key_digits(filename) {
        Some(d) => parse_u64(d.as_str()),
        None => None,
    }
}

/// How a frame is shown: a link into the generated-code dump when the file
/// is one, else the file, line and function, with the source text below.
pub open spec fn frame_html(k: FrameView) -> Seq<char> {
    let file = html_escaped(simplified_filename(k.filename));
    let line = signed_decimal(k.line as int);
    match eval_key_id(k.filename) {
        Some(id) => "<a href='dump_file/eval_with_key_"@ + decimal(id as nat) + ".html#L"@ + line
            + "'>"@ + file + ":"@ + line + "</a> in "@ + html_escaped(k.name),
        None => file + ":"@ + line + " in "@ + html_escaped(k.name) + match k.loc {
            Some(l) => "<br>&nbsp;&nbsp;&nbsp;&nbsp;"@ + html_escaped(l),
            None => Seq::empty(),
        },
    }
}

/// Formats one frame of the trie.
pub fn format_frame(frame: &FrameKey) -> (r: String)
    ensures
        r@ == frame_html(key_view(*frame)),
{
    let simple = simplify_filename(frame.filename.as_str());
    let file = escape_html(simple.as_str());
    let line = i64_to_decimal(frame.line as i64);
    let name = escape_html(frame.name.as_str());
    let mut out = String::new();
    match extract_eval_with_key_id(frame.filename.as_str()) {
        Some(id) => {
            let ids = u64_to_decimal(id);
            push_text(&mut out, "<a href='dump_file/eval_with_key_");
            push_text(&mut out, ids.as_str());
            push_text(&mut out, ".html#L");
            push_text(&mut out, line.as_str());
            push_text(&mut out, "'>");
            push_text(&mut out, file.as_str());
            push_text(&mut out, ":");
            push_text(&mut out, line.as_str());
            push_text(&mut out, "</a> in ");
            push_text(&mut out, name.as_str());
        },
        None => {
            push_text(&mut out, file.as_str());
            push_text(&mut out, ":");
            push_text(&mut out, line.as_str());
            push_text(&mut out, " in ");
            push_text(&mut out, name.as_str());
            match &frame.loc {
                Some(l) => {
                    let el = escape_html(l.as_str());
                    push_text(&mut out, "<br>&nbsp;&nbsp;&nbsp;&nbsp;");
                    push_text(&mut out, el.as_str());
                },
                None => {},
            }
        },
    }
    proof {
        let k = key_view(*frame);
        match eval_key_id(k.filename) {
            Some(id) => {},
            None => match k.loc {
                Some(l) => {},
                None => {
                    assert(out@ =~= frame_html(k));
                },
            },
        }
    }
    out
}


/// The link of one compile id at a trie node, classed by its status.
pub open spec fn terminal_link(index: Seq<MetricSummary>, t: Option<CompileId>) -> Seq<char> {
    match t {
        Some(c) => "<a href='#"@ + encode_compile_id(c) + "' class='"@ + status_class(
            status_of(index, c),
        ) + "'>"@ + encode_compile_id(c) + "</a> "@,
        None => "(unknown) "@,
    }
}

pub open spec fn terminal_links(index: Seq<MetricSummary>, ts: Seq<Option<CompileId>>) -> Seq<char>
    decreases ts.len(),
{
    if ts.len() == 0 {
        Seq::empty()
    } else {
        terminal_links(index, ts.drop_last()) + terminal_link(index, ts.last())
    }
}

/// The nested list of the subtree below node `n`.
pub open spec fn render_node(t: StackTrie, index: Seq<MetricSummary>, n: int) -> Seq<char>
    decreases t.nodes@.len() - n, child_entries(t.nodes@[n].children).len() + 1,
{
    if 0 <= n < t.nodes@.len() {
        render_children(t, index, n, child_entries(t.nodes@[n].children).len() as int)
    } else {
        Seq::empty()
    }
}

/// The list items of the first `j` children of node `n`. A node with several
/// children opens a nested list per child; an only child continues its
/// parent's line of items.
pub open spec fn render_children(t: StackTrie, index: Seq<MetricSummary>, n: int, j: int) -> Seq<
    char,
>
    decreases t.nodes@.len() - n, j,
{
    if j <= 0 || !(0 <= n < t.nodes@.len()) || j > child_entries(t.nodes@[n].children).len() {
        Seq::empty()
    } else {
        let entries = child_entries(t.nodes@[n].children);
        let f = entries[j - 1].0 as int;
        let c = entries[j - 1].1 as int;
        let prev = render_children(t, index, n, j - 1);
        if !(n < c && c < t.nodes@.len() && f < t.frames@.len()) {
            prev
        } else {
            let star = terminal_links(index, t.nodes@[c].terminal@);
            let fh = frame_html(key_view(t.frames@[f]));
            if entries.len() > 1 {
                prev + "<li><span onclick='toggleList(this)' class='marker'></span>"@ + star
                    + "\n"@ + fh + "<ul>\n"@ + render_node(t, index, c) + "</ul></li>"@
            } else {
                prev + "<li>"@ + star + fh + "</li>\n"@ + render_node(t, index, c)
            }
        }
    }
}

/// The whole trie as a collapsible section.
pub open spec fn trie_page(t: StackTrie, index: Seq<MetricSummary>, caption: Seq<char>, open: bool) -> Seq<
    char,
> {
    (if open {
        "<details open>"@
    } else {
        "<details>"@
    }) + "<summary>"@ + caption + "</summary>"@ + "<div class='stack-trie'>"@ + "<ul>"@
        + render_node(t, index, 0) + "</ul>"@ + "</div>"@ + "</details>"@
}

fn push_links(index: &Vec<MetricSummary>, ts: &Vec<Option<CompileId>>, out: &mut String)
    ensures
        final(out)@ == old(out)@ + terminal_links(index@, ts@),
{
    let mut i: usize = 0;
    assert(ts@.subrange(0, 0) =~= Seq::<Option<CompileId>>::empty());
    while i < ts.len()
        invariant
            i <= ts@.len(),
            out@ == old(out)@ + terminal_links(index@, ts@.subrange(0, i as int)),
        decreases ts@.len() - i,
    {
        let ghost before = out@;
        match &ts[i] {
            Some(c) => {
                let cid = format_compile_id(&Some(*c)).unwrap();
                let class = status_class_of(status_for(index, c));
                push_text(out, "<a href='#");
                push_text(out, cid.as_str());
                push_text(out, "' class='");
                push_text(out, class);
                push_text(out, "'>");
                push_text(out, cid.as_str());
                push_text(out, "</a> ");
            },
            None => {
                push_text(out, "(unknown) ");
            },
        }
        proof {
            assert(ts@.subrange(0, i + 1).drop_last() =~= ts@.subrange(0, i as int));
            assert(out@ =~= before + terminal_link(index@, ts@[i as int]));
        }
        i = i + 1;
    }
    assert(ts@.subrange(0, ts@.len() as int) =~= ts@);
}

impl StackTrie {
    /// Appends the nested list of the subtree below node `n`.
    pub fn fmt_inner(&self, n: usize, index: &Vec<MetricSummary>, out: &mut String)
        requires
            self.wf(),
            n < self.nodes@.len(),
        ensures
            final(out)@ == old(out)@ + render_node(*self, index@, n as int),
        decreases self.nodes@.len() - n,
    {
        let count = child_count(&self.nodes[n].children);
        let ghost entries = child_entries(self.nodes@[n as int].children);
        let mut j: usize = 0;
        while j < count
            invariant
                j <= count,
                count == entries.len(),
                entries == child_entries(self.nodes@[n as int].children),
                self.wf(),
                n < self.nodes@.len(),
                out@ == old(out)@ + render_children(*self, index@, n as int, j as int),
            decreases count - j,
        {
            let (f, c) = child_at(&self.nodes[n].children, j).unwrap();
            assert(entries[j as int] == (f, c));
            assert(n < c && c < self.nodes@.len() && f < self.frames@.len());
            let ghost before = out@;
            let mut star = String::new();
            push_links(index, &self.nodes[c].terminal, &mut star);
            let fh = format_frame(&self.frames[f]);
            if count > 1 {
                push_text(out, "<li><span onclick='toggleList(this)' class='marker'></span>");
                push_text(out, star.as_str());
                push_text(out, "\n");
                push_text(out, fh.as_str());
                push_text(out, "<ul>\n");
                self.fmt_inner(c, index, out);
                push_text(out, "</ul></li>");
            } else {
                push_text(out, "<li>");
                push_text(out, star.as_str());
                push_text(out, fh.as_str());
                push_text(out, "</li>\n");
                self.fmt_inner(c, index, out);
            }
            proof {
                assert(out@ =~= old(out)@ + render_children(*self, index@, n as int, j + 1));
            }
            j = j + 1;
        }
    }

    /// The trie as a collapsible section titled `caption`.
    pub fn fmt(&self, index: &Vec<MetricSummary>, caption: &str, open: bool) -> (r: String)
        requires
            self.wf(),
        ensures
            r@ == trie_page(*self, index@, caption@, open),
    {
        let mut f = String::new();
        if open {
            push_text(&mut f, "<details open>");
        } else {
            push_text(&mut f, "<details>");
        }
        push_text(&mut f, "<summary>");
        push_text(&mut f, caption);
        push_text(&mut f, "</summary>");
        push_text(&mut f, "<div class='stack-trie'>");
        push_text(&mut f, "<ul>");
        self.fmt_inner(0, index, &mut f);
        push_text(&mut f, "</ul>");
        push_text(&mut f, "</div>");
        push_text(&mut f, "</details>");
        assert(f@ =~= trie_page(*self, index@, caption@, open));
        f
    }
}

/// Module that renders the stack trie for the top-level page.
pub struct StackTrieModule;

impl StackTrieModule {
    pub fn new() -> StackTrieModule {
        StackTrieModule
    }

    /// Reads a compile id back from the text a record carries.
    pub fn parse_compile_id(&self, compile_id_str: &Option<String>) -> (r: Option<CompileId>)
        ensures
            r == record_compile_id_of(*compile_id_str),
    {
        parse_compile_id(compile_id_str)
    }

    /// The trie section of the records of the compilation-metrics category:
    /// nothing when no record carries a stack.
    pub fn render_stack_trie(&self, ctx: &ModuleContext) -> (r: Result<ModuleOutput, ModuleError>)
        requires
            ctx.wf(),
        ensures
            r is Err <==> stream_records(*ctx, IntermediateFileType::CompilationMetrics) is None,
            r matches Ok(o) ==> o.files@.len() == 0 && o.directory_entries.items@.len() == 0,
            r matches Ok(o) ==> (o.index_contribution is None <==> !has_stack_records(
                stream_records(*ctx, IntermediateFileType::CompilationMetrics).unwrap(),
            )),
            r matches Ok(o) ==> (o.index_contribution matches Some(c) ==> c.section@
                == "Stack Trie"@ && trie_section(
                stream_records(*ctx, IntermediateFileType::CompilationMetrics).unwrap(),
                c.html@,
            )),
    {
        let records = ctx.read_jsonl(IntermediateFileType::CompilationMetrics)?;
        let index = build_metrics_index(records);
        let trie = build_stack_trie(records);
        if trie.is_empty() {
            assert(!has_stack_records(records@));
            return Ok(ModuleOutput::empty());
        }
        let html = trie.fmt(&index, "Stack Trie", true);
        assert(trie_of_records(trie, records@) && html@ == trie_page(
            trie,
            metric_summaries(records@),
            "Stack Trie"@,
            true,
        ));
        assert(trie_section(records@, html@));
        assert(!trie_is_empty(trie));
        assert(has_stack_records(records@));
        let section = "Stack Trie".to_owned();
        assert(section@ == "Stack Trie"@);
        Ok(
            ModuleOutput {
                files: Vec::new(),
                directory_entries: crate::modules::DirectoryEntries::new(),
                index_contribution: Some(IndexContribution { section, html }),
            },
        )
    }
}

/// Whether some record carries a stack.
pub open spec fn has_stack_records(records: Seq<IntermediateEntry>) -> bool {
    exists|i: int| 0 <= i < records.len() && #[trigger] stack_record(records[i])
}

/// The section shows the trie of `records`, its compile ids marked with the
/// status of their compilation metrics.
pub open spec fn trie_section(records: Seq<IntermediateEntry>, html: Seq<char>) -> bool {
    exists|t: StackTrie|
        trie_of_records(t, records) && html == trie_page(
            t,
            metric_summaries(records),
            "Stack Trie"@,
            true,
        )
}

pub open spec fn record_compile_id_of(s: Option<String>) -> Option<CompileId> {
    match s {
        Some(t) => Some(crate::compile_id::decode_compile_id(t@)),
        None => None,
    }
}

impl Module for StackTrieModule {
    open spec fn id_is(&self, id: Seq<char>) -> bool {
        id == "stack_trie"@
    }

    open spec fn output_ok(&self, ctx: ModuleContext, r: Result<ModuleOutput, ModuleError>) -> bool {
        &&& (r is Err <==> stream_records(ctx, IntermediateFileType::CompilationMetrics) is None)
        &&& (r matches Ok(o) ==> o.files@.len() == 0 && o.directory_entries.items@.len() == 0)
        &&& (r matches Ok(o) ==> (o.index_contribution is None <==> !has_stack_records(
                stream_records(ctx, IntermediateFileType::CompilationMetrics).unwrap(),
            )))
        &&& (r matches Ok(o) ==> (o.index_contribution matches Some(c) ==> c.section@
                == "Stack Trie"@ && trie_section(
                stream_records(ctx, IntermediateFileType::CompilationMetrics).unwrap(),
                c.html@,
            )))
    }

    fn name(&self) -> &'static str {
        "Stack Trie"
    }

    fn id(&self) -> (r: &'static str) {
        "stack_trie"
    }

    fn subscriptions(&self) -> Vec<IntermediateFileType> {
        vec![IntermediateFileType::CompilationMetrics]
    }

    fn render(&self, ctx: &ModuleContext) -> (r: Result<ModuleOutput, ModuleError>) {
        self.render_stack_trie(ctx)
    }
}

proof fn lemma_chain_extends(
    ts: Seq<StackTrie>,
    ins: Seq<(Seq<FrameView>, Option<CompileId>)>,
    k: int,
    j: int,
)
    requires
        ts.len() == ins.len() + 1,
        forall|q: int| 0 <= q < ins.len() ==> #[trigger] chain_step(ts, ins, q),
        0 <= k <= j < ts.len(),
    ensures
        extends(ts[j], ts[k]),
    decreases j - k,
{
    if j == k {
        lemma_extends_refl(ts[k]);
    } else {
        lemma_chain_extends(ts, ins, k, j - 1);
        assert(chain_step(ts, ins, j - 1));
        let r = choose|r: int| #[trigger] insert_result(ts[j - 1], ts[j], ins[j - 1].0, ins[j - 1].1, r);
        lemma_extends_trans(ts[j], ts[j - 1], ts[k]);
    }
}

/// In a trie built by a sequence of insertions, in whatever order they come
/// and with any insertions between them, two insertions of the same stack
/// end at the same node.
pub proof fn lemma_same_stack_same_node(
    ts: Seq<StackTrie>,
    ins: Seq<(Seq<FrameView>, Option<CompileId>)>,
    k: int,
    l: int,
    rk: int,
    rl: int,
)
    requires
        ts.len() == ins.len() + 1,
        forall|q: int| 0 <= q < ins.len() ==> #[trigger] chain_step(ts, ins, q),
        0 <= k < l < ins.len(),
        ins[k].0 == ins[l].0,
        insert_result(ts[k], ts[k + 1], ins[k].0, ins[k].1, rk),
        insert_result(ts[l], ts[l + 1], ins[l].0, ins[l].1, rl),
    ensures
        rk == rl,
{
    lemma_chain_extends(ts, ins, k + 1, l + 1);
    lemma_path_extends(ts[l + 1], ts[k + 1], 0, ins[k].0);
}

} // verus!
