//! The compile directory: for each compile id, the artifacts that the report
//! holds for it, its links and its status, written as `compile_directory.json`.
use vstd::prelude::*;

use crate::intermediate::{entry_compile_id, IntermediateEntry, IntermediateFileType};
use crate::json::{json_get, or_default, str_field, str_field_or, JsonValue};
use crate::modules::compile_artifacts::{cache_name, codegen_base_name, codegen_base_name_of, is_cache_artifact};
use crate::modules::context::{stream_records, ModuleContext};
use crate::modules::{DirectoryEntries, Module, ModuleError, ModuleOutput};
use crate::text::{push_text, seq_less, split_char, split_on, str_eq, str_less};

verus! {

/// How a compile id is shown: `Global` for the global key, `f/c` for two
/// pieces, `f/c (attempt a)` for three, and the id itself otherwise.
pub open spec fn display_name(cid: Seq<char>) -> Seq<char> {
    let p = split_on(cid, '_');
    if cid == "__global__"@ {
        "Global"@
    } else if p.len() == 2 {
        p[0] + "/"@ + p[1]
    } else if p.len() == 3 {
        p[0] + "/"@ + p[1] + " (attempt "@ + p[2] + ")"@
    } else {
        cid
    }
}

/// The display name of a compile id.
pub fn format_display_name(compile_id: &str) -> (r: String)
    ensures
        r@ == display_name(compile_id@),
{
    if str_eq(compile_id, "__global__") {
        return "Global".to_owned();
    }
    let parts = split_char(compile_id, '_');
    if parts.len() == 2 {
        let mut s = parts[0].clone();
        s.append("/");
        s.append(parts[1].as_str());
        s
    } else if parts.len() == 3 {
        let mut s = parts[0].clone();
        s.append("/");
        s.append(parts[1].as_str());
        s.append(" (attempt ");
        s.append(parts[2].as_str());
        s.append(")");
        s
    } else {
        compile_id.to_owned()
    }
}

/// What the directory holds for one key.
pub struct DirView {
    pub key: Seq<char>,
    pub display_name: Seq<char>,
    pub status: Seq<char>,
    pub artifacts: Seq<(Seq<char>, Seq<char>)>,
    pub links: Seq<(Seq<char>, Seq<char>)>,
}

/// The first position whose artifact name does not sort before `name`.
pub open spec fn insert_position(list: Seq<(Seq<char>, Seq<char>)>, name: Seq<char>, i: int) -> int
    decreases list.len() - i,
{
    if i < 0 || i >= list.len() || !seq_less(list[i].0, name) {
        i
    } else {
        insert_position(list, name, i + 1)
    }
}

/// Adds an artifact in name order, unless one of that name is there: the
/// list stays sorted by name without repeated names, the first kept.
pub open spec fn insert_artifact(list: Seq<(Seq<char>, Seq<char>)>, a: (Seq<char>, Seq<char>)) -> Seq<(Seq<char>, Seq<char>)> {
    let i = insert_position(list, a.0, 0);
    if 0 <= i < list.len() && list[i].0 == a.0 {
        list
    } else {
        list.insert(i, a)
    }
}

pub open spec fn graph_kind(t: Seq<char>) -> bool {
    t == "dynamo_output_graph"@ || t == "aot_forward_graph"@ || t == "aot_backward_graph"@ || t
        == "aot_joint_graph"@ || t == "aot_inference_graph"@ || t == "inductor_pre_grad_graph"@
        || t == "inductor_post_grad_graph"@ || t == "optimize_ddp_split_graph"@ || t
        == "compiled_autograd_graph"@ || t == "graph_dump"@
}

/// Whether the record is an artifact whose name marks a cache decision.
pub open spec fn cache_record(e: IntermediateEntry) -> bool {
    match str_field(e.metadata, "name"@) {
        Some(n) => cache_name(n),
        None => false,
    }
}

/// The status after a `compilation_metrics` record: `failure` when it carries
/// a failure type, `success` when it has none and nothing was known yet.
pub open spec fn next_status(status: Seq<char>, m: JsonValue) -> Seq<char> {
    match json_get(m, "fail_type"@) {
        Some(v) => if v is Null {
            status
        } else {
            "failure"@
        },
        None => if status == "unknown"@ {
            "success"@
        } else {
            status
        },
    }
}

/// What one record adds to the directory entry of its key.
pub open spec fn apply_record(d: DirView, e: IntermediateEntry) -> DirView {
    let t = e.entry_type@;
    let m = e.metadata;
    if graph_kind(t) {
        DirView { artifacts: insert_artifact(d.artifacts, (t + ".txt"@, "graph"@)), ..d }
    } else if t == "inductor_output_code"@ {
        DirView { artifacts: insert_artifact(d.artifacts, (codegen_base_name(m) + ".txt"@, "codegen"@)), ..d }
    } else if t == "dynamo_guards"@ {
        DirView { artifacts: insert_artifact(d.artifacts, ("dynamo_guards.html"@, "guards"@)), ..d }
    } else if t == "dynamo_cpp_guards_str"@ {
        DirView { artifacts: insert_artifact(d.artifacts, ("dynamo_cpp_guards_str.txt"@, "guards"@)), ..d }
    } else if t == "compilation_metrics"@ {
        DirView {
            artifacts: insert_artifact(d.artifacts, ("compilation_metrics.html"@, "metrics"@)),
            status: next_status(d.status, m),
            ..d
        }
    } else if t == "bwd_compilation_metrics"@ {
        DirView { artifacts: insert_artifact(d.artifacts, ("bwd_compilation_metrics.html"@, "metrics"@)), ..d }
    } else if t == "artifact"@ && cache_record(e) {
        let name = or_default(str_field(m, "name"@), "cache_artifact"@);
        let ext = if str_field(m, "encoding"@) == Some("json"@) { "json"@ } else { "txt"@ };
        DirView { artifacts: insert_artifact(d.artifacts, (name + "."@ + ext, "cache"@)), ..d }
    } else if t == "link"@ {
        DirView {
            links: d.links.push(
                (or_default(str_field(m, "name"@), "Link"@), or_default(str_field(m, "url"@), "#"@)),
            ),
            ..d
        }
    } else {
        d
    }
}

/// The key a record is filed under: its compile id, or `__global__`.
pub open spec fn dir_key(e: IntermediateEntry) -> Seq<char> {
    or_default(entry_compile_id(e), "__global__"@)
}

/// The position of the entry of `key`.
pub open spec fn dir_position(dir: Seq<DirView>, key: Seq<char>, i: int) -> Option<int>
    decreases dir.len() - i,
{
    if i < 0 || i >= dir.len() {
        None
    } else if dir[i].key == key {
        Some(i)
    } else {
        dir_position(dir, key, i + 1)
    }
}

/// The directory after one record: the entry of its key, made when new,
/// takes the record in.
pub open spec fn add_record(dir: Seq<DirView>, e: IntermediateEntry) -> Seq<DirView> {
    let key = dir_key(e);
    match dir_position(dir, key, 0) {
        Some(i) => dir.update(i, apply_record(dir[i], e)),
        None => dir.push(
            apply_record(
                DirView {
                    key,
                    display_name: display_name(key),
                    status: "unknown"@,
                    artifacts: Seq::empty(),
                    links: Seq::empty(),
                },
                e,
            ),
        ),
    }
}

/// The directory after the records, in order.
pub open spec fn add_records(dir: Seq<DirView>, records: Seq<IntermediateEntry>) -> Seq<DirView>
    decreases records.len(),
{
    if records.len() == 0 {
        dir
    } else {
        add_record(add_records(dir, records.drop_last()), records.last())
    }
}

/// One entry of the compile directory.
pub struct CompileDirectoryEntry {
    pub key: String,
    pub display_name: String,
    pub status: String,
    /// Name and type of each artifact, sorted by name.
    pub artifacts: Vec<(String, String)>,
    /// Name and url of each link.
    pub links: Vec<(String, String)>,
}

pub open spec fn pair_views(v: Seq<(String, String)>) -> Seq<(Seq<char>, Seq<char>)> {
    v.map_values(|p: (String, String)| (p.0@, p.1@))
}

pub open spec fn dir_view(d: CompileDirectoryEntry) -> DirView {
    DirView {
        key: d.key@,
        display_name: d.display_name@,
        status: d.status@,
        artifacts: pair_views(d.artifacts@),
        links: pair_views(d.links@),
    }
}

pub open spec fn dir_views(v: Seq<CompileDirectoryEntry>) -> Seq<DirView> {
    v.map_values(|d: CompileDirectoryEntry| dir_view(d))
}

fn insert_artifact_exec(list: &mut Vec<(String, String)>, name: String, kind: &str)
    ensures
        pair_views(final(list)@) == insert_artifact(pair_views(old(list)@), (name@, kind@)),
{
    let ghost v = pair_views(list@);
    let mut i: usize = 0;
    while i < list.len() && str_less(list[i].0.as_str(), name.as_str())
        invariant
            i <= list@.len(),
            *list == *old(list),
            v == pair_views(list@),
            insert_position(v, name@, 0) == insert_position(v, name@, i as int),
        decreases list@.len() - i,
    {
        i = i + 1;
    }
    if i < list.len() && str_eq(list[i].0.as_str(), name.as_str()) {
        return ;
    }
    list.insert(i, (name, kind.to_owned()));
    assert(pair_views(list@) =~= v.insert(i as int, (name@, kind@)));
}

fn find_dir(dir: &Vec<CompileDirectoryEntry>, key: &str) -> (r: Option<usize>)
    ensures
        r matches Some(i) ==> dir_position(dir_views(dir@), key@, 0) == Some(i as int) && i < dir@.len(),
        r is None ==> dir_position(dir_views(dir@), key@, 0) is None,
{
    let ghost v = dir_views(dir@);
    let mut i: usize = 0;
    while i < dir.len()
        invariant
            i <= dir@.len(),
            v == dir_views(dir@),
            dir_position(v, key@, 0) == dir_position(v, key@, i as int),
        decreases dir@.len() - i,
    {
        if str_eq(dir[i].key.as_str(), key) {
            return Some(i);
        }
        i = i + 1;
    }
    None
}

fn apply_record_exec(d: &mut CompileDirectoryEntry, e: &IntermediateEntry)
    ensures
        dir_view(*final(d)) == apply_record(dir_view(*old(d)), *e),
{
    let ty = e.entry_type.as_str();
    let m = &e.metadata;
    let ghost t = e.entry_type@;
    if str_eq(ty, "dynamo_output_graph") || str_eq(ty, "aot_forward_graph") || str_eq(ty, "aot_backward_graph")
        || str_eq(ty, "aot_joint_graph") || str_eq(ty, "aot_inference_graph") || str_eq(ty, "inductor_pre_grad_graph")
        || str_eq(ty, "inductor_post_grad_graph") || str_eq(ty, "optimize_ddp_split_graph")
        || str_eq(ty, "compiled_autograd_graph") || str_eq(ty, "graph_dump") {
        let mut name = ty.to_owned();
        name.append(".txt");
        insert_artifact_exec(&mut d.artifacts, name, "graph");
    } else if str_eq(ty, "inductor_output_code") {
        let mut name = codegen_base_name_of(m);
        name.append(".txt");
        insert_artifact_exec(&mut d.artifacts, name, "codegen");
    } else if str_eq(ty, "dynamo_guards") {
        insert_artifact_exec(&mut d.artifacts, "dynamo_guards.html".to_owned(), "guards");
    } else if str_eq(ty, "dynamo_cpp_guards_str") {
        insert_artifact_exec(&mut d.artifacts, "dynamo_cpp_guards_str.txt".to_owned(), "guards");
    } else if str_eq(ty, "compilation_metrics") {
        insert_artifact_exec(&mut d.artifacts, "compilation_metrics.html".to_owned(), "metrics");
        match m.get("fail_type") {
            Some(v) => {
                if !v.is_null() {
                    d.status = "failure".to_owned();
                }
            },
            None => {
                if str_eq(d.status.as_str(), "unknown") {
                    d.status = "success".to_owned();
                }
            },
        }
    } else if str_eq(ty, "bwd_compilation_metrics") {
        insert_artifact_exec(&mut d.artifacts, "bwd_compilation_metrics.html".to_owned(), "metrics");
    } else if str_eq(ty, "artifact") && match m.get_str("name") {
        Some(n) => is_cache_artifact(n),
        None => false,
    } {
        let mut name = str_field_or(m, "name", "cache_artifact");
        let json = match m.get_str("encoding") {
            Some(enc) => str_eq(enc, "json"),
            None => false,
        };
        name.append(".");
        if json {
            name.append("json");
        } else {
            name.append("txt");
        }
        insert_artifact_exec(&mut d.artifacts, name, "cache");
    } else if str_eq(ty, "link") {
        let name = str_field_or(m, "name", "Link");
        let url = str_field_or(m, "url", "#");
        d.links.push((name, url));
        assert(pair_views(d.links@) =~= pair_views(old(d).links@).push((name@, url@)));
    }
}

/// The directory entries of the records of every category that holds
/// artifacts, in the order the keys first appear.
pub fn build_compile_directory(
    dir: &mut Vec<CompileDirectoryEntry>,
    records: &Vec<IntermediateEntry>,
)
    ensures
        dir_views(final(dir)@) == add_records(dir_views(old(dir)@), records@),
{
    let mut i: usize = 0;
    assert(records@.subrange(0, 0) =~= Seq::<IntermediateEntry>::empty());
    while i < records.len()
        invariant
            i <= records@.len(),
            dir_views(dir@) == add_records(dir_views(old(dir)@), records@.subrange(0, i as int)),
        decreases records@.len() - i,
    {
        let e = &records[i];
        let ghost before = dir_views(dir@);
        let key = match &e.compile_id {
            Some(c) => c.clone(),
            None => "__global__".to_owned(),
        };
        assert(key@ == dir_key(*e));
        match find_dir(dir, key.as_str()) {
            Some(k) => {
                let ghost old_entry = dir@[k as int];
                apply_record_exec(&mut dir[k], e);
                assert(dir_views(dir@) =~= before.update(k as int, apply_record(before[k as int], *e)));
            },
            None => {
                let display_name = format_display_name(key.as_str());
                let mut d = CompileDirectoryEntry {
                    key,
                    display_name,
                    status: "unknown".to_owned(),
                    artifacts: Vec::new(),
                    links: Vec::new(),
                };
                assert(pair_views(d.artifacts@) =~= Seq::<(Seq<char>, Seq<char>)>::empty());
                assert(pair_views(d.links@) =~= Seq::<(Seq<char>, Seq<char>)>::empty());
                apply_record_exec(&mut d, e);
                dir.push(d);
                assert(dir_views(dir@) =~= before.push(dir_view(d)));
            },
        }
        proof {
            let s = records@.subrange(0, i + 1);
            assert(s.drop_last() =~= records@.subrange(0, i as int));
            assert(s.last() == records@[i as int]);
        }
        i = i + 1;
    }
    assert(records@.subrange(0, records@.len() as int) =~= records@);
}


/// A lowercase hexadecimal digit.
pub open spec fn hex_digit(d: nat) -> char {
    if d < 10 {
        crate::text::digit_char(d)
    } else if d == 10 {
        'a'
    } else if d == 11 {
        'b'
    } else if d == 12 {
        'c'
    } else if d == 13 {
        'd'
    } else if d == 14 {
        'e'
    } else {
        'f'
    }
}

/// How a character stands inside a JSON string: `"` and `\` escaped, the
/// short escapes for backspace, tab, newline, form feed and carriage return,
/// `\u00XX` for the other characters below U+0020, and itself otherwise.
pub open spec fn json_char(c: char) -> Seq<char> {
    if c == '"' {
        seq!['\\', '"']
    } else if c == '\\' {
        seq!['\\', '\\']
    } else if c == '\u{8}' {
        seq!['\\', 'b']
    } else if c == '\t' {
        seq!['\\', 't']
    } else if c == '\n' {
        seq!['\\', 'n']
    } else if c == '\u{c}' {
        seq!['\\', 'f']
    } else if c == '\r' {
        seq!['\\', 'r']
    } else if (c as u32) < 32 {
        seq!['\\', 'u', '0', '0', hex_digit(((c as u32) / 16) as nat), hex_digit(((c as u32) % 16) as nat)]
    } else {
        seq![c]
    }
}

pub open spec fn json_chars(s: Seq<char>) -> Seq<char>
    decreases s.len(),
{
    if s.len() == 0 {
        Seq::empty()
    } else {
        json_chars(s.drop_last()) + json_char(s.last())
    }
}

/// A string as a JSON string literal.
pub open spec fn json_string_of(s: Seq<char>) -> Seq<char> {
    seq!['"'] + json_chars(s) + seq!['"']
}

/// Relies on `serde_json::to_string` of a `str`: the quoted string with the
/// escapes of `json_char` (serde_json's `ESCAPE` table and `\u00XX` with
/// lowercase digits). Serializing a string cannot fail.
#[verifier::external_body]
fn json_string(s: &str) -> (r: String)
    ensures
        r@ == json_string_of(s@),
{
    serde_json::to_string(s).unwrap_or_default()
}

/// One `{"<k1>": .., "<k2>": ..}` pair object at the indentation of an
/// artifact or a link.
pub open spec fn pair_object(k1: Seq<char>, k2: Seq<char>, p: (Seq<char>, Seq<char>)) -> Seq<char> {
    "      {\n        \""@ + k1 + "\": "@ + json_string_of(p.0) + ",\n        \""@ + k2 + "\": "@
        + json_string_of(p.1) + "\n      }"@
}

pub open spec fn pair_objects(k1: Seq<char>, k2: Seq<char>, ps: Seq<(Seq<char>, Seq<char>)>) -> Seq<char>
    decreases ps.len(),
{
    if ps.len() == 0 {
        Seq::empty()
    } else if ps.len() == 1 {
        pair_object(k1, k2, ps[0])
    } else {
        pair_objects(k1, k2, ps.drop_last()) + ",\n"@ + pair_object(k1, k2, ps.last())
    }
}

/// A JSON array of pair objects, as `serde_json` pretty-prints it.
pub open spec fn pair_array(k1: Seq<char>, k2: Seq<char>, ps: Seq<(Seq<char>, Seq<char>)>) -> Seq<char> {
    if ps.len() == 0 {
        "[]"@
    } else {
        "[\n"@ + pair_objects(k1, k2, ps) + "\n    ]"@
    }
}

/// One directory entry as a member of the top-level object.
pub open spec fn dir_member(d: DirView) -> Seq<char> {
    "  "@ + json_string_of(d.key) + ": {\n    \"display_name\": "@ + json_string_of(d.display_name)
        + ",\n    \"status\": "@ + json_string_of(d.status) + ",\n    \"artifacts\": "@ + pair_array(
        "name"@,
        "type"@,
        d.artifacts,
    ) + ",\n    \"links\": "@ + pair_array("name"@, "url"@, d.links) + "\n  }"@
}

pub open spec fn dir_members(dir: Seq<DirView>) -> Seq<char>
    decreases dir.len(),
{
    if dir.len() == 0 {
        Seq::empty()
    } else if dir.len() == 1 {
        dir_member(dir[0])
    } else {
        dir_members(dir.drop_last()) + ",\n"@ + dir_member(dir.last())
    }
}

/// The directory as pretty-printed JSON.
pub open spec fn directory_json(dir: Seq<DirView>) -> Seq<char> {
    if dir.len() == 0 {
        "{}"@
    } else {
        "{\n"@ + dir_members(dir) + "\n}"@
    }
}

#[verifier::rlimit(40)]
fn push_pair_array(out: &mut String, k1: &str, k2: &str, ps: &Vec<(String, String)>)
    ensures
        final(out)@ == old(out)@ + pair_array(k1@, k2@, pair_views(ps@)),
{
    let ghost v = pair_views(ps@);
    if ps.len() == 0 {
        push_text(out, "[]");
        return ;
    }
    push_text(out, "[\n");
    let ghost start = out@;
    let mut i: usize = 0;
    while i < ps.len()
        invariant
            i <= ps@.len(),
            ps@.len() > 0,
            v == pair_views(ps@),
            out@ == start + pair_objects(k1@, k2@, v.subrange(0, i as int)),
        decreases ps@.len() - i,
    {
        if i > 0 {
            push_text(out, ",\n");
        }
        let a = json_string(ps[i].0.as_str());
        let b = json_string(ps[i].1.as_str());
        push_text(out, "      {\n        \"");
        push_text(out, k1);
        push_text(out, "\": ");
        push_text(out, a.as_str());
        push_text(out, ",\n        \"");
        push_text(out, k2);
        push_text(out, "\": ");
        push_text(out, b.as_str());
        push_text(out, "\n      }");
        proof {
            let s = v.subrange(0, i + 1);
            assert(s.drop_last() =~= v.subrange(0, i as int));
            assert(s.last() == v[i as int]);
            if i == 0 {
                assert(s =~= seq![v[0]]);
                assert(v.subrange(0, 0) =~= Seq::<(Seq<char>, Seq<char>)>::empty());
            }
            assert(out@ =~= start + pair_objects(k1@, k2@, s));
        }
        i = i + 1;
    }
    push_text(out, "\n    ]");
    assert(v.subrange(0, ps@.len() as int) =~= v);
}

fn push_dir_member(out: &mut String, d: &CompileDirectoryEntry)
    ensures
        final(out)@ == old(out)@ + dir_member(dir_view(*d)),
{
    let k = json_string(d.key.as_str());
    let n = json_string(d.display_name.as_str());
    let st = json_string(d.status.as_str());
    push_text(out, "  ");
    push_text(out, k.as_str());
    push_text(out, ": {\n    \"display_name\": ");
    push_text(out, n.as_str());
    push_text(out, ",\n    \"status\": ");
    push_text(out, st.as_str());
    push_text(out, ",\n    \"artifacts\": ");
    push_pair_array(out, "name", "type", &d.artifacts);
    push_text(out, ",\n    \"links\": ");
    push_pair_array(out, "name", "url", &d.links);
    push_text(out, "\n  }");
    assert(out@ =~= old(out)@ + dir_member(dir_view(*d)));
}

/// The directory as pretty-printed JSON.
pub fn directory_to_json(dir: &Vec<CompileDirectoryEntry>) -> (r: String)
    ensures
        r@ == directory_json(dir_views(dir@)),
{
    let ghost v = dir_views(dir@);
    if dir.len() == 0 {
        return "{}".to_owned();
    }
    let mut out = "{\n".to_owned();
    let ghost start = out@;
    let mut i: usize = 0;
    while i < dir.len()
        invariant
            i <= dir@.len(),
            dir@.len() > 0,
            v == dir_views(dir@),
            out@ == start + dir_members(v.subrange(0, i as int)),
        decreases dir@.len() - i,
    {
        if i > 0 {
            push_text(&mut out, ",\n");
        }
        push_dir_member(&mut out, &dir[i]);
        proof {
            let s = v.subrange(0, i + 1);
            assert(s.drop_last() =~= v.subrange(0, i as int));
            assert(s.last() == v[i as int]);
            if i == 0 {
                assert(s =~= seq![v[0]]);
                assert(v.subrange(0, 0) =~= Seq::<DirView>::empty());
            }
            assert(out@ =~= start + dir_members(s));
        }
        i = i + 1;
    }
    push_text(&mut out, "\n}");
    assert(v.subrange(0, dir@.len() as int) =~= v);
    out
}

/// Module that writes the compile directory.
pub struct CompileDirectoryModule;

impl CompileDirectoryModule {
    pub fn new() -> CompileDirectoryModule {
        CompileDirectoryModule
    }

    /// `compile_directory.json`: the directory of the records of the graphs,
    /// codegen, guards, compilation-metrics and artifacts categories, read
    /// in that order.
    pub fn render_directory(&self, ctx: &ModuleContext) -> (r: Result<ModuleOutput, ModuleError>)
        requires
            ctx.wf(),
        ensures
            r is Err <==> (stream_records(*ctx, IntermediateFileType::Graphs) is None
                || stream_records(*ctx, IntermediateFileType::Codegen) is None
                || stream_records(*ctx, IntermediateFileType::Guards) is None
                || stream_records(*ctx, IntermediateFileType::CompilationMetrics) is None
                || stream_records(*ctx, IntermediateFileType::Artifacts) is None),
            r matches Ok(o) ==> {
                let dir = add_records(
                    add_records(
                        add_records(
                            add_records(
                                add_records(
                                    Seq::empty(),
                                    stream_records(*ctx, IntermediateFileType::Graphs).unwrap(),
                                ),
                                stream_records(*ctx, IntermediateFileType::Codegen).unwrap(),
                            ),
                            stream_records(*ctx, IntermediateFileType::Guards).unwrap(),
                        ),
                        stream_records(*ctx, IntermediateFileType::CompilationMetrics).unwrap(),
                    ),
                    stream_records(*ctx, IntermediateFileType::Artifacts).unwrap(),
                );
                &&& o.files@.len() == 1
                &&& o.files@[0].0@ == "compile_directory.json"@
                &&& o.files@[0].1@ == directory_json(dir)
                &&& o.directory_entries.items@.len() == 0
                &&& o.index_contribution is None
            },
    {
        let graphs = ctx.read_jsonl(IntermediateFileType::Graphs)?;
        let codegen = ctx.read_jsonl(IntermediateFileType::Codegen)?;
        let guards = ctx.read_jsonl(IntermediateFileType::Guards)?;
        let metrics = ctx.read_jsonl(IntermediateFileType::CompilationMetrics)?;
        let artifacts = ctx.read_jsonl(IntermediateFileType::Artifacts)?;
        let mut dir: Vec<CompileDirectoryEntry> = Vec::new();
        assert(dir_views(dir@) =~= Seq::<DirView>::empty());
        build_compile_directory(&mut dir, graphs);
        build_compile_directory(&mut dir, codegen);
        build_compile_directory(&mut dir, guards);
        build_compile_directory(&mut dir, metrics);
        build_compile_directory(&mut dir, artifacts);
        let json = directory_to_json(&dir);
        let mut files: Vec<(String, String)> = Vec::new();
        files.push(("compile_directory.json".to_owned(), json));
        Ok(ModuleOutput { files, directory_entries: DirectoryEntries::new(), index_contribution: None })
    }
}

impl Module for CompileDirectoryModule {
    open spec fn id_is(&self, id: Seq<char>) -> bool {
        id == "compile_directory"@
    }

    open spec fn output_ok(&self, ctx: ModuleContext, r: Result<ModuleOutput, ModuleError>) -> bool {
        &&& (r is Err <==> (stream_records(ctx, IntermediateFileType::Graphs) is None
                || stream_records(ctx, IntermediateFileType::Codegen) is None
                || stream_records(ctx, IntermediateFileType::Guards) is None
                || stream_records(ctx, IntermediateFileType::CompilationMetrics) is None
                || stream_records(ctx, IntermediateFileType::Artifacts) is None))
        &&& (r matches Ok(o) ==> {
                let dir = add_records(
                    add_records(
                        add_records(
                            add_records(
                                add_records(
                                    Seq::empty(),
                                    stream_records(ctx, IntermediateFileType::Graphs).unwrap(),
                                ),
                                stream_records(ctx, IntermediateFileType::Codegen).unwrap(),
                            ),
                            stream_records(ctx, IntermediateFileType::Guards).unwrap(),
                        ),
                        stream_records(ctx, IntermediateFileType::CompilationMetrics).unwrap(),
                    ),
                    stream_records(ctx, IntermediateFileType::Artifacts).unwrap(),
                );
                &&& o.files@.len() == 1
                &&& o.files@[0].0@ == "compile_directory.json"@
                &&& o.files@[0].1@ == directory_json(dir)
                &&& o.directory_entries.items@.len() == 0
                &&& o.index_contribution is None
            })
    }

    fn name(&self) -> &'static str {
        "Compile Directory"
    }

    fn id(&self) -> (r: &'static str) {
        "compile_directory"
    }

    fn subscriptions(&self) -> Vec<IntermediateFileType> {
        vec![
            IntermediateFileType::Graphs,
            IntermediateFileType::Codegen,
            IntermediateFileType::Guards,
            IntermediateFileType::CompilationMetrics,
            IntermediateFileType::Artifacts,
        ]
    }

    fn render(&self, ctx: &ModuleContext) -> (r: Result<ModuleOutput, ModuleError>) {
        self.render_directory(ctx)
    }
}

} // verus!
