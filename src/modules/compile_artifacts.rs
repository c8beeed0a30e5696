//! Per-compilation artifact files: graphs, generated code, generic artifacts,
//! dumped source files and links.
use vstd::prelude::*;

use crate::intermediate::{IntermediateEntry, IntermediateFileType};
use crate::json::{or_default, pretty_json, pretty_json_of, str_field, str_field_or, JsonValue};
use crate::modules::context::{stream_records, ModuleContext};
use crate::modules::{
    add_file, add_unit_file, entries_view, files_view, gather, lemma_gather_all,
    lemma_gather_step, payload_of, payload_text, unit_key, unit_key_of, unit_path,
    DirectoryEntries, DirectoryEntry, Module, ModuleError, ModuleOutput,
};
use crate::text::{
    char_vec, contains_seq, decimal, escape_html, html_escaped, push_text, split_char, split_on,
    str_contains, str_eq, u64_to_decimal,
};

verus! {

/// Whether an artifact name marks a cache decision.
pub open spec fn cache_name(name: Seq<char>) -> bool {
    contains_seq(name, "cache_hit"@) || contains_seq(name, "cache_miss"@) || contains_seq(
        name,
        "cache_bypass"@,
    )
}

/// Whether an artifact name marks a cache decision: such artifacts go to the
/// cache renderer and no other.
pub fn is_cache_artifact(name: &str) -> (r: bool)
    ensures
        r == cache_name(name@),
{
    str_contains(name, "cache_hit") || str_contains(name, "cache_miss") || str_contains(
        name,
        "cache_bypass",
    )
}

/// The file name of a dumped source file: the name as it is.
pub fn sanitize_dump_filename(name: &str) -> (r: String)
    ensures
        r@ == name@,
{
    name.to_owned()
}

/// The file an artifact record becomes: `<name>.json` with pretty-printed
/// content for JSON-encoded artifacts, `<name>.txt` with the payload as it is
/// otherwise.
pub open spec fn artifact_file_name(m: JsonValue, default_name: Seq<char>) -> Seq<char> {
    or_default(str_field(m, "name"@), default_name) + if str_field(m, "encoding"@) == Some(
        "json"@,
    ) {
        ".json"@
    } else {
        ".txt"@
    }
}

pub open spec fn artifact_content(e: IntermediateEntry) -> Seq<char> {
    if str_field(e.metadata, "encoding"@) == Some("json"@) {
        match pretty_json_of(payload_text(e)) {
            Some(p) => p,
            None => payload_text(e),
        }
    } else {
        payload_text(e)
    }
}

/// The file name and content of an artifact record.
pub fn artifact_output(e: &IntermediateEntry, default_name: &str) -> (r: (String, String))
    ensures
        r.0@ == artifact_file_name(e.metadata, default_name@),
        r.1@ == artifact_content(*e),
{
    let mut filename = str_field_or(&e.metadata, "name", default_name);
    let payload = payload_of(e);
    let json = match e.metadata.get_str("encoding") {
        Some(enc) => str_eq(enc, "json"),
        None => false,
    };
    if json {
        filename.append(".json");
        let content = match pretty_json(payload.as_str()) {
            Some(p) => p,
            None => payload,
        };
        (filename, content)
    } else {
        filename.append(".txt");
        (filename, payload)
    }
}

/// The lines of a text as `str::lines` gives them: cut at `\n`, without a
/// trailing `\r`, and without an empty last piece.
pub open spec fn text_lines(s: Seq<char>) -> Seq<Seq<char>> {
    let p = split_on(s, '\n');
    let q = if p.last().len() == 0 {
        p.drop_last()
    } else {
        p
    };
    q.map_values(|l: Seq<char>| if l.len() > 0 && l.last() == '\r' { l.drop_last() } else { l })
}

/// The head of a dumped source page, up to the opening of its listing.
pub const ANCHORED_SOURCE_HEAD: &'static str = "<!DOCTYPE html>\n<html>\n<head>\n<style>\npre { margin: 0; }\n.line { display: block; }\n.line:target { background-color: #ffffcc; }\n.lineno { color: #999; width: 4em; display: inline-block; text-align: right; margin-right: 1em; }\n</style>\n</head>\n<body>\n<pre>";

/// The listing lines, each with its number as anchor.
pub open spec fn anchored_lines(lines: Seq<Seq<char>>) -> Seq<char>
    decreases lines.len(),
{
    if lines.len() == 0 {
        Seq::empty()
    } else {
        let n = lines.len() as nat;
        anchored_lines(lines.drop_last()) + "<span class=\"line\" id=\"L"@ + decimal(n)
            + "\"><span class=\"lineno\">"@ + decimal(n) + "</span>"@ + html_escaped(lines.last())
            + "</span>\n"@
    }
}

pub open spec fn anchored_page(source: Seq<char>) -> Seq<char> {
    ANCHORED_SOURCE_HEAD@ + anchored_lines(text_lines(source)) + "</pre>\n</body>\n</html>"@
}

/// Source code as a page in which every line has an anchor `L<n>`.
pub fn anchor_source(source: &str) -> (r: String)
    ensures
        r@ == anchored_page(source@),
{
    let pieces = split_char(source, '\n');
    let ghost p = split_on(source@, '\n');
    proof {
        crate::text::lemma_split_on_len(source@, '\n');
    }
    let mut count = pieces.len();
    if pieces[count - 1].as_str().unicode_len() == 0 {
        count = count - 1;
    }
    let ghost q = if p.last().len() == 0 {
        p.drop_last()
    } else {
        p
    };
    assert(q.len() == count);
    let ghost lines = text_lines(source@);
    let mut html = ANCHORED_SOURCE_HEAD.to_owned();
    let mut i: usize = 0;
    assert(lines.subrange(0, 0) =~= Seq::<Seq<char>>::empty());
    while i < count
        invariant
            i <= count,
            count <= pieces@.len(),
            count == q.len(),
            pieces@.len() == p.len(),
            forall|j: int| 0 <= j < pieces@.len() ==> #[trigger] pieces@[j]@ == p[j],
            q == (if p.last().len() == 0 {
                p.drop_last()
            } else {
                p
            }),
            lines == text_lines(source@),
            lines == q.map_values(
                |l: Seq<char>| if l.len() > 0 && l.last() == '\r' { l.drop_last() } else { l },
            ),
            html@ == ANCHORED_SOURCE_HEAD@ + anchored_lines(lines.subrange(0, i as int)),
        decreases count - i,
    {
        let piece = pieces[i].as_str();
        let chars = char_vec(piece);
        let len = chars.len();
        let line = if len > 0 && chars[len - 1] == '\r' {
            piece.substring_char(0, len - 1)
        } else {
            piece
        };
        assert(q[i as int] == p[i as int]);
        assert(line@ == lines[i as int]) by {
            if len > 0 && chars@[len - 1] == '\r' {
                assert(line@ =~= piece@.drop_last());
            }
        }
        let number = u64_to_decimal((i + 1) as u64);
        let escaped = escape_html(line);
        push_text(&mut html, "<span class=\"line\" id=\"L");
        push_text(&mut html, number.as_str());
        push_text(&mut html, "\"><span class=\"lineno\">");
        push_text(&mut html, number.as_str());
        push_text(&mut html, "</span>");
        push_text(&mut html, escaped.as_str());
        push_text(&mut html, "</span>\n");
        proof {
            let l = lines.subrange(0, i + 1);
            assert(l.drop_last() =~= lines.subrange(0, i as int));
            assert(l.last() == lines[i as int]);
            assert(l.len() == i + 1);
        }
        i = i + 1;
    }
    push_text(&mut html, "</pre>\n</body>\n</html>");
    assert(lines.subrange(0, count as int) =~= lines);
    html
}

/// The file name of a graph record.
pub open spec fn graph_file_name(e: IntermediateEntry) -> Seq<char> {
    if e.entry_type@ == "optimize_ddp_split_child"@ {
        "optimize_ddp_split_child_"@ + or_default(str_field(e.metadata, "name"@), "unknown"@)
            + ".txt"@
    } else if e.entry_type@ == "graph_dump"@ {
        or_default(str_field(e.metadata, "name"@), "graph_dump"@) + ".txt"@
    } else {
        e.entry_type@ + ".txt"@
    }
}

/// The file of a graph record: its payload under its compile id.
pub open spec fn graph_files(e: IntermediateEntry) -> Seq<(Seq<char>, Seq<char>)> {
    seq![(unit_path(unit_key(e), graph_file_name(e)), payload_text(e))]
}

pub open spec fn graph_entries(e: IntermediateEntry) -> Seq<(Seq<char>, Seq<char>, Seq<char>, Seq<char>)> {
    seq![(unit_key(e), graph_file_name(e), unit_path(unit_key(e), graph_file_name(e)), Seq::empty())]
}

/// What `Path::file_stem` gives for a path.
pub uninterp spec fn file_stem_of(p: Seq<char>) -> Option<Seq<char>>;

/// Relies on `std::path::Path::file_stem` and `OsStr::to_str`: the final file
/// name of a path without its extension.
#[verifier::external_body]
fn path_file_stem(p: &str) -> (r: Option<String>)
    ensures
        r matches Some(s) ==> file_stem_of(p@) == Some(s@),
        r is None ==> file_stem_of(p@) is None,
{
    std::path::Path::new(p).file_stem().and_then(|s| s.to_str()).map(|s| s.to_owned())
}

/// The base name of generated code: after the stem of its source file, when known.
pub open spec fn codegen_base_name(m: JsonValue) -> Seq<char> {
    match str_field(m, "filename"@) {
        Some(f) => match file_stem_of(f) {
            Some(stem) => "inductor_output_code_"@ + stem,
            None => "inductor_output_code"@,
        },
        None => "inductor_output_code"@,
    }
}

pub fn codegen_base_name_of(m: &JsonValue) -> (r: String)
    ensures
        r@ == codegen_base_name(*m),
{
    match m.get_str("filename") {
        Some(f) => match path_file_stem(f) {
            Some(stem) => {
                let mut s = "inductor_output_code_".to_owned();
                s.append(stem.as_str());
                s
            },
            None => "inductor_output_code".to_owned(),
        },
        None => "inductor_output_code".to_owned(),
    }
}

/// The file of a generated-code record; other codegen records give none.
pub open spec fn codegen_files(e: IntermediateEntry) -> Seq<(Seq<char>, Seq<char>)> {
    if e.entry_type@ == "inductor_output_code"@ {
        seq![(unit_path(unit_key(e), codegen_base_name(e.metadata) + ".txt"@), payload_text(e))]
    } else {
        Seq::empty()
    }
}

pub open spec fn codegen_entries(e: IntermediateEntry) -> Seq<(Seq<char>, Seq<char>, Seq<char>, Seq<char>)> {
    if e.entry_type@ == "inductor_output_code"@ {
        let name = codegen_base_name(e.metadata) + ".txt"@;
        seq![(unit_key(e), name, unit_path(unit_key(e), name), Seq::empty())]
    } else {
        Seq::empty()
    }
}

/// The dumped source file of a `dump_file` record.
pub open spec fn dump_name(e: IntermediateEntry) -> Seq<char> {
    or_default(str_field(e.metadata, "name"@), "dump"@) + ".html"@
}

/// The files of an artifacts-category record: a non-cache artifact under its
/// compile id, a dumped source file under `dump_file/`; links give no file.
pub open spec fn artifact_files(e: IntermediateEntry) -> Seq<(Seq<char>, Seq<char>)> {
    if e.entry_type@ == "artifact"@ {
        if cache_name(or_default(str_field(e.metadata, "name"@), "artifact"@)) {
            Seq::empty()
        } else {
            seq![(unit_path(unit_key(e), artifact_file_name(e.metadata, "artifact"@)), artifact_content(e))]
        }
    } else if e.entry_type@ == "dump_file"@ {
        seq![("dump_file/"@ + dump_name(e), anchored_page(payload_text(e)))]
    } else {
        Seq::empty()
    }
}

/// The directory entries of an artifacts-category record; dumped files are
/// listed under `__global__`, links under their compile id.
pub open spec fn artifact_entries(e: IntermediateEntry) -> Seq<(Seq<char>, Seq<char>, Seq<char>, Seq<char>)> {
    if e.entry_type@ == "artifact"@ {
        if cache_name(or_default(str_field(e.metadata, "name"@), "artifact"@)) {
            Seq::empty()
        } else {
            let name = artifact_file_name(e.metadata, "artifact"@);
            seq![(unit_key(e), name, unit_path(unit_key(e), name), Seq::empty())]
        }
    } else if e.entry_type@ == "dump_file"@ {
        seq![("__global__"@, dump_name(e), "dump_file/"@ + dump_name(e), Seq::empty())]
    } else if e.entry_type@ == "link"@ {
        seq![
            (
                unit_key(e),
                or_default(str_field(e.metadata, "name"@), "Link"@),
                or_default(str_field(e.metadata, "url"@), "#"@),
                Seq::empty(),
            ),
        ]
    } else {
        Seq::empty()
    }
}

/// Module that writes the per-compilation artifact files.
pub struct CompileArtifactsModule {
    pub plain_text: bool,
}

impl CompileArtifactsModule {
    pub fn new(plain_text: bool) -> (r: CompileArtifactsModule)
        ensures
            r.plain_text == plain_text,
    {
        CompileArtifactsModule { plain_text }
    }

    /// One text file per graph record.
    pub fn process_graphs(
        &self,
        records: &Vec<IntermediateEntry>,
        files: &mut Vec<(String, String)>,
        entries: &mut DirectoryEntries,
    )
        ensures
            files_view(final(files)@) == files_view(old(files)@) + gather(records@, |e: IntermediateEntry| graph_files(e)),
            entries_view(final(entries).items@) == entries_view(old(entries).items@) + gather(records@, |e: IntermediateEntry| graph_entries(e)),
    {
        let ghost f = |e: IntermediateEntry| graph_files(e);
        let ghost g = |e: IntermediateEntry| graph_entries(e);
        let mut i: usize = 0;
        assert(files_view(old(files)@) + gather(records@.subrange(0, 0), f) =~= files_view(old(files)@));
        assert(entries_view(old(entries).items@) + gather(records@.subrange(0, 0), g) =~= entries_view(old(entries).items@));
        while i < records.len()
            invariant
                i <= records@.len(),
                f == (|e: IntermediateEntry| graph_files(e)),
                g == (|e: IntermediateEntry| graph_entries(e)),
                files_view(files@) == files_view(old(files)@) + gather(records@.subrange(0, i as int), f),
                entries_view(entries.items@) == entries_view(old(entries).items@) + gather(records@.subrange(0, i as int), g),
            decreases records@.len() - i,
        {
            let e = &records[i];
            let key = unit_key_of(e);
            let ty = e.entry_type.as_str();
            let filename = if str_eq(ty, "optimize_ddp_split_child") {
                let mut n = "optimize_ddp_split_child_".to_owned();
                let name = str_field_or(&e.metadata, "name", "unknown");
                n.append(name.as_str());
                n.append(".txt");
                n
            } else if str_eq(ty, "graph_dump") {
                let mut n = str_field_or(&e.metadata, "name", "graph_dump");
                n.append(".txt");
                n
            } else {
                let mut n = ty.to_owned();
                n.append(".txt");
                n
            };
            assert(filename@ == graph_file_name(*e));
            let content = payload_of(e);
            add_unit_file(files, entries, key.as_str(), filename.as_str(), content, "");
            proof {
                lemma_gather_step(records@, f, i as int);
                lemma_gather_step(records@, g, i as int);
                assert(""@ =~= Seq::<char>::empty()) by {
                    reveal_strlit("");
                }
                assert(files_view(files@) =~= files_view(old(files)@) + gather(records@.subrange(0, i + 1), f));
                assert(entries_view(entries.items@) =~= entries_view(old(entries).items@) + gather(records@.subrange(0, i + 1), g));
            }
            i = i + 1;
        }
        proof {
            lemma_gather_all(records@, f);
            lemma_gather_all(records@, g);
        }
    }

    /// One text file per generated-code record.
    pub fn process_codegen(
        &self,
        records: &Vec<IntermediateEntry>,
        files: &mut Vec<(String, String)>,
        entries: &mut DirectoryEntries,
    )
        ensures
            files_view(final(files)@) == files_view(old(files)@) + gather(records@, |e: IntermediateEntry| codegen_files(e)),
            entries_view(final(entries).items@) == entries_view(old(entries).items@) + gather(records@, |e: IntermediateEntry| codegen_entries(e)),
    {
        let ghost f = |e: IntermediateEntry| codegen_files(e);
        let ghost g = |e: IntermediateEntry| codegen_entries(e);
        let mut i: usize = 0;
        assert(files_view(old(files)@) + gather(records@.subrange(0, 0), f) =~= files_view(old(files)@));
        assert(entries_view(old(entries).items@) + gather(records@.subrange(0, 0), g) =~= entries_view(old(entries).items@));
        while i < records.len()
            invariant
                i <= records@.len(),
                f == (|e: IntermediateEntry| codegen_files(e)),
                g == (|e: IntermediateEntry| codegen_entries(e)),
                files_view(files@) == files_view(old(files)@) + gather(records@.subrange(0, i as int), f),
                entries_view(entries.items@) == entries_view(old(entries).items@) + gather(records@.subrange(0, i as int), g),
            decreases records@.len() - i,
        {
            let e = &records[i];
            proof {
                lemma_gather_step(records@, f, i as int);
                lemma_gather_step(records@, g, i as int);
            }
            if str_eq(e.entry_type.as_str(), "inductor_output_code") {
                let key = unit_key_of(e);
                let mut filename = codegen_base_name_of(&e.metadata);
                filename.append(".txt");
                let content = payload_of(e);
                add_unit_file(files, entries, key.as_str(), filename.as_str(), content, "");
                proof {
                    assert(""@ =~= Seq::<char>::empty()) by {
                        reveal_strlit("");
                    }
                }
            }
            assert(files_view(files@) =~= files_view(old(files)@) + gather(records@.subrange(0, i + 1), f));
            assert(entries_view(entries.items@) =~= entries_view(old(entries).items@) + gather(records@.subrange(0, i + 1), g));
            i = i + 1;
        }
        proof {
            lemma_gather_all(records@, f);
            lemma_gather_all(records@, g);
        }
    }

    /// Generic artifacts, dumped source files and links; cache artifacts are
    /// left to the cache renderer.
    pub fn process_artifacts(
        &self,
        records: &Vec<IntermediateEntry>,
        files: &mut Vec<(String, String)>,
        entries: &mut DirectoryEntries,
    )
        ensures
            files_view(final(files)@) == files_view(old(files)@) + gather(records@, |e: IntermediateEntry| artifact_files(e)),
            entries_view(final(entries).items@) == entries_view(old(entries).items@) + gather(records@, |e: IntermediateEntry| artifact_entries(e)),
    {
        let ghost f = |e: IntermediateEntry| artifact_files(e);
        let ghost g = |e: IntermediateEntry| artifact_entries(e);
        let mut i: usize = 0;
        assert(files_view(old(files)@) + gather(records@.subrange(0, 0), f) =~= files_view(old(files)@));
        assert(entries_view(old(entries).items@) + gather(records@.subrange(0, 0), g) =~= entries_view(old(entries).items@));
        while i < records.len()
            invariant
                i <= records@.len(),
                f == (|e: IntermediateEntry| artifact_files(e)),
                g == (|e: IntermediateEntry| artifact_entries(e)),
                files_view(files@) == files_view(old(files)@) + gather(records@.subrange(0, i as int), f),
                entries_view(entries.items@) == entries_view(old(entries).items@) + gather(records@.subrange(0, i as int), g),
            decreases records@.len() - i,
        {
            let e = &records[i];
            proof {
                lemma_gather_step(records@, f, i as int);
                lemma_gather_step(records@, g, i as int);
                assert(""@ =~= Seq::<char>::empty()) by {
                    reveal_strlit("");
                }
            }
            let ty = e.entry_type.as_str();
            if str_eq(ty, "artifact") {
                let name = str_field_or(&e.metadata, "name", "artifact");
                if !is_cache_artifact(name.as_str()) {
                    let key = unit_key_of(e);
                    let (filename, content) = artifact_output(e, "artifact");
                    add_unit_file(files, entries, key.as_str(), filename.as_str(), content, "");
                }
            } else if str_eq(ty, "dump_file") {
                let name = str_field_or(&e.metadata, "name", "dump");
                let mut filename = sanitize_dump_filename(name.as_str());
                filename.append(".html");
                let payload = payload_of(e);
                let content = anchor_source(payload.as_str());
                let mut path = "dump_file/".to_owned();
                path.append(filename.as_str());
                add_file(files, entries, path, content, "__global__", filename.as_str());
            } else if str_eq(ty, "link") {
                let key = unit_key_of(e);
                let name = str_field_or(&e.metadata, "name", "Link");
                let url = str_field_or(&e.metadata, "url", "#");
                let ghost before = entries.items@;
                entries.push(key.as_str(), DirectoryEntry::new(name.as_str(), url.as_str()));
                assert(entries_view(entries.items@) =~= entries_view(before).push(
                    (key@, name@, url@, Seq::empty()),
                ));
            }
            assert(files_view(files@) =~= files_view(old(files)@) + gather(records@.subrange(0, i + 1), f));
            assert(entries_view(entries.items@) =~= entries_view(old(entries).items@) + gather(records@.subrange(0, i + 1), g));
            i = i + 1;
        }
        proof {
            lemma_gather_all(records@, f);
            lemma_gather_all(records@, g);
        }
    }

    /// The files of the graphs, codegen and artifacts categories.
    pub fn render_artifacts(&self, ctx: &ModuleContext) -> (r: Result<ModuleOutput, ModuleError>)
        requires
            ctx.wf(),
        ensures
            r is Err <==> (stream_records(*ctx, IntermediateFileType::Graphs) is None
                || stream_records(*ctx, IntermediateFileType::Codegen) is None
                || stream_records(*ctx, IntermediateFileType::Artifacts) is None),
            r matches Ok(o) ==> files_view(o.files@) == gather(
                stream_records(*ctx, IntermediateFileType::Graphs).unwrap(),
                |e: IntermediateEntry| graph_files(e),
            ) + gather(
                stream_records(*ctx, IntermediateFileType::Codegen).unwrap(),
                |e: IntermediateEntry| codegen_files(e),
            ) + gather(
                stream_records(*ctx, IntermediateFileType::Artifacts).unwrap(),
                |e: IntermediateEntry| artifact_files(e),
            ),
            r matches Ok(o) ==> entries_view(o.directory_entries.items@) == gather(
                stream_records(*ctx, IntermediateFileType::Graphs).unwrap(),
                |e: IntermediateEntry| graph_entries(e),
            ) + gather(
                stream_records(*ctx, IntermediateFileType::Codegen).unwrap(),
                |e: IntermediateEntry| codegen_entries(e),
            ) + gather(
                stream_records(*ctx, IntermediateFileType::Artifacts).unwrap(),
                |e: IntermediateEntry| artifact_entries(e),
            ),
            r matches Ok(o) ==> o.index_contribution is None,
    {
        let graphs = ctx.read_jsonl(IntermediateFileType::Graphs)?;
        let codegen = ctx.read_jsonl(IntermediateFileType::Codegen)?;
        let artifacts = ctx.read_jsonl(IntermediateFileType::Artifacts)?;
        let mut files: Vec<(String, String)> = Vec::new();
        let mut entries = DirectoryEntries::new();
        assert(files_view(files@) =~= Seq::<(Seq<char>, Seq<char>)>::empty());
        assert(entries_view(entries.items@) =~= Seq::<(Seq<char>, Seq<char>, Seq<char>, Seq<char>)>::empty());
        self.process_graphs(graphs, &mut files, &mut entries);
        self.process_codegen(codegen, &mut files, &mut entries);
        self.process_artifacts(artifacts, &mut files, &mut entries);
        Ok(ModuleOutput { files, directory_entries: entries, index_contribution: None })
    }
}

impl Module for CompileArtifactsModule {
    open spec fn id_is(&self, id: Seq<char>) -> bool {
        id == "compile_artifacts"@
    }

    open spec fn output_ok(&self, ctx: ModuleContext, r: Result<ModuleOutput, ModuleError>) -> bool {
        &&& (r is Err <==> (stream_records(ctx, IntermediateFileType::Graphs) is None
                || stream_records(ctx, IntermediateFileType::Codegen) is None
                || stream_records(ctx, IntermediateFileType::Artifacts) is None))
        &&& (r matches Ok(o) ==> files_view(o.files@) == gather(
                stream_records(ctx, IntermediateFileType::Graphs).unwrap(),
                |e: IntermediateEntry| graph_files(e),
            ) + gather(
                stream_records(ctx, IntermediateFileType::Codegen).unwrap(),
                |e: IntermediateEntry| codegen_files(e),
            ) + gather(
                stream_records(ctx, IntermediateFileType::Artifacts).unwrap(),
                |e: IntermediateEntry| artifact_files(e),
            ))
        &&& (r matches Ok(o) ==> entries_view(o.directory_entries.items@) == gather(
                stream_records(ctx, IntermediateFileType::Graphs).unwrap(),
                |e: IntermediateEntry| graph_entries(e),
            ) + gather(
                stream_records(ctx, IntermediateFileType::Codegen).unwrap(),
                |e: IntermediateEntry| codegen_entries(e),
            ) + gather(
                stream_records(ctx, IntermediateFileType::Artifacts).unwrap(),
                |e: IntermediateEntry| artifact_entries(e),
            ))
        &&& (r matches Ok(o) ==> o.index_contribution is None)
    }

    fn name(&self) -> &'static str {
        "Compile Artifacts"
    }

    fn id(&self) -> (r: &'static str) {
        "compile_artifacts"
    }

    fn subscriptions(&self) -> Vec<IntermediateFileType> {
        vec![
            IntermediateFileType::Graphs,
            IntermediateFileType::Codegen,
            IntermediateFileType::Artifacts,
        ]
    }

    fn render(&self, ctx: &ModuleContext) -> (r: Result<ModuleOutput, ModuleError>) {
        self.render_artifacts(ctx)
    }
}

} // verus!
