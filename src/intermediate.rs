//! The category streams of the intermediate set: which category each event
//! kind goes to, the uniform record every stream is made of, and the tally
//! that becomes the manifest once the write phase is over.
use vstd::prelude::*;

use crate::compile_id::{encode_compile_id, format_compile_id, CompileId};
use crate::json::JsonValue;
use crate::text::{lemma_seq_less_total, lemma_seq_less_transitive, seq_less, str_eq, str_less};

verus! {

/// Categories of intermediate files.
#[derive(Clone, Copy, Debug, PartialEq, Eq, Structural, Hash)]
pub enum IntermediateFileType {
    Graphs,
    Codegen,
    Guards,
    CompilationMetrics,
    ChromiumEvents,
    Artifacts,
    TensorMetadata,
    Export,
}

/// The file name of each category's stream.
pub open spec fn file_name_of(t: IntermediateFileType) -> Seq<char> {
    match t {
        IntermediateFileType::Graphs => "graphs.jsonl"@,
        IntermediateFileType::Codegen => "codegen.jsonl"@,
        IntermediateFileType::Guards => "guards.jsonl"@,
        IntermediateFileType::CompilationMetrics => "compilation_metrics.jsonl"@,
        IntermediateFileType::ChromiumEvents => "chromium_events.json"@,
        IntermediateFileType::Artifacts => "artifacts.jsonl"@,
        IntermediateFileType::TensorMetadata => "tensor_metadata.jsonl"@,
        IntermediateFileType::Export => "export.jsonl"@,
    }
}

/// Every category, in the order the manifest lists their files.
pub open spec fn all_categories() -> Seq<IntermediateFileType> {
    seq![
        IntermediateFileType::Graphs,
        IntermediateFileType::Codegen,
        IntermediateFileType::Guards,
        IntermediateFileType::CompilationMetrics,
        IntermediateFileType::ChromiumEvents,
        IntermediateFileType::Artifacts,
        IntermediateFileType::TensorMetadata,
        IntermediateFileType::Export,
    ]
}

/// The position of a category in `all_categories`.
pub open spec fn category_index(t: IntermediateFileType) -> int {
    match t {
        IntermediateFileType::Graphs => 0,
        IntermediateFileType::Codegen => 1,
        IntermediateFileType::Guards => 2,
        IntermediateFileType::CompilationMetrics => 3,
        IntermediateFileType::ChromiumEvents => 4,
        IntermediateFileType::Artifacts => 5,
        IntermediateFileType::TensorMetadata => 6,
        IntermediateFileType::Export => 7,
    }
}

impl IntermediateFileType {
    pub fn filename(&self) -> (r: &'static str)
        ensures
            r@ == file_name_of(*self),
    {
        match self {
            IntermediateFileType::Graphs => "graphs.jsonl",
            IntermediateFileType::Codegen => "codegen.jsonl",
            IntermediateFileType::Guards => "guards.jsonl",
            IntermediateFileType::CompilationMetrics => "compilation_metrics.jsonl",
            IntermediateFileType::ChromiumEvents => "chromium_events.json",
            IntermediateFileType::Artifacts => "artifacts.jsonl",
            IntermediateFileType::TensorMetadata => "tensor_metadata.jsonl",
            IntermediateFileType::Export => "export.jsonl",
        }
    }

    pub fn all() -> (r: Vec<IntermediateFileType>)
        ensures
            r@ == all_categories(),
    {
        let r = vec![
            IntermediateFileType::Graphs,
            IntermediateFileType::Codegen,
            IntermediateFileType::Guards,
            IntermediateFileType::CompilationMetrics,
            IntermediateFileType::ChromiumEvents,
            IntermediateFileType::Artifacts,
            IntermediateFileType::TensorMetadata,
            IntermediateFileType::Export,
        ];
        assert(r@ =~= all_categories());
        r
    }

    pub fn index(&self) -> (r: usize)
        ensures
            r as int == category_index(*self),
            r < 8,
    {
        match self {
            IntermediateFileType::Graphs => 0,
            IntermediateFileType::Codegen => 1,
            IntermediateFileType::Guards => 2,
            IntermediateFileType::CompilationMetrics => 3,
            IntermediateFileType::ChromiumEvents => 4,
            IntermediateFileType::Artifacts => 5,
            IntermediateFileType::TensorMetadata => 6,
            IntermediateFileType::Export => 7,
        }
    }
}

/// The category that events tagged `t` are written to; `None` for tags that
/// are internal (`str`) or unknown.
pub open spec fn category_of(t: Seq<char>) -> Option<IntermediateFileType> {
    if t == "dynamo_output_graph"@ || t == "optimize_ddp_split_graph"@ || t == "optimize_ddp_split_child"@ || t == "compiled_autograd_graph"@ || t == "aot_forward_graph"@ || t == "aot_backward_graph"@ || t == "aot_inference_graph"@ || t == "aot_joint_graph"@ || t == "inductor_pre_grad_graph"@ || t == "inductor_post_grad_graph"@ || t == "graph_dump"@ {
        Some(IntermediateFileType::Graphs)
    } else if t == "inductor_output_code"@ || t == "dynamo_cpp_guards_str"@ {
        Some(IntermediateFileType::Codegen)
    } else if t == "dynamo_guards"@ || t == "symbolic_shape_specialization"@ || t == "guard_added_fast"@ || t == "propagate_real_tensors_provenance"@ || t == "guard_added"@ || t == "create_unbacked_symbol"@ || t == "expression_created"@ {
        Some(IntermediateFileType::Guards)
    } else if t == "compilation_metrics"@ || t == "bwd_compilation_metrics"@ || t == "aot_autograd_backward_compilation_metrics"@ || t == "dynamo_start"@ || t == "stack"@ {
        Some(IntermediateFileType::CompilationMetrics)
    } else if t == "chromium_event"@ {
        Some(IntermediateFileType::ChromiumEvents)
    } else if t == "artifact"@ || t == "dump_file"@ || t == "link"@ {
        Some(IntermediateFileType::Artifacts)
    } else if t == "describe_tensor"@ || t == "describe_storage"@ || t == "describe_source"@ {
        Some(IntermediateFileType::TensorMetadata)
    } else if t == "missing_fake_kernel"@ || t == "mismatched_fake_kernel"@ || t == "exported_program"@ {
        Some(IntermediateFileType::Export)
    } else {
        None
    }
}

/// Determines which intermediate file an envelope type belongs to.
pub fn envelope_type_to_file(envelope_type: &str) -> (r: Option<IntermediateFileType>)
    ensures
        r == category_of(envelope_type@),
{
    if str_eq(envelope_type, "dynamo_output_graph") || str_eq(envelope_type, "optimize_ddp_split_graph") || str_eq(envelope_type, "optimize_ddp_split_child") || str_eq(envelope_type, "compiled_autograd_graph") || str_eq(envelope_type, "aot_forward_graph") || str_eq(envelope_type, "aot_backward_graph") || str_eq(envelope_type, "aot_inference_graph") || str_eq(envelope_type, "aot_joint_graph") || str_eq(envelope_type, "inductor_pre_grad_graph") || str_eq(envelope_type, "inductor_post_grad_graph") || str_eq(envelope_type, "graph_dump") {
        return Some(IntermediateFileType::Graphs);
    }
    if str_eq(envelope_type, "inductor_output_code") || str_eq(envelope_type, "dynamo_cpp_guards_str") {
        return Some(IntermediateFileType::Codegen);
    }
    if str_eq(envelope_type, "dynamo_guards") || str_eq(envelope_type, "symbolic_shape_specialization") || str_eq(envelope_type, "guard_added_fast") || str_eq(envelope_type, "propagate_real_tensors_provenance") || str_eq(envelope_type, "guard_added") || str_eq(envelope_type, "create_unbacked_symbol") || str_eq(envelope_type, "expression_created") {
        return Some(IntermediateFileType::Guards);
    }
    if str_eq(envelope_type, "compilation_metrics") || str_eq(envelope_type, "bwd_compilation_metrics") || str_eq(envelope_type, "aot_autograd_backward_compilation_metrics") || str_eq(envelope_type, "dynamo_start") || str_eq(envelope_type, "stack") {
        return Some(IntermediateFileType::CompilationMetrics);
    }
    if str_eq(envelope_type, "chromium_event") {
        return Some(IntermediateFileType::ChromiumEvents);
    }
    if str_eq(envelope_type, "artifact") || str_eq(envelope_type, "dump_file") || str_eq(envelope_type, "link") {
        return Some(IntermediateFileType::Artifacts);
    }
    if str_eq(envelope_type, "describe_tensor") || str_eq(envelope_type, "describe_storage") || str_eq(envelope_type, "describe_source") {
        return Some(IntermediateFileType::TensorMetadata);
    }
    if str_eq(envelope_type, "missing_fake_kernel") || str_eq(envelope_type, "mismatched_fake_kernel") || str_eq(envelope_type, "exported_program") {
        return Some(IntermediateFileType::Export);
    }
    None
}

/// The kind of one event of the log; the payload of each kind is carried as
/// the record's metadata and inline payload.
#[derive(Clone, Copy, Debug, PartialEq, Eq, Structural)]
pub enum EventKind {
    DynamoOutputGraph,
    CompilationMetrics,
    DynamoGuards,
    InductorOutputCode,
    ChromiumEvent,
    DynamoStart,
    AotForwardGraph,
    AotBackwardGraph,
    AotJointGraph,
    AotInferenceGraph,
    InductorPreGradGraph,
    InductorPostGradGraph,
    OptimizeDdpSplitGraph,
    OptimizeDdpSplitChild,
    CompiledAutogradGraph,
    GraphDump,
    DynamoCppGuardsStr,
    BwdCompilationMetrics,
    AotAutogradBackwardCompilationMetrics,
    SymbolicShapeSpecialization,
    GuardAddedFast,
    PropagateRealTensorsProvenance,
    GuardAdded,
    CreateUnbackedSymbol,
    ExpressionCreated,
    Artifact,
    DumpFile,
    Link,
    DescribeTensor,
    DescribeStorage,
    DescribeSource,
    MissingFakeKernel,
    MismatchedFakeKernel,
    ExportedProgram,
    Str,
    Stack,
    /// An event that carries none of the known payloads.
    Unknown,
}

/// The tag written for events of kind `k`.
pub open spec fn event_tag(k: EventKind) -> Option<Seq<char>> {
    match k {
        EventKind::DynamoOutputGraph => Some("dynamo_output_graph"@),
        EventKind::CompilationMetrics => Some("compilation_metrics"@),
        EventKind::DynamoGuards => Some("dynamo_guards"@),
        EventKind::InductorOutputCode => Some("inductor_output_code"@),
        EventKind::ChromiumEvent => Some("chromium_event"@),
        EventKind::DynamoStart => Some("dynamo_start"@),
        EventKind::AotForwardGraph => Some("aot_forward_graph"@),
        EventKind::AotBackwardGraph => Some("aot_backward_graph"@),
        EventKind::AotJointGraph => Some("aot_joint_graph"@),
        EventKind::AotInferenceGraph => Some("aot_inference_graph"@),
        EventKind::InductorPreGradGraph => Some("inductor_pre_grad_graph"@),
        EventKind::InductorPostGradGraph => Some("inductor_post_grad_graph"@),
        EventKind::OptimizeDdpSplitGraph => Some("optimize_ddp_split_graph"@),
        EventKind::OptimizeDdpSplitChild => Some("optimize_ddp_split_child"@),
        EventKind::CompiledAutogradGraph => Some("compiled_autograd_graph"@),
        EventKind::GraphDump => Some("graph_dump"@),
        EventKind::DynamoCppGuardsStr => Some("dynamo_cpp_guards_str"@),
        EventKind::BwdCompilationMetrics => Some("bwd_compilation_metrics"@),
        EventKind::AotAutogradBackwardCompilationMetrics => Some("aot_autograd_backward_compilation_metrics"@),
        EventKind::SymbolicShapeSpecialization => Some("symbolic_shape_specialization"@),
        EventKind::GuardAddedFast => Some("guard_added_fast"@),
        EventKind::PropagateRealTensorsProvenance => Some("propagate_real_tensors_provenance"@),
        EventKind::GuardAdded => Some("guard_added"@),
        EventKind::CreateUnbackedSymbol => Some("create_unbacked_symbol"@),
        EventKind::ExpressionCreated => Some("expression_created"@),
        EventKind::Artifact => Some("artifact"@),
        EventKind::DumpFile => Some("dump_file"@),
        EventKind::Link => Some("link"@),
        EventKind::DescribeTensor => Some("describe_tensor"@),
        EventKind::DescribeStorage => Some("describe_storage"@),
        EventKind::DescribeSource => Some("describe_source"@),
        EventKind::MissingFakeKernel => Some("missing_fake_kernel"@),
        EventKind::MismatchedFakeKernel => Some("mismatched_fake_kernel"@),
        EventKind::ExportedProgram => Some("exported_program"@),
        EventKind::Str => Some("str"@),
        EventKind::Stack => Some("stack"@),
        EventKind::Unknown => None,
    }
}

/// The event tag of an envelope, or `None` for an envelope that carries no
/// known payload.
pub fn detect_envelope_type(e: &Envelope) -> (r: Option<&'static str>)
    ensures
        r.is_some() == event_tag(e.kind).is_some(),
        r.is_some() ==> r.unwrap()@ == event_tag(e.kind).unwrap(),
{
    match e.kind {
        EventKind::DynamoOutputGraph => Some("dynamo_output_graph"),
        EventKind::CompilationMetrics => Some("compilation_metrics"),
        EventKind::DynamoGuards => Some("dynamo_guards"),
        EventKind::InductorOutputCode => Some("inductor_output_code"),
        EventKind::ChromiumEvent => Some("chromium_event"),
        EventKind::DynamoStart => Some("dynamo_start"),
        EventKind::AotForwardGraph => Some("aot_forward_graph"),
        EventKind::AotBackwardGraph => Some("aot_backward_graph"),
        EventKind::AotJointGraph => Some("aot_joint_graph"),
        EventKind::AotInferenceGraph => Some("aot_inference_graph"),
        EventKind::InductorPreGradGraph => Some("inductor_pre_grad_graph"),
        EventKind::InductorPostGradGraph => Some("inductor_post_grad_graph"),
        EventKind::OptimizeDdpSplitGraph => Some("optimize_ddp_split_graph"),
        EventKind::OptimizeDdpSplitChild => Some("optimize_ddp_split_child"),
        EventKind::CompiledAutogradGraph => Some("compiled_autograd_graph"),
        EventKind::GraphDump => Some("graph_dump"),
        EventKind::DynamoCppGuardsStr => Some("dynamo_cpp_guards_str"),
        EventKind::BwdCompilationMetrics => Some("bwd_compilation_metrics"),
        EventKind::AotAutogradBackwardCompilationMetrics => Some("aot_autograd_backward_compilation_metrics"),
        EventKind::SymbolicShapeSpecialization => Some("symbolic_shape_specialization"),
        EventKind::GuardAddedFast => Some("guard_added_fast"),
        EventKind::PropagateRealTensorsProvenance => Some("propagate_real_tensors_provenance"),
        EventKind::GuardAdded => Some("guard_added"),
        EventKind::CreateUnbackedSymbol => Some("create_unbacked_symbol"),
        EventKind::ExpressionCreated => Some("expression_created"),
        EventKind::Artifact => Some("artifact"),
        EventKind::DumpFile => Some("dump_file"),
        EventKind::Link => Some("link"),
        EventKind::DescribeTensor => Some("describe_tensor"),
        EventKind::DescribeStorage => Some("describe_storage"),
        EventKind::DescribeSource => Some("describe_source"),
        EventKind::MissingFakeKernel => Some("missing_fake_kernel"),
        EventKind::MismatchedFakeKernel => Some("mismatched_fake_kernel"),
        EventKind::ExportedProgram => Some("exported_program"),
        EventKind::Str => Some("str"),
        EventKind::Stack => Some("stack"),
        EventKind::Unknown => None,
    }
}

/// The kind whose tag is `t`, if any.
pub open spec fn kind_of_tag(t: Seq<char>) -> Option<EventKind> {
    if t == "dynamo_output_graph"@ {
        Some(EventKind::DynamoOutputGraph)
    } else if t == "compilation_metrics"@ {
        Some(EventKind::CompilationMetrics)
    } else if t == "dynamo_guards"@ {
        Some(EventKind::DynamoGuards)
    } else if t == "inductor_output_code"@ {
        Some(EventKind::InductorOutputCode)
    } else if t == "chromium_event"@ {
        Some(EventKind::ChromiumEvent)
    } else if t == "dynamo_start"@ {
        Some(EventKind::DynamoStart)
    } else if t == "aot_forward_graph"@ {
        Some(EventKind::AotForwardGraph)
    } else if t == "aot_backward_graph"@ {
        Some(EventKind::AotBackwardGraph)
    } else if t == "aot_joint_graph"@ {
        Some(EventKind::AotJointGraph)
    } else if t == "aot_inference_graph"@ {
        Some(EventKind::AotInferenceGraph)
    } else if t == "inductor_pre_grad_graph"@ {
        Some(EventKind::InductorPreGradGraph)
    } else if t == "inductor_post_grad_graph"@ {
        Some(EventKind::InductorPostGradGraph)
    } else if t == "optimize_ddp_split_graph"@ {
        Some(EventKind::OptimizeDdpSplitGraph)
    } else if t == "optimize_ddp_split_child"@ {
        Some(EventKind::OptimizeDdpSplitChild)
    } else if t == "compiled_autograd_graph"@ {
        Some(EventKind::CompiledAutogradGraph)
    } else if t == "graph_dump"@ {
        Some(EventKind::GraphDump)
    } else if t == "dynamo_cpp_guards_str"@ {
        Some(EventKind::DynamoCppGuardsStr)
    } else if t == "bwd_compilation_metrics"@ {
        Some(EventKind::BwdCompilationMetrics)
    } else if t == "aot_autograd_backward_compilation_metrics"@ {
        Some(EventKind::AotAutogradBackwardCompilationMetrics)
    } else if t == "symbolic_shape_specialization"@ {
        Some(EventKind::SymbolicShapeSpecialization)
    } else if t == "guard_added_fast"@ {
        Some(EventKind::GuardAddedFast)
    } else if t == "propagate_real_tensors_provenance"@ {
        Some(EventKind::PropagateRealTensorsProvenance)
    } else if t == "guard_added"@ {
        Some(EventKind::GuardAdded)
    } else if t == "create_unbacked_symbol"@ {
        Some(EventKind::CreateUnbackedSymbol)
    } else if t == "expression_created"@ {
        Some(EventKind::ExpressionCreated)
    } else if t == "artifact"@ {
        Some(EventKind::Artifact)
    } else if t == "dump_file"@ {
        Some(EventKind::DumpFile)
    } else if t == "link"@ {
        Some(EventKind::Link)
    } else if t == "describe_tensor"@ {
        Some(EventKind::DescribeTensor)
    } else if t == "describe_storage"@ {
        Some(EventKind::DescribeStorage)
    } else if t == "describe_source"@ {
        Some(EventKind::DescribeSource)
    } else if t == "missing_fake_kernel"@ {
        Some(EventKind::MissingFakeKernel)
    } else if t == "mismatched_fake_kernel"@ {
        Some(EventKind::MismatchedFakeKernel)
    } else if t == "exported_program"@ {
        Some(EventKind::ExportedProgram)
    } else if t == "str"@ {
        Some(EventKind::Str)
    } else if t == "stack"@ {
        Some(EventKind::Stack)
    } else {
        None
    }
}

/// Every tag of an event kind goes to exactly one category, but the internal
/// `str` tag, which is dropped; a tag of no event kind is dropped too.
pub proof fn lemma_classifier_partition(t: Seq<char>)
    ensures
        category_of(t) is Some ==> kind_of_tag(t) is Some,
        kind_of_tag(t) is Some && category_of(t) is None ==> t == "str"@,
        kind_of_tag(t) is None ==> category_of(t) is None,
        kind_of_tag(t) matches Some(k) ==> event_tag(k) == Some(t),
{
}

/// One raw event of the log: its kind, where it was emitted, and the payload
/// carried as a metadata value plus an optional large inline string.
pub struct Envelope {
    pub kind: EventKind,
    pub compile_id: Option<CompileId>,
    pub rank: Option<u32>,
    pub timestamp: String,
    pub thread: u64,
    pub pathname: String,
    pub lineno: u64,
    pub metadata: JsonValue,
    pub payload: Option<String>,
    /// The call stack that came with the event, if any.
    pub stack: Option<JsonValue>,
}

/// The members of `ms` other than `key`, in order.
pub open spec fn without_member(ms: Seq<(String, JsonValue)>, key: Seq<char>) -> Seq<(String, JsonValue)>
    decreases ms.len(),
{
    if ms.len() == 0 {
        Seq::empty()
    } else {
        let rest = without_member(ms.drop_last(), key);
        if ms.last().0@ == key {
            rest
        } else {
            rest.push(ms.last())
        }
    }
}

/// The metadata of a compilation start: its members with the event's stack
/// as the `stack` member, when the metadata is an object and a stack came;
/// the metadata as it is otherwise.
pub open spec fn start_metadata_ok(metadata: JsonValue, stack: Option<JsonValue>, r: JsonValue) -> bool {
    match (metadata, stack) {
        (JsonValue::Object(ms), Some(v)) => r matches JsonValue::Object(rs) && rs@.len() > 0
            && rs@.drop_last() == without_member(ms@, "stack"@) && rs@.last().0@ == "stack"@
            && rs@.last().1 == v,
        _ => r == metadata,
    }
}

/// Sets the `stack` member of a compilation start's metadata.
pub fn start_metadata(metadata: JsonValue, stack: Option<JsonValue>) -> (r: JsonValue)
    ensures
        start_metadata_ok(metadata, stack, r),
{
    match (metadata, stack) {
        (JsonValue::Object(ms), Some(v)) => {
            let ghost all = ms@;
            let mut kept: Vec<(String, JsonValue)> = Vec::new();
            let mut rest = ms;
            assert(rest@ =~= all.subrange(0, all.len() as int));
            let total = rest.len();
            let mut i: usize = 0;
            while rest.len() > 0
                invariant
                    total == all.len(),
                    i + rest@.len() == all.len(),
                    rest@ =~= all.subrange(i as int, all.len() as int),
                    kept@ == without_member(all.subrange(0, i as int), "stack"@),
                decreases rest@.len(),
            {
                let m = rest.remove(0);
                proof {
                    assert(m == all[i as int]);
                    assert(all.subrange(0, i + 1).drop_last() =~= all.subrange(0, i as int));
                    assert(all.subrange(0, i + 1).last() == all[i as int]);
                }
                if !str_eq(m.0.as_str(), "stack") {
                    kept.push(m);
                }
                i = i + 1;
            }
            assert(all.subrange(0, i as int) =~= all);
            let ghost before = kept@;
            let ghost value = v;
            kept.push(("stack".to_owned(), v));
            assert(kept@.drop_last() =~= before);
            JsonValue::Object(kept)
        },
        (metadata, stack) => metadata,
    }
}

/// An entry in an intermediate JSONL file.
pub struct IntermediateEntry {
    /// The envelope type name.
    pub entry_type: String,
    /// Compile id as a string (e.g. "0_0_0"), or `None`.
    pub compile_id: Option<String>,
    /// Rank number for distributed training.
    pub rank: Option<u32>,
    /// ISO-8601 timestamp.
    pub timestamp: String,
    pub thread: u64,
    /// Source file pathname.
    pub pathname: String,
    /// Line number in source.
    pub lineno: u64,
    /// Type-specific metadata.
    pub metadata: JsonValue,
    /// Inlined payload content, if any.
    pub payload: Option<String>,
}

/// The compile id text of a record, as the manifest collects it.
pub open spec fn entry_compile_id(e: IntermediateEntry) -> Option<Seq<char>> {
    match e.compile_id {
        Some(s) => Some(s@),
        None => None,
    }
}

/// Turns an envelope into the record of its category: `None` when the
/// envelope's kind is internal or unknown.
pub fn normalize_envelope(e: Envelope) -> (r: Option<(IntermediateEntry, IntermediateFileType)>)
    ensures
        event_tag(e.kind) is None ==> r is None,
        event_tag(e.kind) matches Some(t) ==> (r is Some <==> category_of(t) is Some),
        r matches Some((entry, ft)) ==> {
            &&& Some(ft) == category_of(event_tag(e.kind).unwrap())
            &&& entry.entry_type@ == event_tag(e.kind).unwrap()
            &&& entry_compile_id(entry) == (match e.compile_id {
                Some(c) => Some(encode_compile_id(c)),
                None => None,
            })
            &&& entry.rank == e.rank
            &&& entry.timestamp == e.timestamp
            &&& entry.thread == e.thread
            &&& entry.pathname == e.pathname
            &&& entry.lineno == e.lineno
            &&& (if e.kind == EventKind::DynamoStart {
                start_metadata_ok(e.metadata, e.stack, entry.metadata)
            } else {
                entry.metadata == e.metadata
            })
            &&& entry.payload == e.payload
        },
{
    let tag = match detect_envelope_type(&e) {
        Some(t) => t,
        None => return None,
    };
    let ft = match envelope_type_to_file(tag) {
        Some(ft) => ft,
        None => return None,
    };
    let compile_id = format_compile_id(&e.compile_id);
    let metadata = if e.kind == EventKind::DynamoStart {
        start_metadata(e.metadata, e.stack)
    } else {
        e.metadata
    };
    let entry = IntermediateEntry {
        entry_type: tag.to_owned(),
        compile_id,
        rank: e.rank,
        timestamp: e.timestamp,
        thread: e.thread,
        pathname: e.pathname,
        lineno: e.lineno,
        metadata,
        payload: e.payload,
    };
    Some((entry, ft))
}


/// Manifest describing a completed intermediate set.
pub struct IntermediateManifest {
    pub version: String,
    pub generated_at: String,
    pub source_file: String,
    pub source_file_hash: Option<String>,
    pub total_envelopes: u64,
    /// Records per envelope type, in order of first appearance.
    pub envelope_counts: Vec<(String, u64)>,
    /// Every compile id seen, sorted.
    pub compile_ids: Vec<String>,
    pub string_table_entries: u64,
    pub parse_mode: String,
    /// Every rank seen, sorted.
    pub ranks: Vec<u32>,
    /// The category files that hold records.
    pub files: Vec<String>,
}

/// The sum of the counts.
pub open spec fn sum_counts(counts: Seq<(String, u64)>) -> nat
    decreases counts.len(),
{
    if counts.len() == 0 {
        0
    } else {
        sum_counts(counts.drop_last()) + counts.last().1 as nat
    }
}

/// The texts of a list of strings.
pub open spec fn texts(v: Seq<String>) -> Seq<Seq<char>> {
    v.map_values(|s: String| s@)
}

pub open spec fn sorted_texts(v: Seq<String>) -> bool {
    forall|i: int, j: int| 0 <= i < j < v.len() ==> seq_less(v[i]@, v[j]@)
}

pub open spec fn sorted_u32s(v: Seq<u32>) -> bool {
    forall|i: int, j: int| 0 <= i < j < v.len() ==> v[i] < v[j]
}

/// The position of the count of `kind`, if it has one.
pub open spec fn count_position(counts: Seq<(String, u64)>, kind: Seq<char>) -> Option<int> {
    if exists|i: int| 0 <= i < counts.len() && counts[i].0@ == kind {
        Some(choose|i: int| 0 <= i < counts.len() && counts[i].0@ == kind)
    } else {
        None
    }
}

/// The files that a manifest lists: each category that received a record, and
/// the trace-span file in any case.
pub open spec fn listed_files(written: Seq<bool>) -> Seq<Seq<char>> {
    listed_among(all_categories(), written)
}

/// The file names of the categories of `cats` that a manifest lists.
pub open spec fn listed_among(cats: Seq<IntermediateFileType>, written: Seq<bool>) -> Seq<
    Seq<char>,
>
    decreases cats.len(),
{
    if cats.len() == 0 {
        Seq::empty()
    } else {
        let rest = listed_among(cats.drop_last(), written);
        let t = cats.last();
        if written[category_index(t)] || t == IntermediateFileType::ChromiumEvents {
            rest.push(file_name_of(t))
        } else {
            rest
        }
    }
}

proof fn lemma_sum_update(counts: Seq<(String, u64)>, i: int, k: String)
    requires
        0 <= i < counts.len(),
        counts[i].1 < u64::MAX,
    ensures
        sum_counts(counts.update(i, (k, (counts[i].1 + 1) as u64))) == sum_counts(counts) + 1,
    decreases counts.len(),
{
    let u = counts.update(i, (k, (counts[i].1 + 1) as u64));
    if i == counts.len() - 1 {
        assert(u.drop_last() =~= counts.drop_last());
    } else {
        lemma_sum_update(counts.drop_last(), i, k);
        assert(u.drop_last() =~= counts.drop_last().update(i, (k, (counts[i].1 + 1) as u64)));
    }
}

proof fn lemma_count_le_sum(counts: Seq<(String, u64)>, i: int)
    requires
        0 <= i < counts.len(),
    ensures
        counts[i].1 <= sum_counts(counts),
    decreases counts.len(),
{
    if i < counts.len() - 1 {
        lemma_count_le_sum(counts.drop_last(), i);
    }
}

/// Adds `x` to a sorted list of distinct strings unless it is there already.
pub fn insert_sorted_text(v: &mut Vec<String>, x: &str)
    requires
        sorted_texts(old(v)@),
    ensures
        sorted_texts(final(v)@),
        texts(final(v)@).contains(x@),
        forall|c: Seq<char>| #[trigger]
            texts(old(v)@).contains(c) ==> texts(final(v)@).contains(c),
        forall|c: Seq<char>| #[trigger]
            texts(final(v)@).contains(c) ==> c == x@ || texts(old(v)@).contains(c),
{
    let ghost w0 = v@;
    let mut i: usize = 0;
    while i < v.len() && str_less(v[i].as_str(), x)
        invariant
            i <= v@.len(),
            v@ == w0,
            forall|j: int| 0 <= j < i ==> seq_less(#[trigger] w0[j]@, x@),
        decreases v@.len() - i,
    {
        i = i + 1;
    }
    if i < v.len() && str_eq(v[i].as_str(), x) {
        assert(texts(w0)[i as int] == x@);
        return ;
    }
    proof {
        if i < w0.len() {
            lemma_seq_less_total(w0[i as int]@, x@);
        }
    }
    v.insert(i, x.to_owned());
    proof {
        let w = v@;
        assert(w == w0.insert(i as int, w[i as int]));
        assert(w[i as int]@ == x@);
        assert forall|p: int, q: int| 0 <= p < q < w.len() implies seq_less(w[p]@, w[q]@) by {
            if q == i {
                assert(w[p] == w0[p]);
            } else if p == i {
                assert(w[q] == w0[q - 1]);
                if q - 1 > i {
                    lemma_seq_less_transitive(x@, w0[i as int]@, w0[q - 1]@);
                }
            } else {
                let pp = if p < i { p } else { p - 1 };
                let qq = if q < i { q } else { q - 1 };
                assert(w[p] == w0[pp] && w[q] == w0[qq]);
            }
        }
        assert(texts(w)[i as int] == x@);
        assert forall|c: Seq<char>| #[trigger] texts(w0).contains(c) implies texts(w).contains(c) by {
            let j = choose|j: int| 0 <= j < texts(w0).len() && texts(w0)[j] == c;
            if j < i {
                assert(texts(w)[j] == c);
            } else {
                assert(texts(w)[j + 1] == c);
            }
        }
        assert forall|c: Seq<char>| #[trigger] texts(w).contains(c) implies c == x@ || texts(w0).contains(c) by {
            let j = choose|j: int| 0 <= j < texts(w).len() && texts(w)[j] == c;
            if j < i {
                assert(texts(w0)[j] == c);
            } else if j > i {
                assert(texts(w0)[j - 1] == c);
            }
        }
    }
}

/// The running counts and id sets of one write phase. Records are appended to
/// their category streams by the caller; the tally sees each one once.
pub struct WriteTally {
    pub total_envelopes: u64,
    pub envelope_counts: Vec<(String, u64)>,
    pub compile_ids: Vec<String>,
    pub ranks: Vec<u32>,
    /// For each category, by `category_index`, whether it received a record.
    pub written: Vec<bool>,
    /// The compile id of every record seen so far.
    pub seen_compile_ids: Ghost<Seq<Option<Seq<char>>>>,
}

impl WriteTally {
    pub open spec fn wf(&self) -> bool {
        &&& self.total_envelopes == sum_counts(self.envelope_counts@)
        &&& forall|i: int, j: int|
            0 <= i < j < self.envelope_counts@.len() ==> self.envelope_counts@[i].0@
                != self.envelope_counts@[j].0@
        &&& sorted_texts(self.compile_ids@)
        &&& sorted_u32s(self.ranks@)
        &&& self.written@.len() == 8
        &&& forall|i: int|
            0 <= i < self.seen_compile_ids@.len() ==> (#[trigger] self.seen_compile_ids@[i]
                matches Some(c) ==> texts(self.compile_ids@).contains(c))
    }

    pub fn new() -> (r: WriteTally)
        ensures
            r.wf(),
            r.total_envelopes == 0,
            r.envelope_counts@.len() == 0,
            r.compile_ids@.len() == 0,
            r.ranks@.len() == 0,
            r.written@ == Seq::new(8, |i: int| false),
            r.seen_compile_ids@.len() == 0,
    {
        let written = vec![false, false, false, false, false, false, false, false];
        assert(written@ =~= Seq::new(8, |i: int| false));
        WriteTally {
            total_envelopes: 0,
            envelope_counts: Vec::new(),
            compile_ids: Vec::new(),
            ranks: Vec::new(),
            written,
            seen_compile_ids: Ghost(Seq::empty()),
        }
    }

    /// Counts one record of type `kind`.
    fn count_kind(&mut self, kind: &str)
        requires
            old(self).wf(),
            old(self).total_envelopes < u64::MAX,
        ensures
            final(self).wf(),
            final(self).total_envelopes == old(self).total_envelopes + 1,
            final(self).compile_ids == old(self).compile_ids,
            final(self).ranks == old(self).ranks,
            final(self).written == old(self).written,
            final(self).seen_compile_ids == old(self).seen_compile_ids,
            (match count_position(old(self).envelope_counts@, kind@) {
                Some(i) => final(self).envelope_counts@ == old(self).envelope_counts@.update(
                    i,
                    (old(self).envelope_counts@[i].0, (old(self).envelope_counts@[i].1 + 1) as u64),
                ),
                None => final(self).envelope_counts@.len() == old(self).envelope_counts@.len() + 1
                    && final(self).envelope_counts@.drop_last() == old(self).envelope_counts@
                    && final(self).envelope_counts@.last().0@ == kind@
                    && final(self).envelope_counts@.last().1 == 1,
            }),
    {
        let mut i: usize = 0;
        while i < self.envelope_counts.len()
            invariant
                i <= self.envelope_counts@.len(),
                *self == *old(self),
                self.wf(),
                self.total_envelopes < u64::MAX,
                forall|j: int| 0 <= j < i ==> self.envelope_counts@[j].0@ != kind@,
            decreases self.envelope_counts@.len() - i,
        {
            if str_eq(self.envelope_counts[i].0.as_str(), kind) {
                proof {
                    lemma_count_le_sum(self.envelope_counts@, i as int);
                    lemma_sum_update(
                        self.envelope_counts@,
                        i as int,
                        self.envelope_counts@[i as int].0,
                    );
                    let c = self.envelope_counts@;
                    assert(exists|j: int| 0 <= j < c.len() && c[j].0@ == kind@);
                    let p = choose|j: int| 0 <= j < c.len() && c[j].0@ == kind@;
                    if p != i {
                        if p < i {
                            assert(c[p].0@ != kind@);
                        } else {
                            assert(c[i as int].0@ != c[p].0@);
                        }
                    }
                }
                let key = self.envelope_counts[i].0.clone();
                let n = self.envelope_counts[i].1;
                self.envelope_counts.set(i, (key, n + 1));
                self.total_envelopes = self.total_envelopes + 1;
                return ;
            }
            i = i + 1;
        }
        proof {
            let c = self.envelope_counts@;
            assert(!(exists|j: int| 0 <= j < c.len() && c[j].0@ == kind@));
        }
        self.envelope_counts.push((kind.to_owned(), 1));
        self.total_envelopes = self.total_envelopes + 1;
        proof {
            assert(self.envelope_counts@.drop_last() =~= old(self).envelope_counts@);
        }
    }

    /// Adds `id` to the sorted compile ids unless it is there already.
    fn add_compile_id(&mut self, id: &str)
        requires
            old(self).wf(),
        ensures
            final(self).wf(),
            texts(final(self).compile_ids@).contains(id@),
            forall|c: Seq<char>| #[trigger]
                texts(old(self).compile_ids@).contains(c) ==> texts(
                    final(self).compile_ids@,
                ).contains(c),
            forall|c: Seq<char>| #[trigger]
                texts(final(self).compile_ids@).contains(c) ==> c == id@ || texts(
                    old(self).compile_ids@,
                ).contains(c),
            final(self).total_envelopes == old(self).total_envelopes,
            final(self).envelope_counts == old(self).envelope_counts,
            final(self).ranks == old(self).ranks,
            final(self).written == old(self).written,
            final(self).seen_compile_ids == old(self).seen_compile_ids,
    {
        insert_sorted_text(&mut self.compile_ids, id);
    }

    /// Adds `rank` to the sorted ranks unless it is there already.
    fn add_rank(&mut self, rank: u32)
        requires
            old(self).wf(),
        ensures
            final(self).wf(),
            final(self).ranks@.contains(rank),
            forall|x: u32| #[trigger]
                final(self).ranks@.contains(x) <==> (x == rank || old(self).ranks@.contains(x)),
            final(self).total_envelopes == old(self).total_envelopes,
            final(self).envelope_counts == old(self).envelope_counts,
            final(self).compile_ids == old(self).compile_ids,
            final(self).written == old(self).written,
            final(self).seen_compile_ids == old(self).seen_compile_ids,
    {
        let ghost v = self.ranks@;
        let mut i: usize = 0;
        while i < self.ranks.len() && self.ranks[i] < rank
            invariant
                i <= self.ranks@.len(),
                self.ranks@ == v,
                forall|j: int| 0 <= j < i ==> #[trigger] v[j] < rank,
            decreases self.ranks@.len() - i,
        {
            i = i + 1;
        }
        if i < self.ranks.len() && self.ranks[i] == rank {
            assert(v[i as int] == rank);
            return ;
        }
        self.ranks.insert(i, rank);
        proof {
            let w = self.ranks@;
            assert(w[i as int] == rank);
            assert forall|x: u32| #[trigger] w.contains(x) <==> (x == rank || v.contains(x)) by {
                if w.contains(x) {
                    let j = choose|j: int| 0 <= j < w.len() && w[j] == x;
                    if j < i {
                        assert(v[j] == x);
                    } else if j > i {
                        assert(v[j - 1] == x);
                    }
                }
                if v.contains(x) {
                    let j = choose|j: int| 0 <= j < v.len() && v[j] == x;
                    if j < i {
                        assert(w[j] == x);
                    } else {
                        assert(w[j + 1] == x);
                    }
                }
            }
        }
    }

    /// Accounts for one record written to the stream of `file_type`: the total,
    /// the count of its type, its compile id and its rank.
    pub fn write_entry(&mut self, entry: &IntermediateEntry, file_type: IntermediateFileType)
        requires
            old(self).wf(),
            old(self).total_envelopes < u64::MAX,
        ensures
            final(self).wf(),
            final(self).total_envelopes == old(self).total_envelopes + 1,
            final(self).seen_compile_ids@ == old(self).seen_compile_ids@.push(
                entry_compile_id(*entry),
            ),
            entry.compile_id matches Some(c) ==> texts(final(self).compile_ids@).contains(c@),
            forall|c: Seq<char>| #[trigger]
                texts(final(self).compile_ids@).contains(c) <==> (entry_compile_id(*entry)
                    == Some(c) || texts(old(self).compile_ids@).contains(c)),
            forall|x: u32| #[trigger]
                final(self).ranks@.contains(x) <==> (entry.rank == Some(x) || old(
                    self,
                ).ranks@.contains(x)),
            final(self).written@ == old(self).written@.update(category_index(file_type), true),
            (match count_position(old(self).envelope_counts@, entry.entry_type@) {
                Some(i) => final(self).envelope_counts@ == old(self).envelope_counts@.update(
                    i,
                    (old(self).envelope_counts@[i].0, (old(self).envelope_counts@[i].1 + 1) as u64),
                ),
                None => final(self).envelope_counts@.len() == old(self).envelope_counts@.len() + 1
                    && final(self).envelope_counts@.drop_last() == old(self).envelope_counts@
                    && final(self).envelope_counts@.last().0@ == entry.entry_type@
                    && final(self).envelope_counts@.last().1 == 1,
            }),
    {
        self.count_kind(entry.entry_type.as_str());
        let ghost after_count = *self;
        if let Some(cid) = &entry.compile_id {
            self.add_compile_id(cid.as_str());
        }
        if let Some(rank) = entry.rank {
            self.add_rank(rank);
        }
        let k = file_type.index();
        self.written.set(k, true);
        let ghost before_log = self.seen_compile_ids@;
        self.seen_compile_ids = Ghost(self.seen_compile_ids@.push(entry_compile_id(*entry)));
        proof {
            let log = self.seen_compile_ids@;
            assert forall|i: int| 0 <= i < log.len() implies (#[trigger] log[i] matches Some(c)
                ==> texts(self.compile_ids@).contains(c)) by {
                if i < before_log.len() {
                    assert(log[i] == before_log[i]);
                }
            }
        }
    }

    /// Accounts for one trace-span event, which carries no compile id or rank.
    pub fn write_chromium_event(&mut self)
        requires
            old(self).wf(),
            old(self).total_envelopes < u64::MAX,
        ensures
            final(self).wf(),
            final(self).total_envelopes == old(self).total_envelopes + 1,
            final(self).compile_ids == old(self).compile_ids,
            final(self).ranks == old(self).ranks,
            final(self).seen_compile_ids@ == old(self).seen_compile_ids@.push(None),
            final(self).written@ == old(self).written@.update(
                category_index(IntermediateFileType::ChromiumEvents),
                true,
            ),
            (match count_position(old(self).envelope_counts@, "chromium_event"@) {
                Some(i) => final(self).envelope_counts@ == old(self).envelope_counts@.update(
                    i,
                    (old(self).envelope_counts@[i].0, (old(self).envelope_counts@[i].1 + 1) as u64),
                ),
                None => final(self).envelope_counts@.len() == old(self).envelope_counts@.len() + 1
                    && final(self).envelope_counts@.drop_last() == old(self).envelope_counts@
                    && final(self).envelope_counts@.last().0@ == "chromium_event"@
                    && final(self).envelope_counts@.last().1 == 1,
            }),
    {
        self.count_kind("chromium_event");
        self.written.set(4, true);
        let ghost before_log = self.seen_compile_ids@;
        self.seen_compile_ids = Ghost(self.seen_compile_ids@.push(None));
        proof {
            let log = self.seen_compile_ids@;
            assert forall|i: int| 0 <= i < log.len() implies (#[trigger] log[i] matches Some(c)
                ==> texts(self.compile_ids@).contains(c)) by {
                if i < before_log.len() {
                    assert(log[i] == before_log[i]);
                }
            }
        }
    }

    /// Ends the write phase: the manifest of what was written.
    pub fn finalize(self, source_file: &str, parse_mode: &str, string_table_entries: u64) -> (r:
        IntermediateManifest)
        requires
            self.wf(),
        ensures
            r.total_envelopes == sum_counts(r.envelope_counts@),
            forall|i: int|
                0 <= i < self.seen_compile_ids@.len() ==> (#[trigger] self.seen_compile_ids@[i]
                    matches Some(c) ==> texts(r.compile_ids@).contains(c)),
            r.total_envelopes == self.total_envelopes,
            r.envelope_counts == self.envelope_counts,
            r.compile_ids == self.compile_ids,
            r.ranks == self.ranks,
            texts(r.files@) == listed_files(self.written@),
            r.version@ == "2.0"@,
            r.source_file@ == source_file@,
            r.source_file_hash is None,
            r.parse_mode@ == parse_mode@,
            r.string_table_entries == string_table_entries,
    {
        let all = IntermediateFileType::all();
        let mut files: Vec<String> = Vec::new();
        let mut i: usize = 0;
        while i < all.len()
            invariant
                i <= all@.len(),
                all@ == all_categories(),
                self.written@.len() == 8,
                texts(files@) == listed_among(all_categories().subrange(0, i as int), self.written@),
            decreases all@.len() - i,
        {
            let t = all[i];
            let ghost pre = all_categories().subrange(0, i as int);
            assert(all_categories().subrange(0, i + 1) =~= pre.push(t));
            proof {
                assert(pre.push(t).drop_last() =~= pre);
            }
            if self.written[t.index()] || t == IntermediateFileType::ChromiumEvents {
                files.push(t.filename().to_owned());
                proof {
                    assert(texts(files@) =~= listed_among(pre, self.written@).push(
                        file_name_of(t),
                    ));
                }
            }
            i = i + 1;
        }
        assert(all_categories().subrange(0, 8) =~= all_categories());
        IntermediateManifest {
            version: "2.0".to_owned(),
            generated_at: match utc_now_rfc3339() {
                Some(t) => t,
                None => String::new(),
            },
            source_file: source_file.to_owned(),
            source_file_hash: None,
            total_envelopes: self.total_envelopes,
            envelope_counts: self.envelope_counts,
            compile_ids: self.compile_ids,
            string_table_entries,
            parse_mode: parse_mode.to_owned(),
            ranks: self.ranks,
            files,
        }
    }
}

/// Relies on `SystemTime::now` and `duration_since(UNIX_EPOCH)` for the
/// current time, `chrono::DateTime::from_timestamp` and `to_rfc3339` for its
/// text: `None` when the clock reads before 1970 or beyond chrono's range.
/// Nothing is assumed of the value.
#[verifier::external_body]
fn utc_now_rfc3339() -> Option<String> {
    let now = std::time::SystemTime::now().duration_since(std::time::UNIX_EPOCH).ok()?;
    chrono::DateTime::from_timestamp(now.as_secs() as i64, now.subsec_nanos()).map(|t| t.to_rfc3339())
}

impl IntermediateManifest {
    /// The number of records of type `kind`, if any was written.
    pub fn count_for(&self, kind: &str) -> (r: Option<u64>)
        ensures
            r is Some <==> exists|i: int|
                0 <= i < self.envelope_counts@.len() && self.envelope_counts@[i].0@ == kind@,
            r matches Some(n) ==> exists|i: int|
                0 <= i < self.envelope_counts@.len() && self.envelope_counts@[i].0@ == kind@
                    && self.envelope_counts@[i].1 == n,
    {
        let mut i: usize = 0;
        while i < self.envelope_counts.len()
            invariant
                i <= self.envelope_counts@.len(),
                forall|j: int| 0 <= j < i ==> self.envelope_counts@[j].0@ != kind@,
            decreases self.envelope_counts@.len() - i,
        {
            if str_eq(self.envelope_counts[i].0.as_str(), kind) {
                return Some(self.envelope_counts[i].1);
            }
            i = i + 1;
        }
        None
    }
}

} // verus!
