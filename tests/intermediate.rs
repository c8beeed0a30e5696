use tlparse::compile_id::{format_compile_id, parse_compile_id, CompileId};
use tlparse::intermediate::{
    detect_envelope_type, envelope_type_to_file, normalize_envelope, Envelope, EventKind,
    IntermediateEntry, IntermediateFileType, WriteTally,
};
use tlparse::json::JsonValue;

fn entry(kind: &str, compile_id: Option<&str>, rank: Option<u32>) -> IntermediateEntry {
    IntermediateEntry {
        entry_type: kind.to_string(),
        compile_id: compile_id.map(|c| c.to_string()),
        rank,
        timestamp: "2024-11-28T12:00:00.000000Z".to_string(),
        thread: 12345,
        pathname: "torch/_dynamo/convert_frame.py".to_string(),
        lineno: 456,
        metadata: JsonValue::Object(vec![("sizes".to_string(), JsonValue::Object(vec![]))]),
        payload: Some("class GraphModule...".to_string()),
    }
}

fn cid(a: Option<u32>, f: Option<u32>, c: Option<u32>, t: Option<u32>) -> CompileId {
    CompileId { compiled_autograd_id: a, frame_id: f, frame_compile_id: c, attempt: t }
}

#[test]
fn test_envelope_type_routing() {
    assert_eq!(envelope_type_to_file("dynamo_output_graph"), Some(IntermediateFileType::Graphs));
    assert_eq!(envelope_type_to_file("aot_forward_graph"), Some(IntermediateFileType::Graphs));
    assert_eq!(envelope_type_to_file("inductor_output_code"), Some(IntermediateFileType::Codegen));
    assert_eq!(envelope_type_to_file("dynamo_guards"), Some(IntermediateFileType::Guards));
    assert_eq!(
        envelope_type_to_file("compilation_metrics"),
        Some(IntermediateFileType::CompilationMetrics)
    );
    assert_eq!(envelope_type_to_file("chromium_event"), Some(IntermediateFileType::ChromiumEvents));
    assert_eq!(envelope_type_to_file("artifact"), Some(IntermediateFileType::Artifacts));
    assert_eq!(envelope_type_to_file("describe_tensor"), Some(IntermediateFileType::TensorMetadata));
    assert_eq!(envelope_type_to_file("missing_fake_kernel"), Some(IntermediateFileType::Export));
    assert_eq!(envelope_type_to_file("str"), None);
    assert_eq!(envelope_type_to_file("unknown_type"), None);
}

#[test]
fn test_intermediate_writer_basic() {
    let mut writer = WriteTally::new();
    let e = entry("dynamo_output_graph", Some("0_0_0"), Some(0));
    writer.write_entry(&e, IntermediateFileType::Graphs);
    writer.write_chromium_event();
    let manifest = writer.finalize("test.log", "normal", 0);
    assert_eq!(manifest.total_envelopes, 2);
    assert_eq!(manifest.count_for("dynamo_output_graph"), Some(1));
    assert_eq!(manifest.count_for("chromium_event"), Some(1));
    assert!(manifest.compile_ids.contains(&"0_0_0".to_string()));
    assert!(manifest.files.contains(&"graphs.jsonl".to_string()));
    assert!(manifest.files.contains(&"chromium_events.json".to_string()));
    assert!(!manifest.files.contains(&"guards.jsonl".to_string()));
}

#[test]
fn test_format_compile_id() {
    let simple = Some(cid(None, Some(0), Some(1), None));
    assert_eq!(format_compile_id(&simple), Some("0_1".to_string()));
    let with_attempt = Some(cid(None, Some(0), Some(1), Some(2)));
    assert_eq!(format_compile_id(&with_attempt), Some("0_1_2".to_string()));
    let autograd = Some(cid(Some(3), Some(0), Some(1), None));
    assert_eq!(format_compile_id(&autograd), Some("!3_0_1".to_string()));
    assert_eq!(format_compile_id(&None), None);
}

#[test]
fn compile_id_text_round_trips() {
    let cases = [
        ("0_1", cid(None, Some(0), Some(1), None)),
        ("0_1_2", cid(None, Some(0), Some(1), Some(2))),
        ("!3_0_1", cid(Some(3), Some(0), Some(1), None)),
        ("!3_0_1_4", cid(Some(3), Some(0), Some(1), Some(4))),
        ("_", cid(None, None, None, None)),
        ("4294967295_7", cid(None, Some(4294967295), Some(7), None)),
    ];
    for (text, id) in cases {
        assert_eq!(format_compile_id(&Some(id)), Some(text.to_string()));
        assert_eq!(parse_compile_id(&Some(text.to_string())), Some(id));
    }
    assert_eq!(parse_compile_id(&None), None);
}

#[test]
fn compile_id_decoding_is_forgiving() {
    assert_eq!(
        parse_compile_id(&Some(" 0_x ".to_string())),
        Some(cid(None, Some(0), None, None))
    );
    assert_eq!(
        parse_compile_id(&Some("12".to_string())),
        Some(cid(None, Some(12), None, None))
    );
    assert_eq!(
        parse_compile_id(&Some("4294967296_1".to_string())),
        Some(cid(None, None, Some(1), None))
    );
}

#[test]
fn every_event_kind_has_one_category_or_is_dropped() {
    let e = |kind: EventKind| Envelope {
        kind,
        compile_id: None,
        rank: None,
        timestamp: String::new(),
        thread: 0,
        pathname: String::new(),
        lineno: 0,
        metadata: JsonValue::Null,
        payload: None,
        stack: None,
    };
    assert_eq!(detect_envelope_type(&e(EventKind::Stack)), Some("stack"));
    assert_eq!(detect_envelope_type(&e(EventKind::Unknown)), None);
    assert_eq!(
        envelope_type_to_file(detect_envelope_type(&e(EventKind::DynamoStart)).unwrap()),
        Some(IntermediateFileType::CompilationMetrics)
    );
    assert!(normalize_envelope(e(EventKind::Str)).is_none());
    assert!(normalize_envelope(e(EventKind::Unknown)).is_none());
    let (record, category) = normalize_envelope(e(EventKind::ExpressionCreated)).unwrap();
    assert_eq!(record.entry_type, "expression_created");
    assert_eq!(category, IntermediateFileType::Guards);
}

#[test]
fn normalized_record_keeps_the_envelope() {
    let env = Envelope {
        kind: EventKind::DynamoOutputGraph,
        compile_id: Some(cid(None, Some(0), Some(0), None)),
        rank: Some(3),
        timestamp: "t".to_string(),
        thread: 9,
        pathname: "p.py".to_string(),
        lineno: 5,
        metadata: JsonValue::Null,
        payload: Some("graph".to_string()),
        stack: None,
    };
    let (record, category) = normalize_envelope(env).unwrap();
    assert_eq!(category, IntermediateFileType::Graphs);
    assert_eq!(record.compile_id, Some("0_0".to_string()));
    assert_eq!(record.rank, Some(3));
    assert_eq!(record.payload, Some("graph".to_string()));
}

#[test]
fn manifest_counts_add_up_and_list_every_compile_id() {
    let mut writer = WriteTally::new();
    writer.write_entry(&entry("guard_added", Some("1_0"), Some(2)), IntermediateFileType::Guards);
    writer.write_entry(&entry("guard_added", Some("0_0"), Some(0)), IntermediateFileType::Guards);
    writer.write_entry(&entry("artifact", None, Some(2)), IntermediateFileType::Artifacts);
    writer.write_entry(&entry("guard_added", Some("1_0"), None), IntermediateFileType::Guards);
    writer.write_chromium_event();
    let manifest = writer.finalize("a.log", "normal", 7);
    let sum: u64 = manifest.envelope_counts.iter().map(|(_, n)| *n).sum();
    assert_eq!(manifest.total_envelopes, 5);
    assert_eq!(sum, manifest.total_envelopes);
    assert_eq!(manifest.count_for("guard_added"), Some(3));
    assert_eq!(manifest.compile_ids, vec!["0_0".to_string(), "1_0".to_string()]);
    assert_eq!(manifest.ranks, vec![0, 2]);
    assert_eq!(manifest.string_table_entries, 7);
    assert_eq!(manifest.version, "2.0");
    assert_eq!(
        manifest.files,
        vec![
            "guards.jsonl".to_string(),
            "chromium_events.json".to_string(),
            "artifacts.jsonl".to_string()
        ]
    );
}

#[test]
fn category_file_names() {
    let names: Vec<&str> = IntermediateFileType::all().iter().map(|t| t.filename()).collect();
    assert_eq!(
        names,
        vec![
            "graphs.jsonl",
            "codegen.jsonl",
            "guards.jsonl",
            "compilation_metrics.jsonl",
            "chromium_events.json",
            "artifacts.jsonl",
            "tensor_metadata.jsonl",
            "export.jsonl"
        ]
    );
}

#[test]
fn compilation_start_metadata_gains_its_stack() {
    let env = Envelope {
        kind: EventKind::DynamoStart,
        compile_id: None,
        rank: None,
        timestamp: String::new(),
        thread: 0,
        pathname: String::new(),
        lineno: 0,
        metadata: JsonValue::Object(vec![
            ("stack".to_string(), JsonValue::Null),
            ("x".to_string(), JsonValue::Bool(true)),
        ]),
        payload: None,
        stack: Some(JsonValue::Array(vec![])),
    };
    let (record, _) = normalize_envelope(env).unwrap();
    match record.metadata {
        JsonValue::Object(ms) => {
            assert_eq!(ms.len(), 2);
            assert_eq!(ms[0].0, "x");
            assert_eq!(ms[1].0, "stack");
            assert!(matches!(ms[1].1, JsonValue::Array(ref a) if a.is_empty()));
        }
        _ => panic!("metadata should stay an object"),
    }
}
