use tlparse::compile_id::CompileId;
use tlparse::intermediate::{normalize_envelope, Envelope, EventKind, IntermediateEntry, IntermediateFileType, WriteTally};
use tlparse::json::{JsonNumber, JsonValue};
use tlparse::modules::context::CategoryRead;
use tlparse::modules::stack_trie::{
    extract_eval_with_key_id, format_frame, frame_key, maybe_remove_convert_frame_suffixes, simplify_filename,
    FrameSummary, StackTrie,
};
use tlparse::modules::symbolic_shapes::ExpressionInfo;
use tlparse::modules::{Module, ModuleConfig, ModuleContext, ModuleRegistry, StackTrieModule, SymbolicShapesModule};

fn s(t: &str) -> JsonValue {
    JsonValue::Str(t.to_string())
}

fn obj(members: Vec<(&str, JsonValue)>) -> JsonValue {
    JsonValue::Object(members.into_iter().map(|(k, v)| (k.to_string(), v)).collect())
}

fn frame(file: &str, line: i32, name: &str) -> FrameSummary {
    FrameSummary { uninterned_filename: Some(file.to_string()), line, name: name.to_string(), loc: None }
}

fn frame_json(line: u64, name: &str) -> JsonValue {
    obj(vec![("filename", JsonValue::Number(JsonNumber::Unsigned(0))), ("line", JsonValue::Number(JsonNumber::Unsigned(line))), ("name", s(name)), ("loc", s("model.py"))])
}

fn rec(kind: &str, compile_id: Option<&str>, metadata: JsonValue) -> IntermediateEntry {
    IntermediateEntry {
        entry_type: kind.to_string(),
        compile_id: compile_id.map(|c| c.to_string()),
        rank: Some(0),
        timestamp: "2024-01-01T00:00:00Z".to_string(),
        thread: 1,
        pathname: "test.py".to_string(),
        lineno: 1,
        metadata,
        payload: None,
    }
}

fn context(streams: Vec<(IntermediateFileType, Vec<IntermediateEntry>)>) -> ModuleContext {
    let manifest = WriteTally::new().finalize("test.log", "normal", 0);
    let mut ctx = ModuleContext::new(manifest, ModuleConfig::default());
    for (t, records) in streams {
        ctx.set_stream(t, CategoryRead::Records(records));
    }
    ctx
}

fn cid(f: u32, c: u32) -> Option<CompileId> {
    Some(CompileId { compiled_autograd_id: None, frame_id: Some(f), frame_compile_id: Some(c), attempt: None })
}

#[test]
fn test_stack_trie_module() {
    let ctx = context(vec![(
        IntermediateFileType::CompilationMetrics,
        vec![rec("dynamo_start", Some("0_0"), obj(vec![("stack", JsonValue::Array(vec![frame_json(10, "forward")]))]))],
    )]);
    let output = StackTrieModule::new().render(&ctx).ok().unwrap();
    let contribution = output.index_contribution.unwrap();
    assert_eq!(contribution.section, "Stack Trie");
    assert!(contribution.html.contains("stack-trie"));
    assert!(contribution.html.contains("<a href='#0_0' class='status-missing'>0_0</a>"));
}

#[test]
fn test_empty_stacks() {
    let ctx = context(vec![(IntermediateFileType::CompilationMetrics, vec![])]);
    let output = StackTrieModule::new().render(&ctx).ok().unwrap();
    assert!(output.index_contribution.is_none());
}

#[test]
fn identical_stacks_share_a_node_in_either_order() {
    let a = vec![frame("m.py", 1, "main"), frame("f.py", 2, "f")];
    let b = vec![frame("m.py", 1, "main"), frame("g.py", 3, "g")];
    let mut first = StackTrie::new();
    let n1 = first.insert(&a, cid(0, 0));
    first.insert(&b, cid(1, 0));
    let n2 = first.insert(&a, cid(2, 0));
    assert_eq!(n1, n2);
    assert_eq!(first.nodes[n1].terminal, vec![cid(0, 0), cid(2, 0)]);
    let mut second = StackTrie::new();
    let m1 = second.insert(&b, cid(1, 0));
    let m2 = second.insert(&a, cid(0, 0));
    let m3 = second.insert(&a, cid(2, 0));
    assert_eq!(m2, m3);
    assert_ne!(m1, m2);
    assert_eq!(first.nodes.len(), 4);
    assert_eq!(second.nodes.len(), 4);
    assert!(!first.is_empty());
    assert!(StackTrie::new().is_empty());
}

#[test]
fn harness_frames_are_stripped_from_the_tail() {
    let mut stack = vec![
        frame("user.py", 5, "train"),
        frame("/x/#link-tree/torch/_dynamo/convert_frame.py", 1, "catch_errors"),
        frame("torch/_dynamo/convert_frame.py", 2, "_convert_frame"),
        frame("torch/_dynamo/convert_frame.py", 3, "_convert_frame_assert"),
    ];
    maybe_remove_convert_frame_suffixes(&mut stack);
    assert_eq!(stack.len(), 1);
    assert_eq!(stack[0].name, "train");
    let mut other = vec![frame("a.py", 1, "__call__"), frame("torch/_dynamo/convert_frame.py", 1, "__call__")];
    maybe_remove_convert_frame_suffixes(&mut other);
    assert_eq!(other.len(), 2);
}

#[test]
fn file_names_and_frames_render() {
    assert_eq!(simplify_filename("/a/b#link-tree/torch/x.py"), "torch/x.py");
    assert_eq!(simplify_filename("plain.py"), "plain.py");
    assert_eq!(extract_eval_with_key_id("<eval_with_key>.12"), Some(12));
    assert_eq!(extract_eval_with_key_id("<eval_with_key>.x <eval_with_key>.7b"), Some(7));
    assert_eq!(extract_eval_with_key_id("nothing"), None);
    let mut f = frame("<eval_with_key>.4", 9, "forward");
    assert_eq!(
        format_frame(&frame_key(&f)),
        "<a href='dump_file/eval_with_key_4.html#L9'>&lt;eval_with_key&gt;.4:9</a> in forward"
    );
    f = frame("m.py", -1, "a<b");
    f.loc = Some("x & y".to_string());
    assert_eq!(format_frame(&frame_key(&f)), "m.py:-1 in a&lt;b<br>&nbsp;&nbsp;&nbsp;&nbsp;x &amp; y");
}

#[test]
fn expression_tree_stops_at_the_depth_bound_on_a_cycle() {
    let module = SymbolicShapesModule::new();
    let index = vec![
        (1u64, ExpressionInfo { result: Some("s0 + s1".to_string()), method: Some("add".to_string()), arguments: vec!["s0".to_string(), "s1".to_string()], argument_ids: vec![2] }),
        (2u64, ExpressionInfo { result: Some("s1".to_string()), method: None, arguments: vec![], argument_ids: vec![1] }),
    ];
    let mut html = String::new();
    module.render_expression_tree(&mut html, 1, &index, 0);
    assert_eq!(html.matches("<div class=\"expr-node\"><strong>").count(), 21);
    assert_eq!(html.matches("... (max depth)").count(), 1);
    assert!(html.starts_with("<div class=\"expr-node\"><strong>s0 + s1</strong> (add)<br>Args: s0, s1</div>\n"));
    let mut missing = String::new();
    module.render_expression_tree(&mut missing, 5, &index, 0);
    assert_eq!(missing, "<div class=\"expr-node\">Node 5 (not found)</div>");
}

#[test]
fn expression_index_and_guard_page() {
    let guards = vec![
        rec("expression_created", Some("0_0"), obj(vec![("id", JsonValue::Number(JsonNumber::Unsigned(7))), ("result", s("s0*2")), ("argument_ids", JsonValue::Array(vec![]))])),
        rec("guard_added", Some("0_0"), obj(vec![("expr", s("s0*2 < 10")), ("expr_node_id", JsonValue::Number(JsonNumber::Unsigned(7)))])),
        rec("propagate_real_tensors_provenance", None, obj(vec![])),
    ];
    let module = SymbolicShapesModule::new();
    let index = module.build_expression_index(&guards);
    assert_eq!(index.len(), 1);
    assert_eq!(index[0].0, 7);
    let ctx = context(vec![(IntermediateFileType::Guards, guards)]);
    let output = module.render(&ctx).ok().unwrap();
    assert_eq!(output.files.len(), 2);
    assert!(output.files[0].1.contains("<strong>s0*2</strong>"));
    assert!(output.files[0].1.contains("s0*2 &lt; 10"));
    assert_eq!(output.files[1].0, "unknown/symbolic_guard_information_1.html");
}

fn envelope(kind: EventKind, metadata: JsonValue, stack: Option<JsonValue>) -> Envelope {
    Envelope {
        kind,
        compile_id: cid(0, 0),
        rank: Some(0),
        timestamp: "2024-01-01T00:00:00Z".to_string(),
        thread: 1,
        pathname: "test.py".to_string(),
        lineno: 1,
        metadata,
        payload: None,
        stack,
    }
}

#[test]
fn failed_compilation_end_to_end() {
    let events = vec![
        envelope(EventKind::CompilationMetrics, obj(vec![("co_name", s("forward")), ("fail_type", s("graph_break")), ("fail_reason", s("unsupported op"))]), None),
        envelope(EventKind::DynamoStart, obj(vec![]), Some(JsonValue::Array(vec![frame_json(10, "forward")]))),
    ];
    let mut tally = WriteTally::new();
    let mut streams: Vec<Vec<IntermediateEntry>> = (0..8).map(|_| Vec::new()).collect();
    for e in events {
        let (record, category) = normalize_envelope(e).unwrap();
        tally.write_entry(&record, category);
        streams[category.index()].push(record);
    }
    let manifest = tally.finalize("test.log", "normal", 0);
    assert_eq!(manifest.compile_ids, vec!["0_0".to_string()]);
    let mut ctx = ModuleContext::new(manifest, ModuleConfig::default());
    for t in IntermediateFileType::all() {
        let records = std::mem::take(&mut streams[t.index()]);
        ctx.set_stream(t, CategoryRead::Records(records));
    }
    let combined = ModuleRegistry::with_defaults(&ModuleConfig::default()).render_all(&ctx);
    assert!(combined.failures.is_empty());
    let metrics = combined.files.iter().find(|(p, _)| p == "0_0/compilation_metrics.html").unwrap();
    assert!(metrics.1.contains("Compilation Failed"));
    let failures = combined.files.iter().find(|(p, _)| p == "failures_and_restarts.html").unwrap();
    assert!(failures.1.contains("Found 1 failure(s)"));
    assert_eq!(failures.1.matches("/compilation_metrics.html\">0_0</a>").count(), 1);
    let trie = combined.index_contributions.iter().find(|c| c.section == "Stack Trie").unwrap();
    assert!(trie.html.contains("<a href='#0_0' class='status-error'>0_0</a>"));
}

fn trie_html_for(metrics: JsonValue) -> String {
    let ctx = context(vec![(
        IntermediateFileType::CompilationMetrics,
        vec![
            rec("compilation_metrics", Some("0_0"), metrics),
            rec("dynamo_start", Some("0_0"), obj(vec![("stack", JsonValue::Array(vec![frame_json(10, "forward")]))])),
        ],
    )]);
    StackTrieModule::new().render(&ctx).ok().unwrap().index_contribution.unwrap().html
}

#[test]
fn compile_status_follows_the_recorded_metrics() {
    assert!(trie_html_for(obj(vec![("co_name", s("f"))])).contains("class='status-ok'"));
    assert!(trie_html_for(obj(vec![("graph_op_count", JsonValue::Number(JsonNumber::Unsigned(0)))])).contains("class='status-empty'"));
    assert!(trie_html_for(obj(vec![("graph_op_count", JsonValue::Number(JsonNumber::Unsigned(3))), ("restart_reasons", JsonValue::Array(vec![s("x")]))])).contains("class='status-break'"));
    assert!(trie_html_for(obj(vec![("graph_op_count", JsonValue::Number(JsonNumber::Unsigned(0))), ("fail_type", s("e"))])).contains("class='status-error'"));
}

#[test]
fn expression_tree_past_the_bound_is_a_placeholder() {
    let module = SymbolicShapesModule::new();
    let index = vec![(1u64, ExpressionInfo { result: Some("s0".to_string()), method: None, arguments: vec![], argument_ids: vec![] })];
    let mut html = "x".to_string();
    module.render_expression_tree(&mut html, 1, &index, 40);
    assert_eq!(html, "x<div class=\"expr-node\">... (max depth)</div>");
}

#[test]
fn harness_stripping_keeps_the_frames_themselves() {
    let mut stack = vec![
        FrameSummary { uninterned_filename: None, line: 1, name: "main".to_string(), loc: Some("x".to_string()) },
        frame("torch/_dynamo/convert_frame.py", 1, "__call__"),
        frame("torch/_dynamo/convert_frame.py", 2, "__call__"),
        frame("torch/_dynamo/convert_frame.py", 3, "__call__"),
    ];
    maybe_remove_convert_frame_suffixes(&mut stack);
    assert_eq!(stack.len(), 1);
    assert_eq!(stack[0].uninterned_filename, None);
    assert_eq!(stack[0].loc, Some("x".to_string()));
}
