use tlparse::intermediate::{IntermediateEntry, IntermediateFileType, IntermediateManifest};
use tlparse::json::{JsonNumber, JsonValue};
use tlparse::modules::compile_artifacts::{anchor_source, is_cache_artifact};
use tlparse::modules::compile_directory::format_display_name;
use tlparse::modules::context::CategoryRead;
use tlparse::modules::{
    CacheModule, ChromiumTraceModule, CombinedOutput, CompilationMetricsModule,
    CompileArtifactsModule, CompileDirectoryModule, DirectoryEntries, DirectoryEntry,
    ExportModule, GuardsModule, IndexContribution, IndexGeneratorModule, Module, ModuleConfig,
    ModuleContext, ModuleError, ModuleOutput, ModuleRegistry, StackTrieModule,
    SymbolicShapesModule,
};

fn s(t: &str) -> JsonValue {
    JsonValue::Str(t.to_string())
}

fn u(n: u64) -> JsonValue {
    JsonValue::Number(JsonNumber::Unsigned(n))
}

fn obj(members: Vec<(&str, JsonValue)>) -> JsonValue {
    JsonValue::Object(members.into_iter().map(|(k, v)| (k.to_string(), v)).collect())
}

fn rec(kind: &str, compile_id: Option<&str>, metadata: JsonValue, payload: Option<&str>) -> IntermediateEntry {
    IntermediateEntry {
        entry_type: kind.to_string(),
        compile_id: compile_id.map(|c| c.to_string()),
        rank: Some(0),
        timestamp: "2024-01-01T00:00:00Z".to_string(),
        thread: 1,
        pathname: "test.py".to_string(),
        lineno: 1,
        metadata,
        payload: payload.map(|p| p.to_string()),
    }
}

fn manifest() -> IntermediateManifest {
    IntermediateManifest {
        version: "2.0".to_string(),
        generated_at: "2024-01-01T00:00:00Z".to_string(),
        source_file: "test.log".to_string(),
        source_file_hash: None,
        total_envelopes: 1,
        envelope_counts: vec![],
        compile_ids: vec!["0_0".to_string(), "0_1".to_string()],
        string_table_entries: 0,
        parse_mode: "normal".to_string(),
        ranks: vec![0],
        files: vec!["graphs.jsonl".to_string()],
    }
}

fn context(streams: Vec<(IntermediateFileType, Vec<IntermediateEntry>)>, export_mode: bool) -> ModuleContext {
    let mut config = ModuleConfig::default();
    config.export_mode = export_mode;
    let mut ctx = ModuleContext::new(manifest(), config);
    for (t, records) in streams {
        ctx.set_stream(t, CategoryRead::Records(records));
    }
    ctx
}

fn path_of(o: &ModuleOutput, i: usize) -> &str {
    o.files[i].0.as_str()
}

struct TestModule;

impl Module for TestModule {
    fn name(&self) -> &'static str {
        "Test Module"
    }

    fn id(&self) -> &'static str {
        "test"
    }

    fn subscriptions(&self) -> Vec<IntermediateFileType> {
        vec![IntermediateFileType::Graphs]
    }

    fn render(&self, _ctx: &ModuleContext) -> Result<ModuleOutput, ModuleError> {
        Ok(ModuleOutput {
            files: vec![("test.txt".to_string(), "test content".to_string())],
            directory_entries: DirectoryEntries::new(),
            index_contribution: None,
        })
    }
}

struct FailingModule;

impl Module for FailingModule {
    fn name(&self) -> &'static str {
        "Failing Module"
    }

    fn id(&self) -> &'static str {
        "failing"
    }

    fn subscriptions(&self) -> Vec<IntermediateFileType> {
        vec![]
    }

    fn render(&self, _ctx: &ModuleContext) -> Result<ModuleOutput, ModuleError> {
        Err(ModuleError { message: "broken".to_string() })
    }
}

#[test]
fn test_module_registry() {
    let mut registry = ModuleRegistry::new();
    registry.register(Box::new(TestModule));
    assert_eq!(registry.modules().len(), 1);
    assert_eq!(registry.modules()[0].name(), "Test Module");
    assert_eq!(registry.modules()[0].id(), "test");
}

#[test]
fn test_directory_entry() {
    let entry = DirectoryEntry::new("test.txt", "path/to/test.txt").with_suffix("✅");
    assert_eq!(entry.name, "test.txt");
    assert_eq!(entry.url, "path/to/test.txt");
    assert_eq!(entry.suffix, "✅");
}

#[test]
fn test_is_cache_artifact() {
    assert!(is_cache_artifact("cache_hit_abc123"));
    assert!(is_cache_artifact("cache_miss_def456"));
    assert!(is_cache_artifact("cache_bypass_ghi789"));
    assert!(!is_cache_artifact("dynamo_output_graph"));
    assert!(!is_cache_artifact("some_other_artifact"));
}

#[test]
fn test_format_display_name() {
    assert_eq!(format_display_name("0_0"), "0/0");
    assert_eq!(format_display_name("0_1_2"), "0/1 (attempt 2)");
    assert_eq!(format_display_name("__global__"), "Global");
}

#[test]
fn test_anchor_source() {
    let html = anchor_source("line 1\nline 2");
    assert!(html.contains("id=\"L1\""));
    assert!(html.contains("id=\"L2\""));
    assert!(html.contains("line 1"));
    assert!(html.contains("line 2"));
}

#[test]
fn test_build_directory() {
    let module = IndexGeneratorModule::new(String::new(), false);
    let mut entries = DirectoryEntries::new();
    entries.push("0_0", DirectoryEntry::new("test.txt", "0_0/test.txt"));
    entries.push("0_0", DirectoryEntry::new("graph.txt", "0_0/graph.txt").with_suffix("✅"));
    let directory = module.build_directory(&entries);
    assert_eq!(directory.len(), 1);
    assert_eq!(directory[0].0, "0_0");
    assert_eq!(directory[0].1.len(), 2);
    assert_eq!(directory[0].1[1].suffix, "✅");
}

#[test]
fn directory_groups_are_sorted_and_skip_global() {
    let module = IndexGeneratorModule::new(String::new(), false);
    let mut entries = DirectoryEntries::new();
    entries.push("1_0", DirectoryEntry::new("b", "1_0/b"));
    entries.push("__global__", DirectoryEntry::new("g", "g"));
    entries.push("0_0", DirectoryEntry::new("a", "0_0/a"));
    entries.push("1_0", DirectoryEntry::new("c", "1_0/c"));
    let directory = module.build_directory(&entries);
    let keys: Vec<&str> = directory.iter().map(|g| g.0.as_str()).collect();
    assert_eq!(keys, vec!["0_0", "1_0"]);
    assert_eq!(directory[1].1[1].name, "c");
    assert_eq!(directory[1].1[1].number, 1);
}

#[test]
fn test_missing_file() {
    let ctx = context(vec![], false);
    let entries = ctx.read_jsonl(IntermediateFileType::Guards).ok().unwrap();
    assert!(entries.is_empty());
}

#[test]
fn test_read_jsonl() {
    let ctx = context(
        vec![(
            IntermediateFileType::Graphs,
            vec![
                rec("dynamo_output_graph", Some("0_0"), obj(vec![]), Some("graph content")),
                rec("dynamo_output_graph", Some("0_1"), obj(vec![]), Some("graph content 2")),
            ],
        )],
        false,
    );
    let entries = ctx.read_jsonl(IntermediateFileType::Graphs).ok().unwrap();
    assert_eq!(entries.len(), 2);
    assert_eq!(entries[0].compile_id, Some("0_0".to_string()));
    assert_eq!(entries[1].compile_id, Some("0_1".to_string()));
}

#[test]
fn test_get_entries_for_compile() {
    let ctx = context(
        vec![(
            IntermediateFileType::Graphs,
            vec![
                rec("dynamo_output_graph", Some("0_0"), obj(vec![]), Some("graph1")),
                rec("dynamo_output_graph", Some("0_1"), obj(vec![]), Some("graph2")),
            ],
        )],
        false,
    );
    let entries = ctx.get_entries_for_compile(IntermediateFileType::Graphs, "0_0").ok().unwrap();
    assert_eq!(entries.len(), 1);
    assert_eq!(entries[0].payload, Some("graph1".to_string()));
    let by_type = ctx.get_entries_by_type(IntermediateFileType::Graphs, "dynamo_output_graph").ok().unwrap();
    assert_eq!(by_type.len(), 2);
    assert!(ctx.has_entries(IntermediateFileType::Graphs));
    assert!(!ctx.has_entries(IntermediateFileType::Guards));
    assert_eq!(ctx.compile_ids().len(), 2);
}

#[test]
fn failed_read_fails_only_the_modules_that_read_it() {
    let mut ctx = context(vec![], false);
    ctx.set_stream(IntermediateFileType::Guards, CategoryRead::Failed("bad line 3".to_string()));
    assert!(GuardsModule::new(false).render(&ctx).is_err());
    assert!(CacheModule::new().render(&ctx).is_ok());
}

#[test]
fn test_process_graphs() {
    let ctx = context(
        vec![(
            IntermediateFileType::Graphs,
            vec![rec("dynamo_output_graph", Some("0_0"), obj(vec![]), Some("class GraphModule(nn.Module):..."))],
        )],
        false,
    );
    let output = CompileArtifactsModule::new(false).render(&ctx).ok().unwrap();
    assert_eq!(output.files.len(), 1);
    assert_eq!(path_of(&output, 0), "0_0/dynamo_output_graph.txt");
}

#[test]
fn artifacts_dump_files_and_links() {
    let ctx = context(
        vec![(
            IntermediateFileType::Artifacts,
            vec![
                rec("artifact", Some("0_0"), obj(vec![("name", s("fx_graph")), ("encoding", s("string"))]), Some("x")),
                rec("dump_file", None, obj(vec![("name", s("eval_with_key_3"))]), Some("a < b")),
                rec("link", Some("0_0"), obj(vec![("name", s("docs")), ("url", s("https://example.org"))]), None),
            ],
        )],
        false,
    );
    let output = CompileArtifactsModule::new(false).render(&ctx).ok().unwrap();
    assert_eq!(path_of(&output, 0), "0_0/fx_graph.txt");
    assert_eq!(output.files[0].1, "x");
    assert_eq!(path_of(&output, 1), "dump_file/eval_with_key_3.html");
    assert!(output.files[1].1.contains("a &lt; b"));
    let global = output.directory_entries.get("__global__");
    assert_eq!(global.len(), 1);
    let unit = output.directory_entries.get("0_0");
    assert_eq!(unit.len(), 2);
    assert_eq!(unit[1].url, "https://example.org");
}

#[test]
fn json_artifacts_are_pretty_printed() {
    let ctx = context(
        vec![(
            IntermediateFileType::Artifacts,
            vec![rec("artifact", Some("0_0"), obj(vec![("name", s("cfg")), ("encoding", s("json"))]), Some("{\"a\":1}"))],
        )],
        false,
    );
    let output = CompileArtifactsModule::new(false).render(&ctx).ok().unwrap();
    assert_eq!(path_of(&output, 0), "0_0/cfg.json");
    assert_eq!(output.files[0].1, "{\n  \"a\": 1\n}");
}

#[test]
fn test_cache_module_hit() {
    let ctx = context(
        vec![(
            IntermediateFileType::Artifacts,
            vec![rec(
                "artifact",
                Some("0_0"),
                obj(vec![("name", s("cache_hit_abc123")), ("encoding", s("string"))]),
                Some("cache hit data"),
            )],
        )],
        false,
    );
    let output = CacheModule::new().render(&ctx).ok().unwrap();
    assert_eq!(output.files.len(), 1);
    assert!(path_of(&output, 0).contains("cache_hit"));
    let entries = output.directory_entries.get("0_0");
    assert_eq!(entries[0].suffix, "✅");
    let contribution = output.index_contribution.unwrap();
    assert!(contribution.html.contains("1 hit"));
}

#[test]
fn test_cache_module_miss() {
    let ctx = context(
        vec![(
            IntermediateFileType::Artifacts,
            vec![rec(
                "artifact",
                Some("0_0"),
                obj(vec![("name", s("cache_miss_def456")), ("encoding", s("string"))]),
                Some("cache miss data"),
            )],
        )],
        false,
    );
    let output = CacheModule::new().render(&ctx).ok().unwrap();
    let entries = output.directory_entries.get("0_0");
    assert_eq!(entries[0].suffix, "❌");
}

#[test]
fn test_empty_cache() {
    let ctx = context(vec![(IntermediateFileType::Artifacts, vec![])], false);
    let output = CacheModule::new().render(&ctx).ok().unwrap();
    assert!(output.files.is_empty());
    assert!(output.index_contribution.is_none());
}

#[test]
fn cache_artifact_goes_to_the_cache_renderer_only() {
    let records = vec![
        rec("artifact", Some("0_0"), obj(vec![("name", s("cache_hit_abc")), ("encoding", s("string"))]), Some("hit")),
        rec("artifact", Some("0_0"), obj(vec![("name", s("plain")), ("encoding", s("string"))]), Some("p")),
    ];
    let ctx = context(vec![(IntermediateFileType::Artifacts, records)], false);
    let cache = CacheModule::new().render(&ctx).ok().unwrap();
    assert_eq!(cache.files.len(), 1);
    assert_eq!(path_of(&cache, 0), "0_0/cache_hit_abc.txt");
    assert_eq!(cache.directory_entries.get("0_0")[0].suffix, "✅");
    let summary = cache.index_contribution.unwrap();
    assert_eq!(summary.section, "Cache Status");
    assert!(summary.html.contains("✅ 1 hit(s)"));
    assert!(summary.html.contains("(1 total)"));
    let generic = CompileArtifactsModule::new(false).render(&ctx).ok().unwrap();
    assert_eq!(generic.files.len(), 1);
    assert_eq!(path_of(&generic, 0), "0_0/plain.txt");
    assert!(generic.files.iter().all(|(p, _)| !p.contains("cache_hit")));
}

#[test]
fn test_guards_module() {
    let ctx = context(
        vec![(
            IntermediateFileType::Guards,
            vec![rec(
                "dynamo_guards",
                Some("0_0"),
                obj(vec![]),
                Some("[{\"code\":\"x.size(0) == 10\",\"type\":\"SHAPE_ENV\"}]"),
            )],
        )],
        false,
    );
    let output = GuardsModule::new(false).render(&ctx).ok().unwrap();
    assert_eq!(output.files.len(), 1);
    assert_eq!(path_of(&output, 0), "0_0/dynamo_guards.html");
    assert!(output.files[0].1.contains("x.size(0) == 10"));
    assert!(output.files[0].1.contains("1 guards"));
}

#[test]
fn test_cpp_guards_str() {
    let ctx = context(
        vec![(
            IntermediateFileType::Codegen,
            vec![rec("dynamo_cpp_guards_str", Some("0_0"), obj(vec![]), Some("// CPP guard code here"))],
        )],
        false,
    );
    let output = GuardsModule::new(false).render(&ctx).ok().unwrap();
    assert_eq!(output.files.len(), 1);
    assert_eq!(path_of(&output, 0), "0_0/dynamo_cpp_guards_str.txt");
    assert!(output.files[0].1.contains("CPP guard code"));
}

#[test]
fn test_compilation_metrics_module() {
    let ctx = context(
        vec![(
            IntermediateFileType::CompilationMetrics,
            vec![rec(
                "compilation_metrics",
                Some("0_0"),
                obj(vec![
                    ("co_name", s("forward")),
                    ("entire_frame_compile_time_s", JsonValue::Number(JsonNumber::Decimal("1.5".to_string()))),
                ]),
                None,
            )],
        )],
        false,
    );
    let output = CompilationMetricsModule::new(false).render(&ctx).ok().unwrap();
    assert_eq!(output.files.len(), 1);
    assert!(path_of(&output, 0).contains("compilation_metrics.html"));
    assert!(output.files[0].1.contains("forward"));
    assert!(output.files[0].1.contains("<tr><th>Total Compile Time</th><td>1.5s</td></tr>"));
    assert!(output.index_contribution.is_none());
}

#[test]
fn test_failure_tracking() {
    let ctx = context(
        vec![(
            IntermediateFileType::CompilationMetrics,
            vec![rec(
                "compilation_metrics",
                Some("0_0"),
                obj(vec![("co_name", s("forward")), ("fail_type", s("graph_break")), ("fail_reason", s("unsupported op"))]),
                None,
            )],
        )],
        false,
    );
    let output = CompilationMetricsModule::new(false).render(&ctx).ok().unwrap();
    assert_eq!(output.files.len(), 2);
    assert!(output.files.iter().any(|(p, _)| p.contains("failures_and_restarts")));
    assert!(output.index_contribution.is_some());
}

#[test]
fn test_export_module_with_failures() {
    let ctx = context(
        vec![(
            IntermediateFileType::Export,
            vec![rec(
                "missing_fake_kernel",
                None,
                obj(vec![("op", s("my_custom_op")), ("reason", s("No fake kernel registered"))]),
                None,
            )],
        )],
        true,
    );
    let output = ExportModule::new().render(&ctx).ok().unwrap();
    assert_eq!(output.files.len(), 1);
    assert_eq!(path_of(&output, 0), "index.html");
    assert!(output.files[0].1.contains("missing_fake_kernel"));
    assert!(output.files[0].1.contains("my_custom_op"));
    assert!(output.index_contribution.unwrap().html.contains("1 export failure(s)"));
}

#[test]
fn test_export_module_not_in_export_mode() {
    let ctx = context(vec![(IntermediateFileType::Export, vec![])], false);
    let output = ExportModule::new().render(&ctx).ok().unwrap();
    assert!(output.files.is_empty());
}

#[test]
fn test_export_module_with_exported_program() {
    let ctx = context(
        vec![(
            IntermediateFileType::Export,
            vec![rec("exported_program", None, obj(vec![]), Some("class ExportedModule(torch.nn.Module):..."))],
        )],
        true,
    );
    let output = ExportModule::new().render(&ctx).ok().unwrap();
    assert_eq!(output.files.len(), 1);
    assert!(output.files[0].1.contains("ExportedModule"));
    assert!(output.files[0].1.contains("Export successful"));
}

#[test]
fn test_chromium_trace_module_with_events() {
    let mut ctx = context(vec![], false);
    ctx.set_chromium_events(Ok(vec![
        "{\"name\":\"compile\",\"ph\":\"B\",\"ts\":1000,\"pid\":1,\"tid\":1}".to_string(),
        "{\"name\":\"compile\",\"ph\":\"E\",\"ts\":2000,\"pid\":1,\"tid\":1}".to_string(),
    ]));
    let output = ChromiumTraceModule::new().render(&ctx).ok().unwrap();
    assert_eq!(output.files.len(), 1);
    assert_eq!(path_of(&output, 0), "chromium_events.json");
    assert!(output.files[0].1.contains("\"ts\": 2000"));
    assert!(output.index_contribution.is_some());
}

#[test]
fn test_chromium_trace_module_empty() {
    let ctx = context(vec![], false);
    let output = ChromiumTraceModule::new().render(&ctx).ok().unwrap();
    assert!(output.files.is_empty());
    assert!(output.index_contribution.is_none());
}

#[test]
fn test_compile_directory_module() {
    let ctx = context(
        vec![(
            IntermediateFileType::Graphs,
            vec![rec("dynamo_output_graph", Some("0_0"), obj(vec![]), Some("graph"))],
        )],
        false,
    );
    let output = CompileDirectoryModule::new().render(&ctx).ok().unwrap();
    assert_eq!(output.files.len(), 1);
    assert_eq!(path_of(&output, 0), "compile_directory.json");
    let json = &output.files[0].1;
    assert!(json.contains("\"0_0\": {"));
    assert!(json.contains("\"display_name\": \"0/0\""));
    assert!(json.contains("\"name\": \"dynamo_output_graph.txt\""));
}

#[test]
fn compile_directory_status_and_order() {
    let ctx = context(
        vec![
            (
                IntermediateFileType::Guards,
                vec![rec("dynamo_guards", Some("0_0"), obj(vec![]), None)],
            ),
            (
                IntermediateFileType::CompilationMetrics,
                vec![
                    rec("compilation_metrics", Some("0_0"), obj(vec![("fail_type", s("x"))]), None),
                    rec("compilation_metrics", Some("0_1"), obj(vec![]), None),
                ],
            ),
        ],
        false,
    );
    let output = CompileDirectoryModule::new().render(&ctx).ok().unwrap();
    let expected = "{\n  \"0_0\": {\n    \"display_name\": \"0/0\",\n    \"status\": \"failure\",\n    \"artifacts\": [\n      {\n        \"name\": \"compilation_metrics.html\",\n        \"type\": \"metrics\"\n      },\n      {\n        \"name\": \"dynamo_guards.html\",\n        \"type\": \"guards\"\n      }\n    ],\n    \"links\": []\n  },\n  \"0_1\": {\n    \"display_name\": \"0/1\",\n    \"status\": \"success\",\n    \"artifacts\": [\n      {\n        \"name\": \"compilation_metrics.html\",\n        \"type\": \"metrics\"\n      }\n    ],\n    \"links\": []\n  }\n}";
    assert_eq!(output.files[0].1, expected);
}

#[test]
fn test_symbolic_shapes_module() {
    let ctx = context(
        vec![(
            IntermediateFileType::Guards,
            vec![rec(
                "guard_added",
                Some("0_0"),
                obj(vec![("expr", s("s0 == 10")), ("user_stack", JsonValue::Array(vec![s("frame1"), s("frame2")]))]),
                None,
            )],
        )],
        false,
    );
    let output = SymbolicShapesModule::new().render(&ctx).ok().unwrap();
    assert_eq!(output.files.len(), 1);
    assert!(path_of(&output, 0).contains("symbolic_guard_information"));
    assert_eq!(path_of(&output, 0), "0_0/symbolic_guard_information_0.html");
    assert!(output.files[0].1.contains("s0 == 10"));
    assert!(output.files[0].1.contains("frame1\nframe2\n"));
}

#[test]
fn test_empty_guards() {
    let ctx = context(vec![(IntermediateFileType::Guards, vec![])], false);
    let output = SymbolicShapesModule::new().render(&ctx).ok().unwrap();
    assert!(output.files.is_empty());
}

#[test]
fn merge_concatenates_and_appends_per_key() {
    let mut combined = CombinedOutput::new();
    let mut first = DirectoryEntries::new();
    first.push("0_0", DirectoryEntry::new("a", "0_0/a"));
    combined.merge(ModuleOutput {
        files: vec![("a".to_string(), "1".to_string())],
        directory_entries: first,
        index_contribution: Some(IndexContribution { section: "S".to_string(), html: "h".to_string() }),
    });
    let mut second = DirectoryEntries::new();
    second.push("0_0", DirectoryEntry::new("b", "0_0/b"));
    combined.merge(ModuleOutput { files: vec![("b".to_string(), "2".to_string())], directory_entries: second, index_contribution: None });
    assert_eq!(combined.files.len(), 2);
    let under = combined.directory_entries.get("0_0");
    assert_eq!(under.len(), 2);
    assert_eq!(under[1].name, "b");
    assert_eq!(combined.index_contributions.len(), 1);
}

#[test]
fn failing_module_leaves_the_others_output() {
    let mut registry = ModuleRegistry::new();
    registry.register(Box::new(TestModule));
    registry.register(Box::new(FailingModule));
    registry.register(Box::new(TestModule));
    let ctx = context(vec![], false);
    let combined = registry.render_all(&ctx);
    assert_eq!(combined.files.len(), 2);
    assert_eq!(combined.failures.len(), 1);
    assert_eq!(combined.failures[0].module_name, "Failing Module");
    assert_eq!(combined.failures[0].message, "broken");
}

#[test]
fn registries_hold_their_modules() {
    let config = ModuleConfig::default();
    let names: Vec<&str> = ModuleRegistry::with_defaults(&config).modules().iter().map(|m| m.name()).collect();
    assert_eq!(
        names,
        vec!["Compile Artifacts", "Dynamo Guards", "Cache", "Compilation Metrics", "Chromium Trace", "Symbolic Shapes", "Stack Trie", "Compile Directory"]
    );
    let export: Vec<&str> = ModuleRegistry::for_export_mode(&config).modules().iter().map(|m| m.id()).collect();
    assert_eq!(export, vec!["export", "symbolic_shapes"]);
    let stack = StackTrieModule::new();
    assert_eq!(stack.id(), "stack_trie");
}

#[test]
fn generated_code_is_named_after_its_source_file() {
    let ctx = context(
        vec![(
            IntermediateFileType::Codegen,
            vec![
                rec("inductor_output_code", Some("0_0"), obj(vec![("filename", s("/tmp/cache/abc123.py"))]), Some("def call(): pass")),
                rec("inductor_output_code", Some("0_1"), obj(vec![]), Some("x")),
                rec("dynamo_cpp_guards_str", Some("0_0"), obj(vec![]), Some("guards")),
            ],
        )],
        false,
    );
    let output = CompileArtifactsModule::new(false).render(&ctx).ok().unwrap();
    assert_eq!(output.files.len(), 2);
    assert_eq!(path_of(&output, 0), "0_0/inductor_output_code_abc123.txt");
    assert_eq!(output.files[0].1, "def call(): pass");
    assert_eq!(path_of(&output, 1), "0_1/inductor_output_code.txt");
}

#[test]
fn graph_file_names_follow_the_record_type() {
    let ctx = context(
        vec![(
            IntermediateFileType::Graphs,
            vec![
                rec("optimize_ddp_split_child", Some("0_0"), obj(vec![("name", s("submod_0"))]), None),
                rec("graph_dump", None, obj(vec![]), Some("g")),
            ],
        )],
        false,
    );
    let output = CompileArtifactsModule::new(false).render(&ctx).ok().unwrap();
    assert_eq!(path_of(&output, 0), "0_0/optimize_ddp_split_child_submod_0.txt");
    assert_eq!(output.files[0].1, "");
    assert_eq!(path_of(&output, 1), "unknown/graph_dump.txt");
}

#[test]
fn records_group_by_compile_id_in_first_appearance_order() {
    let ctx = context(
        vec![(
            IntermediateFileType::Graphs,
            vec![
                rec("dynamo_output_graph", Some("0_1"), obj(vec![]), Some("a")),
                rec("dynamo_output_graph", None, obj(vec![]), Some("b")),
                rec("dynamo_output_graph", Some("0_0"), obj(vec![]), Some("c")),
                rec("dynamo_output_graph", Some("0_1"), obj(vec![]), Some("d")),
            ],
        )],
        false,
    );
    let groups = ctx.group_by_compile_id(IntermediateFileType::Graphs).ok().unwrap();
    let keys: Vec<Option<&str>> = groups.iter().map(|g| g.0.as_deref()).collect();
    assert_eq!(keys, vec![Some("0_1"), None, Some("0_0")]);
    let first: Vec<&str> = groups[0].1.iter().map(|e| e.payload.as_deref().unwrap()).collect();
    assert_eq!(first, vec!["a", "d"]);
}

#[test]
fn directory_json_escapes_strings() {
    let ctx = context(
        vec![(
            IntermediateFileType::Artifacts,
            vec![rec("link", Some("0_0"), obj(vec![("name", s("a \"q\"\n\u{1}")), ("url", s("u\\v"))]), None)],
        )],
        false,
    );
    let output = CompileDirectoryModule::new().render(&ctx).ok().unwrap();
    assert!(output.files[0].1.contains("\"name\": \"a \\\"q\\\"\\n\\u0001\""));
    assert!(output.files[0].1.contains("\"url\": \"u\\\\v\""));
}

#[test]
fn any_non_null_failure_type_counts_as_a_failure() {
    let ctx = context(
        vec![(
            IntermediateFileType::CompilationMetrics,
            vec![
                rec("compilation_metrics", Some("0_0"), obj(vec![("fail_type", JsonValue::Number(JsonNumber::Unsigned(7)))]), None),
                rec("compilation_metrics", Some("0_1"), obj(vec![("fail_type", JsonValue::Null)]), None),
            ],
        )],
        false,
    );
    let output = CompilationMetricsModule::new(false).render(&ctx).ok().unwrap();
    assert_eq!(output.files.len(), 3);
    assert!(output.files[0].1.contains("Compilation Failed"));
    assert!(output.files[0].1.contains("<tr><th>Failure Type</th><td>7</td></tr>"));
    assert!(output.files[1].1.contains("Compilation Successful"));
    assert!(output.files[2].1.contains("Found 1 failure(s)"));
}
