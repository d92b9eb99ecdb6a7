use typeweld::gen::symbols::{GraphPosition, GraphRange, SymbolMetadata};
use typeweld::lint::{LintEndpointSummary, UsageLintLevel};
use typeweld::ls::config::{
    absolutize_from, backend_command_label, generated_file_path, required_backend_error, resolve_workspace_config,
    workspace_log_file, ApiLsConfig, BackendCommand, WorkspaceConfig,
};
use typeweld::ls::diagnostics::{
    dedupe_locations, diagnostics_to_publish, LsUsageIndex, RawLocation, UNUSED_ENDPOINT_CODE,
};
use typeweld::ls::gateway::{
    backend_client_id, no_handler_message, parse_header_line, plan_backend_message, plan_method_message, plan_query_reply, route_backend,
    route_defined, should_finish, uri_is_decodable, BackendKind, BackendPlan, HeaderLine, MethodPlan, PendingShutdown, QueryReply,
};
use typeweld::ls::graph::{
    validate_rename_name, Definition, LsLocation, LsSymbol, LsSymbolGraph, TextPositionQuery,
};
use typeweld::ls::paths::{components, file_uri_to_path, is_typescript_uri, percent_decode, same_uri};

fn pos(line: u32, character: u32) -> GraphPosition {
    GraphPosition { line, character }
}

fn range(sl: u32, sc: u32, el: u32, ec: u32) -> GraphRange {
    GraphRange { start: pos(sl, sc), end: pos(el, ec) }
}

fn uri_location(uri: &str, r: GraphRange, generated: bool) -> LsLocation {
    LsLocation { uri: Some(uri.to_owned()), file: None, range: r, generated, renamable: None }
}

fn workspace(root: &str, level: UsageLintLevel) -> WorkspaceConfig {
    let mut config = ApiLsConfig::default();
    config.unused_endpoint_lints = level;
    resolve_workspace_config(root.to_owned(), None, config)
}

fn query(uri: &str, line: u32, character: u32, include_declaration: bool) -> TextPositionQuery {
    TextPositionQuery { uri: uri.to_owned(), position: pos(line, character), include_declaration }
}

fn get_user_graph() -> LsSymbolGraph {
    let metadata = SymbolMetadata {
        method: Some("GET".to_owned()),
        route: Some("/users/{id}".to_owned()),
        effect_signature: Some("Effect.Effect<User, ApiClientError | GetUserError, ServerApi>".to_owned()),
        errors: vec!["GetUserError".to_owned()],
        rust_path: vec!["crate".to_owned(), "get_user".to_owned()],
        ts_path: vec!["users".to_owned(), "getUser".to_owned()],
        usage_count: Some(1),
        allow_unused: false,
        rename_placeholder: None,
        reserved_names: vec!["deleteUser".to_owned()],
    };
    LsSymbolGraph {
        contract_hash: Some("test-contract".to_owned()),
        contract_hashes: vec![],
        symbols: vec![LsSymbol {
            id: "endpoint:get_user".to_owned(),
            kind: "endpoint".to_owned(),
            rust: LsLocation { uri: None, file: Some("src/lib.rs".to_owned()), range: range(10, 7, 10, 15), generated: false, renamable: None },
            typescript: vec![
                uri_location("file:///work/target/api-contract/effect-v4/packages/endpoints.ts", range(17, 15, 17, 22), true),
                uri_location("file:///work/client/use-api.ts", range(11, 10, 11, 17), false),
            ],
            metadata,
        }],
    }
}

#[test]
fn percent_decoding_reads_escapes_byte_by_byte() {
    assert_eq!(percent_decode("plain/path.rs"), "plain/path.rs");
    assert_eq!(percent_decode("a%20b"), "a b");
    assert_eq!(percent_decode("%41%42"), "AB");
    assert_eq!(percent_decode("100%"), "100%");
    assert_eq!(percent_decode("%zz"), "%zz");
    assert_eq!(percent_decode("%+9x"), "\u{9}x");
    assert_eq!(file_uri_to_path("file:///my%20dir/a.rs"), Some("/my dir/a.rs".to_owned()));
    assert_eq!(file_uri_to_path("untitled:a.rs"), None);
}

#[test]
fn paths_compare_by_components() {
    assert_eq!(components("/a//b/./c/"), vec!["/", "a", "b", "c"]);
    assert_eq!(components("./a"), vec![".", "a"]);
    assert!(same_uri("file:///a//b", "file:///a/b"));
    assert!(same_uri("file:///a%20b", "file:///a b"));
    assert!(!same_uri("file:///a/b", "file:///a/c"));
    assert!(same_uri("untitled:x", "untitled:x"));
    assert!(!same_uri("untitled:x", "file:///x"));
}

#[test]
fn typescript_uris_are_recognized_by_extension() {
    assert!(is_typescript_uri("file:///a/client.ts"));
    assert!(is_typescript_uri("file:///a/view.tsx"));
    assert!(is_typescript_uri("file:///a/util.cjs"));
    assert!(!is_typescript_uri("file:///a/lib.rs"));
    assert!(!is_typescript_uri("untitled:client.ts"));
}

#[test]
fn default_config_names_backends_and_cache_paths() {
    let config = ApiLsConfig::default();
    assert_eq!(config.rust_analyzer.command, "rust-analyzer");
    assert!(config.rust_analyzer.args.is_empty());
    assert_eq!(config.typescript.command, "typescript-language-server");
    assert_eq!(config.typescript.args, vec!["--stdio".to_owned()]);
    assert_eq!(config.effect_language_service_plugin.as_deref(), Some("@effect/language-service"));
    assert_eq!(config.unused_endpoint_lints, UsageLintLevel::Warn);
    assert_eq!(config.log_file, None);
}

#[test]
fn workspace_paths_resolve_from_root() {
    let mut config = ApiLsConfig::default();
    config.generated_cache_dir = "target/custom-cache".to_owned();
    config.symbol_graph = "/abs/symbols.json".to_owned();
    config.log_file = Some("target/api-ls.log".to_owned());
    let w = resolve_workspace_config("/work".to_owned(), Some("/work/.api-ls.json".to_owned()), config);
    assert_eq!(w.generated_cache_dir, "/work/target/custom-cache");
    assert_eq!(w.symbol_graph, "/abs/symbols.json");
    assert_eq!(w.usage_index, "/work/target/api-contract/graph/effect-usage-index.json");
    assert_eq!(workspace_log_file(&w), Some("/work/target/api-ls.log".to_owned()));
    assert_eq!(absolutize_from("/work/", "a"), "/work/a");
}

#[test]
fn backend_commands_are_labelled_for_errors() {
    let empty = BackendCommand::default();
    assert_eq!(backend_command_label(&empty), "<empty command>");
    let ts = BackendCommand { command: "python3".to_owned(), args: vec!["mock.py".to_owned(), "--stdio".to_owned()] };
    assert_eq!(backend_command_label(&ts), "python3 mock.py --stdio");
    let message = required_backend_error("rust-analyzer", &empty, "backend command is empty");
    assert!(message.contains("requires the rust-analyzer backend"));
    assert!(message.contains("configured command: <empty command>"));
    assert!(message.contains("update `.api-ls.json`"));
}

#[test]
fn generated_files_must_stay_inside_the_cache() {
    let w = workspace("/work", UsageLintLevel::Warn);
    let cache = "/work/target/api-contract/effect-v4/packages";
    assert_eq!(generated_file_path(None, Some("index.ts"), &w), Some(format!("{cache}/index.ts")));
    assert_eq!(
        generated_file_path(Some("file:///work/target/api-contract/effect-v4/packages/a.ts"), None, &w),
        Some(format!("{cache}/a.ts"))
    );
    assert_eq!(generated_file_path(None, Some("/etc/passwd"), &w), None);
    assert_eq!(generated_file_path(None, None, &w), None);
}

#[test]
fn messages_route_to_the_backend_their_documents_belong_to() {
    let w = Some(workspace("/work", UsageLintLevel::Warn));
    let rs = vec!["file:///work/src/lib.rs".to_owned()];
    let ts = vec!["file:///work/client.ts".to_owned()];
    let generated = vec!["file:///work/target/api-contract/effect-v4/packages/index.d".to_owned()];
    assert_eq!(route_backend(&w, "textDocument/hover", &rs), Some(BackendKind::Rust));
    assert_eq!(route_backend(&w, "textDocument/hover", &ts), Some(BackendKind::TypeScript));
    assert_eq!(route_backend(&w, "textDocument/hover", &generated), Some(BackendKind::TypeScript));
    assert_eq!(route_backend(&None, "textDocument/hover", &generated), None);
    assert_eq!(route_backend(&w, "rust-analyzer/expandMacro", &vec![]), Some(BackendKind::Rust));
    assert_eq!(route_backend(&w, "typescript/organize", &vec![]), Some(BackendKind::TypeScript));
    assert_eq!(route_backend(&w, "workspace/symbol", &vec![]), None);
    assert!(uri_is_decodable("file:///a%20b"));
}

#[test]
fn client_methods_are_planned() {
    assert_eq!(plan_method_message("initialize", true, None), MethodPlan::Initialize);
    assert_eq!(plan_method_message("initialize", false, None), MethodPlan::Ignore);
    assert_eq!(plan_method_message("initialized", false, None), MethodPlan::Initialized);
    assert_eq!(plan_method_message("shutdown", true, None), MethodPlan::BeginShutdown);
    assert_eq!(plan_method_message("exit", false, None), MethodPlan::Exit);
    assert_eq!(plan_method_message("textDocument/rename", true, Some(BackendKind::Rust)), MethodPlan::Rename);
    assert_eq!(
        plan_method_message("textDocument/completion", true, Some(BackendKind::TypeScript)),
        MethodPlan::Forward(BackendKind::TypeScript)
    );
    assert_eq!(plan_method_message("workspace/symbol", true, None), MethodPlan::NoHandler);
    assert_eq!(plan_method_message("textDocument/didOpen", false, Some(BackendKind::Rust)), MethodPlan::Notify(BackendKind::Rust));
    assert_eq!(plan_method_message("workspace/didChangeConfiguration", false, None), MethodPlan::NotifyAll);
    assert_eq!(no_handler_message("workspace/symbol"), "api-ls has no handler for `workspace/symbol` yet");
    assert_eq!(plan_query_reply(true, None), QueryReply::FromGraph);
    assert_eq!(plan_query_reply(false, Some(BackendKind::Rust)), QueryReply::Forward(BackendKind::Rust));
    assert_eq!(plan_query_reply(false, None), QueryReply::Default);
}

#[test]
fn backend_messages_are_relayed() {
    assert_eq!(plan_backend_message(Some("workspace/configuration"), true), BackendPlan::RequestToClient);
    assert_eq!(plan_backend_message(Some("$/cancelRequest"), false), BackendPlan::Cancel);
    assert_eq!(plan_backend_message(Some("textDocument/publishDiagnostics"), false), BackendPlan::Emit);
    assert_eq!(plan_backend_message(None, true), BackendPlan::Response);
    assert_eq!(plan_backend_message(None, false), BackendPlan::Ignore);
    assert_eq!(backend_client_id(BackendKind::TypeScript, 7), "api-ls:typescript-effect:7");
}

#[test]
fn shutdown_waits_for_every_running_backend() {
    assert_eq!(PendingShutdown::begin(false, false), None);
    let mut pending = PendingShutdown::begin(true, true).expect("backends running");
    assert!(!pending.finish(BackendKind::Rust));
    assert!(pending.finish(BackendKind::TypeScript));
    assert!(should_finish(true, false, false, true));
    assert!(!should_finish(true, true, false, false));
    assert!(should_finish(false, false, true, false));
    assert!(!should_finish(false, false, true, true));
}

#[test]
fn redirects_definitions_across_languages() {
    let graph = get_user_graph();
    match graph.definition(&query("file:///work/src/lib.rs", 10, 9, false), "/work") {
        Some(Definition::Many(locations)) => {
            assert_eq!(locations.len(), 1);
            assert_eq!(locations[0].uri, "file:///work/client/use-api.ts");
        }
        other => panic!("unexpected definition {other:?}"),
    }
    match graph.definition(
        &query("file:///work/target/api-contract/effect-v4/packages/endpoints.ts", 17, 18, false),
        "/work",
    ) {
        Some(Definition::One(location)) => {
            assert_eq!(location.uri, "file:///work/src/lib.rs");
            assert_eq!(location.range, range(10, 7, 10, 15));
        }
        other => panic!("unexpected definition {other:?}"),
    }
    assert_eq!(graph.definition(&query("file:///work/src/lib.rs", 3, 0, false), "/work"), None);
}

#[test]
fn references_merge_rust_and_typescript_locations() {
    let graph = get_user_graph();
    let from_rust = graph.references(&query("file:///work/src/lib.rs", 10, 9, false), "/work").expect("known");
    assert_eq!(from_rust.len(), 1);
    let with_declaration = graph.references(&query("file:///work/src/lib.rs", 10, 9, true), "/work").expect("known");
    assert_eq!(with_declaration.len(), 2);
    assert_eq!(with_declaration[0].uri, "file:///work/src/lib.rs");
    let from_ts = graph.references(&query("file:///work/client/use-api.ts", 11, 12, false), "/work").expect("known");
    assert_eq!(from_ts.len(), 2);
}

#[test]
fn hover_shows_api_metadata() {
    let graph = get_user_graph();
    let hover = graph.hover(&query("file:///work/client/use-api.ts", 11, 12, false), "/work").expect("hover");
    assert_eq!(hover.range, range(11, 10, 11, 17));
    assert!(hover.markdown.starts_with("**API endpoint** `endpoint:get_user`"));
    assert!(hover.markdown.contains("Route: `GET /users/{id}`"));
    assert!(hover.markdown.contains("Effect: `Effect.Effect<User, ApiClientError | GetUserError, ServerApi>`"));
    assert!(hover.markdown.contains("Errors: `GetUserError`"));
    assert!(hover.markdown.contains("Rust: `crate::get_user`"));
    assert!(hover.markdown.contains("TypeScript: `users.getUser`"));
    assert!(hover.markdown.ends_with("Usage count: `1`"));
}

#[test]
fn rename_edits_every_renamable_location() {
    let graph = get_user_graph();
    let q = query("file:///work/src/lib.rs", 10, 9, false);
    let prepared = graph.prepare_rename(&q, "/work").expect("renamable");
    assert_eq!(prepared.placeholder, "getUser");
    assert_eq!(prepared.range, range(10, 7, 10, 15));
    let edit = graph.rename(&q, "fetchUser", "/work").expect("valid").expect("known");
    assert_eq!(edit.len(), 2);
    assert_eq!(edit[0].0, "file:///work/src/lib.rs");
    assert_eq!(edit[1].0, "file:///work/client/use-api.ts");
    assert_eq!(edit[1].1, vec![range(11, 10, 11, 17)]);
    let conflict = graph.rename(&q, "deleteUser", "/work").expect_err("conflict");
    assert_eq!(conflict, "rename `deleteUser` conflicts with an existing API symbol");
    let generated = query("file:///work/target/api-contract/effect-v4/packages/endpoints.ts", 17, 18, false);
    assert_eq!(graph.rename(&generated, "fetchUser", "/work"), Ok(None));
}

#[test]
fn rename_targets_must_be_identifiers() {
    assert_eq!(validate_rename_name("fetch_user2"), Ok(()));
    assert_eq!(validate_rename_name(""), Err("rename target cannot be empty".to_owned()));
    assert_eq!(
        validate_rename_name("2fast"),
        Err("rename target `2fast` must start with a letter or underscore".to_owned())
    );
    assert_eq!(
        validate_rename_name("get-user"),
        Err("rename target `get-user` must be a Rust/TypeScript identifier".to_owned())
    );
}

fn unused_workspace_graph() -> LsSymbolGraph {
    let endpoint = |id: &str, line: u32, method: &str, route: &str, ts: [&str; 2], allow_unused: bool| LsSymbol {
        id: id.to_owned(),
        kind: "endpoint".to_owned(),
        rust: uri_location("file:///work/src/lib.rs", range(line, 0, line, 5), false),
        typescript: vec![],
        metadata: SymbolMetadata {
            method: Some(method.to_owned()),
            route: Some(route.to_owned()),
            ts_path: ts.iter().map(|s| s.to_string()).collect(),
            allow_unused,
            ..SymbolMetadata::default()
        },
    };
    LsSymbolGraph {
        contract_hash: Some("test-contract".to_owned()),
        contract_hashes: vec![],
        symbols: vec![
            endpoint("endpoint:unused", 10, "GET", "/unused", ["api", "unused"], false),
            endpoint("endpoint:used", 20, "GET", "/used", ["api", "used"], false),
            endpoint("endpoint:allowed", 30, "POST", "/admin/reindex", ["admin", "reindex"], true),
        ],
    }
}

fn usage_index() -> LsUsageIndex {
    LsUsageIndex {
        schema_version: 2,
        contract_hash: "test-contract".to_owned(),
        endpoints: vec![
            LintEndpointSummary { endpoint_id: "endpoint:unused".to_owned(), strong: 0 },
            LintEndpointSummary { endpoint_id: "endpoint:used".to_owned(), strong: 1 },
            LintEndpointSummary { endpoint_id: "endpoint:allowed".to_owned(), strong: 0 },
        ],
    }
}

#[test]
fn publishes_unused_endpoint_diagnostics_from_usage_index() {
    let w = workspace("/work", UsageLintLevel::Warn);
    let graph = unused_workspace_graph();
    let index = usage_index();
    let published = diagnostics_to_publish(&w, Some(&graph), Some(&index));
    assert_eq!(published.len(), 1);
    assert_eq!(published[0].0, "file:///work/src/lib.rs");
    let diagnostics = &published[0].1;
    assert_eq!(diagnostics.len(), 1);
    assert_eq!(diagnostics[0].severity, 2);
    assert!(diagnostics[0].message.contains("GET /unused"));
    assert!(diagnostics[0].message.contains("api.unused"));
    assert_eq!(UNUSED_ENDPOINT_CODE, "api::unused_endpoint");
    let mut stale = usage_index();
    stale.contract_hash = "other".to_owned();
    assert!(diagnostics_to_publish(&w, Some(&graph), Some(&stale)).is_empty());
}

#[test]
fn unused_endpoint_diagnostics_support_deny_and_off_modes() {
    let graph = unused_workspace_graph();
    let index = usage_index();
    let deny = diagnostics_to_publish(&workspace("/work", UsageLintLevel::Deny), Some(&graph), Some(&index));
    assert_eq!(deny[0].1[0].severity, 1);
    assert!(deny[0].1[0].message.contains("GET /unused"));
    let off = diagnostics_to_publish(&workspace("/work", UsageLintLevel::Off), Some(&graph), Some(&index));
    assert!(off.is_empty());
}

#[test]
fn merged_references_drop_generated_and_duplicate_locations() {
    let locations = vec![
        RawLocation { uri: Some("file:///work/a.ts".to_owned()), range_key: "r1".to_owned() },
        RawLocation { uri: Some("file:///work/target/api-contract/effect-v4/packages/x.ts".to_owned()), range_key: "r1".to_owned() },
        RawLocation { uri: None, range_key: "r2".to_owned() },
        RawLocation { uri: Some("file:///work/a.ts".to_owned()), range_key: "r1".to_owned() },
        RawLocation { uri: Some("file:///work/a.ts".to_owned()), range_key: "r3".to_owned() },
    ];
    assert_eq!(dedupe_locations(&locations, "/work/target/api-contract/effect-v4/packages"), vec![0, 4]);
}

#[test]
fn queries_report_uris_that_cannot_be_compared() {
    let graph = get_user_graph();
    let broken = query("file:///work/src/a%2\u{e9}.rs", 10, 9, false);
    assert!(!graph.definition_defined(&broken, "/work"));
    assert!(!graph.hover_defined(&broken, "/work"));
    let fine = query("file:///work/src/lib.rs", 10, 9, false);
    assert!(graph.definition_defined(&fine, "/work"));
    assert!(graph.references_defined(&fine, "/work"));
    assert!(graph.rename_defined(&fine, "/work"));
    let w = Some(workspace("/work", UsageLintLevel::Warn));
    let uris = vec!["file:///work/x%2\u{e9}.d".to_owned()];
    assert!(!route_defined(&w, "textDocument/hover", &uris));
    assert!(route_defined(&None, "textDocument/hover", &uris));
    assert!(!uri_is_decodable("file:///work/x%2\u{e9}.d"));
}

#[test]
fn framing_headers_are_read() {
    assert_eq!(parse_header_line("\r\n"), HeaderLine::End);
    assert_eq!(parse_header_line("Content-Length: 42\r\n"), HeaderLine::ContentLength(" 42".to_owned()));
    assert_eq!(parse_header_line("content-LENGTH:7\n"), HeaderLine::ContentLength("7".to_owned()));
    assert_eq!(parse_header_line("Content-Type: application/json\r\n"), HeaderLine::Other);
    assert_eq!(parse_header_line("garbage\r\n"), HeaderLine::Malformed("garbage".to_owned()));
    assert_eq!(parse_header_line("a:b:c"), HeaderLine::Other);
}
