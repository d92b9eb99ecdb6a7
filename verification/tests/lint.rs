use typeweld::lint::{
    bridge_failure_diagnostic, check_usage_lints, lint_outputs, usage_lints_available,
    LinkedSymbol, LintEndpointSummary, LintInput, LintUsageIndex, SymbolGraph, SymbolMetadata,
    UsageLintConfig, UsageLintError, UsageLintInputs, UsageLintLevel,
};

fn config(lint_level: UsageLintLevel) -> UsageLintConfig {
    UsageLintConfig {
        usage_index: "target/api-contract/graph/effect-usage-index.json".to_owned(),
        symbol_graph: "target/api-contract/rust-ts-symbols.json".to_owned(),
        lint_level,
        generated_lint_path: "out/api_usage_lints.rs".to_owned(),
    }
}

fn endpoint_symbol(id: &str, method: &str, route: &str, ts_path: [&str; 2], allow_unused: bool) -> LinkedSymbol {
    LinkedSymbol {
        id: id.to_owned(),
        kind: "endpoint".to_owned(),
        metadata: SymbolMetadata {
            method: Some(method.to_owned()),
            route: Some(route.to_owned()),
            ts_path: ts_path.iter().map(|part| (*part).to_owned()).collect(),
            allow_unused,
        },
    }
}

fn summary(endpoint_id: &str, strong: u64) -> LintEndpointSummary {
    LintEndpointSummary {
        endpoint_id: endpoint_id.to_owned(),
        strong,
    }
}

fn loaded(symbols: Vec<LinkedSymbol>, endpoints: Vec<LintEndpointSummary>) -> UsageLintInputs {
    UsageLintInputs {
        usage_index: LintInput::Loaded(LintUsageIndex { endpoints }),
        symbol_graph: LintInput::Loaded(SymbolGraph { symbols }),
        usage_index_modified: Some(10),
        symbol_graph_modified: Some(10),
    }
}

#[test]
fn reports_unused_endpoints_and_skips_strong_or_allowed_endpoints() {
    let inputs = loaded(
        vec![
            endpoint_symbol("endpoint:unused", "GET", "/unused", ["api", "unused"], false),
            endpoint_symbol("endpoint:used", "GET", "/used", ["api", "used"], false),
            endpoint_symbol("endpoint:allowed", "POST", "/admin/reindex", ["admin", "reindex"], true),
        ],
        vec![
            summary("endpoint:unused", 0),
            summary("endpoint:used", 1),
            summary("endpoint:allowed", 0),
        ],
    );

    let report = check_usage_lints(&config(UsageLintLevel::Warn), &inputs).expect("check usage lints");

    assert_eq!(report.diagnostics.len(), 1);
    assert!(report.diagnostics[0].message.contains("GET /unused"));
    assert!(report.diagnostics[0].message.contains("api.unused"));
    assert!(!report.diagnostics[0].message.contains("/used"));
    assert!(!report.diagnostics[0].message.contains("/admin/reindex"));
}

#[test]
fn writes_deny_mode_compile_error_glue() {
    let config = config(UsageLintLevel::Deny);
    let inputs = loaded(
        vec![endpoint_symbol("endpoint:unused", "GET", "/unused", ["api", "unused"], false)],
        vec![summary("endpoint:unused", 0)],
    );

    let report = check_usage_lints(&config, &inputs).expect("emit usage lints");
    let glue = lint_outputs(config.lint_level, &report.diagnostics).glue;

    assert_eq!(report.diagnostics.len(), 1);
    assert!(glue.contains("compile_error!"));
    assert!(glue.contains("GET /unused"));
    assert!(glue.contains("api.unused"));
}

#[test]
fn missing_usage_index_reports_actionable_instruction() {
    let config = UsageLintConfig {
        usage_index: "root/missing/effect-usage-index.json".to_owned(),
        symbol_graph: "root/rust-ts-symbols.json".to_owned(),
        lint_level: UsageLintLevel::Warn,
        generated_lint_path: "root/out/api_usage_lints.rs".to_owned(),
    };
    let inputs = UsageLintInputs {
        usage_index: LintInput::Missing,
        symbol_graph: LintInput::Missing,
        usage_index_modified: None,
        symbol_graph_modified: None,
    };

    let report = check_usage_lints(&config, &inputs).expect("check usage lints");

    assert_eq!(report.diagnostics.len(), 1);
    assert!(report.diagnostics[0]
        .message
        .contains("missing Effect usage index"));
    assert!(report.diagnostics[0].message.contains("api check-usages"));
}

#[test]
fn detects_stale_usage_index() {
    let mut inputs = loaded(Vec::new(), Vec::new());
    inputs.symbol_graph_modified = Some(15);

    let report = check_usage_lints(&config(UsageLintLevel::Warn), &inputs).expect("check usage lints");

    assert!(report.stale);
    assert_eq!(report.diagnostics.len(), 1);
    assert!(report.diagnostics[0]
        .message
        .contains("stale Effect usage index"));
}

#[test]
fn off_mode_suppresses_diagnostics() {
    let inputs = loaded(
        vec![endpoint_symbol("endpoint:unused", "GET", "/unused", ["api", "unused"], false)],
        Vec::new(),
    );

    let report = check_usage_lints(&config(UsageLintLevel::Off), &inputs).expect("check usage lints");

    assert!(report.diagnostics.is_empty());
}

#[test]
fn lint_level_parses_three_spellings() {
    assert_eq!(UsageLintLevel::parse("off"), Some(UsageLintLevel::Off));
    assert_eq!(UsageLintLevel::parse("Warn"), Some(UsageLintLevel::Warn));
    assert_eq!(UsageLintLevel::parse("DENY"), Some(UsageLintLevel::Deny));
    assert_eq!(UsageLintLevel::parse("dEnY"), None);
    assert_eq!(UsageLintLevel::default(), UsageLintLevel::Warn);
    assert!(usage_lints_available());
}

#[test]
fn missing_symbol_graph_and_read_errors() {
    let config = config(UsageLintLevel::Warn);
    let missing_graph = UsageLintInputs {
        usage_index: LintInput::ReadFailed("denied".to_owned()),
        symbol_graph: LintInput::Missing,
        usage_index_modified: None,
        symbol_graph_modified: None,
    };
    let report = check_usage_lints(&config, &missing_graph).expect("check usage lints");
    assert_eq!(
        report.diagnostics[0].message,
        "missing API symbol graph `target/api-contract/rust-ts-symbols.json`; regenerate the API contract before checking endpoint usage"
    );

    let unreadable = UsageLintInputs {
        usage_index: LintInput::Loaded(LintUsageIndex::default()),
        symbol_graph: LintInput::ParseFailed("expected value".to_owned()),
        usage_index_modified: None,
        symbol_graph_modified: None,
    };
    let error = check_usage_lints(&config, &unreadable).expect_err("parse failure");
    assert_eq!(
        error.message(),
        "failed to parse symbol graph `target/api-contract/rust-ts-symbols.json`: expected value"
    );
}

#[test]
fn diagnostics_are_ordered_and_labelled() {
    let mut unlabelled = endpoint_symbol("endpoint:bare", "GET", "/x", ["a", "b"], false);
    unlabelled.metadata = SymbolMetadata::default();
    let mut inputs = loaded(
        vec![
            endpoint_symbol("endpoint:z", "GET", "/zeta", ["z", "get"], false),
            endpoint_symbol("endpoint:a", "GET", "/alpha", ["a", "get"], false),
            unlabelled,
        ],
        Vec::new(),
    );
    inputs.usage_index_modified = Some(1);
    inputs.symbol_graph_modified = Some(2);
    let report = check_usage_lints(&config(UsageLintLevel::Deny), &inputs).expect("check usage lints");
    let routes: Vec<Option<String>> = report.diagnostics.iter().map(|d| d.route.clone()).collect();
    assert_eq!(
        routes,
        vec![
            None,
            Some("<unknown route>".to_owned()),
            Some("GET /alpha".to_owned()),
            Some("GET /zeta".to_owned()),
        ]
    );
    assert_eq!(report.diagnostics[1].accessor.as_deref(), Some("<unknown accessor>"));

    let outputs = lint_outputs(UsageLintLevel::Warn, &report.diagnostics);
    assert_eq!(outputs.warnings.len(), 4);
    assert_eq!(outputs.glue, "// Generated by api-build. Do not edit.\n");
    let deny = lint_outputs(UsageLintLevel::Deny, &report.diagnostics);
    assert_eq!(deny.glue.matches("compile_error!(").count(), 4);
    assert!(lint_outputs(UsageLintLevel::Off, &report.diagnostics).warnings.is_empty());

    let failure = bridge_failure_diagnostic(&UsageLintError::new("boom".to_owned()));
    assert_eq!(failure.message, "api usage lint bridge failed: boom");
}

#[test]
fn deny_glue_quotes_messages_as_string_literals() {
    let inputs = loaded(
        vec![endpoint_symbol("endpoint:q", "GET", "/say \"hi\"", ["api", "say"], false)],
        Vec::new(),
    );
    let report = check_usage_lints(&config(UsageLintLevel::Deny), &inputs).expect("check usage lints");
    let glue = lint_outputs(UsageLintLevel::Deny, &report.diagnostics).glue;
    assert!(glue.contains("route: GET /say \\\"hi\\\"; "));
    assert!(glue.ends_with("\");\n"));
}

#[test]
fn warn_and_deny_give_the_same_report() {
    let inputs = loaded(
        vec![
            endpoint_symbol("endpoint:unused", "GET", "/unused", ["api", "unused"], false),
            endpoint_symbol("endpoint:used", "GET", "/used", ["api", "used"], false),
        ],
        vec![summary("endpoint:used", 2)],
    );
    let warn = check_usage_lints(&config(UsageLintLevel::Warn), &inputs).expect("warn report");
    let deny = check_usage_lints(&config(UsageLintLevel::Deny), &inputs).expect("deny report");
    assert_eq!(warn, deny);
    assert_eq!(warn.diagnostics.len(), 1);
    assert_eq!(warn.diagnostics[0].endpoint_id.as_deref(), Some("endpoint:unused"));
}
