use typeweld::cli::{
    lib_crate_name, normalize_api_root, parse_features, render_collector_main,
    render_collector_manifest, sanitize_package_dir_name, update_symbol_graph_usage_locations,
    CollectOptions, ContractTargetOptions,
};
use typeweld::collector::usage::{
    scan_effect_usages, usage_source_range, SemanticEndpointReference, SemanticScannerOutput,
    TypeScriptSourceFile, UsageStrength,
};
use typeweld::gen::package::render_generated_package;
use typeweld::gen::symbols::SymbolGraph;
use typeweld::ir::{ApiContract, HttpMethod};

fn args(list: &[&str]) -> Vec<String> {
    list.iter().map(|arg| (*arg).to_owned()).collect()
}

#[test]
fn collect_options_parse_flags_and_sorted_features() {
    let options = CollectOptions::parse(&args(&[
        "--package", "server", "--out", "contract.json", "--features", "b, a,,b",
        "--features", "c", "--no-default-features", "--target-dir", "t",
    ]))
    .expect("parse");
    assert_eq!(options.cargo_package.as_deref(), Some("server"));
    assert_eq!(options.out.as_deref(), Some("contract.json"));
    assert_eq!(options.features, vec!["a", "b", "c"]);
    assert!(options.no_default_features);
    assert!(!options.all_features);
    assert_eq!(options.manifest_path, "Cargo.toml");
    assert_eq!(options.target_dir.as_deref(), Some("t"));

    assert_eq!(
        CollectOptions::parse(&args(&["--bogus"])),
        Err("unknown api collect argument `--bogus`".to_owned())
    );
    assert_eq!(
        CollectOptions::parse(&args(&["--features"])),
        Err("--features requires <features>".to_owned())
    );
    assert_eq!(
        CollectOptions::parse(&args(&["--manifest-path"])),
        Err("--manifest-path requires <path>".to_owned())
    );
    let trailing = CollectOptions::parse(&args(&["-p"])).expect("parse");
    assert_eq!(trailing.cargo_package, None);
}

#[test]
fn contract_target_options_require_a_contract() {
    let options = ContractTargetOptions::parse(&args(&["--contract", "c.json", "--once"]), "api watch")
        .expect("parse");
    assert_eq!(options.contract, "c.json");
    assert_eq!(options.target_dir, "target");
    assert!(options.once);
    let out_dir = ContractTargetOptions::parse(&args(&["--out-dir", "o", "--contract", "c"]), "api gen")
        .expect("parse");
    assert_eq!(out_dir.target_dir, "o");
    assert_eq!(
        ContractTargetOptions::parse(&args(&[]), "api check"),
        Err("api check requires --contract <path>".to_owned())
    );
    assert_eq!(
        ContractTargetOptions::parse(&args(&["-x"]), "api gen"),
        Err("unknown api gen argument `-x`".to_owned())
    );
}

#[test]
fn features_and_names_are_normalized() {
    assert_eq!(parse_features(" serde,  uuid derive,"), vec!["serde", "uuid", "derive"]);
    assert!(parse_features("").is_empty());
    assert_eq!(lib_crate_name("my-server"), "my_server");
    assert_eq!(sanitize_package_dir_name("@scope/api_1"), "-scope-api-1");
}

#[test]
fn api_root_paths_drop_the_crate_name() {
    assert_eq!(normalize_api_root("server::users::api", "server"), Ok(vec!["users".to_owned(), "api".to_owned()]));
    assert_eq!(normalize_api_root("::api::", "server"), Ok(vec!["api".to_owned()]));
    assert_eq!(
        normalize_api_root("::", "server"),
        Err("api collect --api-root must name a Rust function path".to_owned())
    );
    assert_eq!(
        normalize_api_root("server::1api", "server"),
        Err("api collect --api-root `server::1api` contains a non-identifier path segment".to_owned())
    );
}

#[test]
fn collector_crate_sources_name_the_package() {
    let manifest = render_collector_manifest(
        "my-server",
        "/tools/api-collector",
        "/tools/api-core",
        "/work/server",
        true,
        &vec!["a".to_owned(), "b".to_owned()],
    );
    assert!(manifest.starts_with("[package]\nname = \"api-contract-collector-my-server\"\n"));
    assert!(manifest.contains("api-collector = { path = \"/tools/api-collector\" }\n"));
    assert!(manifest.contains("package = \"my-server\"\npath = \"/work/server\"\ndefault-features = false\nfeatures = [\"a\", \"b\"]\n\n"));
    let plain = render_collector_manifest("s", "c", "k", "d", false, &Vec::new());
    assert!(plain.ends_with("path = \"d\"\n\n"));

    let main = render_collector_main(&vec!["users".to_owned(), "api".to_owned()], "@ws/api");
    assert!(main.contains("let root_module: api_core::ApiModule = target_api_package::users::api();\n"));
    assert!(main.contains("package_name: \"@ws/api\".to_owned(),"));
}

#[test]
fn usage_locations_replace_user_locations_in_symbol_graph() {
    let get_user = typeweld::api::Endpoint::new(HttpMethod::Get, "/users/{id}")
        .named(&["server", "users", "get_user"])
        .ts_path(&["users", "getUser"])
        .into_ir();
    let contract = ApiContract {
        package_name: "@workspace/server-api".to_owned(),
        endpoints: vec![get_user],
        ..ApiContract::default()
    };
    let package = render_generated_package(&contract, "target");
    let graph = SymbolGraph::from_generated_package(&contract, &package);
    let endpoint_id = contract.endpoints[0].id.clone();
    let scan = SemanticScannerOutput {
        references: vec![SemanticEndpointReference {
            endpoint_id: endpoint_id.clone(),
            accessor_path: vec!["users".to_owned(), "getUser".to_owned()],
            file: "src/client.ts".to_owned(),
            source: usage_source_range("src/client.ts", 4, 2, 13),
            strength: UsageStrength::Strong,
            reason: "yielded".to_owned(),
        }],
        ..SemanticScannerOutput::default()
    };
    let files = vec![TypeScriptSourceFile {
        path: "src/client.ts".to_owned(),
        contents: String::new(),
    }];
    let index = scan_effect_usages(&contract, b"{}", &files, &scan);

    let updated = update_symbol_graph_usage_locations(graph, &index);
    let again = update_symbol_graph_usage_locations(updated, &index);
    let endpoint = again
        .symbols
        .iter()
        .find(|symbol| symbol.id == endpoint_id.as_str())
        .expect("endpoint symbol");
    assert_eq!(endpoint.metadata.usage_count, Some(1));
    let user: Vec<_> = endpoint.typescript.iter().filter(|location| !location.generated).collect();
    assert_eq!(user.len(), 1);
    assert_eq!(user[0].file.as_deref(), Some("src/client.ts"));
    assert_eq!((user[0].range.start.line, user[0].range.start.character), (3, 2));
    assert_eq!(user[0].renamable, Some(false));
    assert!(endpoint.typescript.iter().any(|location| location.generated));
}

use typeweld::cli::{
    api_dependency_edges, check_outcome, is_workspace_gen, merge_symbol_graphs, parse_doctor_args,
    parse_gen_workspace_args, plan_collect, render_workspace_tsconfig_paths,
    resolve_collect_package, resolve_collect_target, stale_generated_files, symbol_graph_update,
    usage, workspace_generation_order, CheckUsagesOptions, CliCommand, CollectPlan, FileState,
    RustTsPackageMetadata, WorkspaceContractGraph, WorkspaceContractPackage, WorkspacePackage,
    workspace_collect_packages, symbol_usage_edit,
};

fn graph_package(name: &str, deps: &[&str]) -> WorkspaceContractPackage {
    WorkspaceContractPackage {
        cargo_package: name.to_owned(),
        ts_package: format!("@ws/{name}-api"),
        contract_path: format!("target/api-contract/contracts/{name}.json"),
        dependencies: deps.iter().map(|dep| (*dep).to_owned()).collect(),
    }
}

#[test]
fn workspace_generation_order_puts_dependencies_first() {
    let graph = WorkspaceContractGraph {
        packages: vec![
            graph_package("admin", &["server", "serde"]),
            graph_package("server", &[]),
            graph_package("tools", &["admin"]),
        ],
    };
    assert_eq!(workspace_generation_order(&graph), Ok(vec![1, 0, 2]));

    let cyclic = WorkspaceContractGraph {
        packages: vec![graph_package("a", &["b"]), graph_package("b", &["a"])],
    };
    assert_eq!(
        workspace_generation_order(&cyclic),
        Err("workspace contract graph contains a dependency cycle at `a`".to_owned())
    );
}

#[test]
fn workspace_tsconfig_paths_map_each_package() {
    let graph = WorkspaceContractGraph {
        packages: vec![graph_package("server", &[])],
    };
    assert_eq!(
        render_workspace_tsconfig_paths(&graph, "target"),
        "{\n  \"compilerOptions\": {\n    \"paths\": {\n      \"@ws/server-api\": [\n        \"target/api-contract/effect-v4/packages/_ws_server-api/index.ts\"\n      ],\n      \"@ws/server-api/*\": [\n        \"target/api-contract/effect-v4/packages/_ws_server-api/*\"\n      ]\n    }\n  }\n}\n"
    );
}

#[test]
fn commands_and_plans() {
    assert_eq!(CliCommand::parse(Some("check-usages")), Ok(CliCommand::CheckUsages));
    assert_eq!(CliCommand::parse(Some("-h")), Ok(CliCommand::Help));
    assert_eq!(CliCommand::parse(None), Err(usage()));
    assert_eq!(
        CliCommand::parse(Some("frob")),
        Err(format!("unknown api command `frob`\n\n{}", usage()))
    );
    assert!(usage().starts_with("usage:\n  api collect --package <cargo-package>"));

    let empty = CollectOptions::parse(&args(&["--empty", "--out", "c.json"])).expect("parse");
    assert_eq!(
        plan_collect(&empty),
        Err("api collect --empty requires --package-name <ts-package-name>".to_owned())
    );
    let empty = CollectOptions::parse(&args(&["--empty", "--out", "c.json", "--package-name", "@ws/api"])).expect("parse");
    assert_eq!(
        plan_collect(&empty),
        Ok(CollectPlan::Empty { out: "c.json".to_owned(), package_name: "@ws/api".to_owned() })
    );
    let workspace = CollectOptions::parse(&args(&["--workspace"])).expect("parse");
    assert_eq!(plan_collect(&workspace), Ok(CollectPlan::Workspace));
    let none = CollectOptions::parse(&args(&[])).expect("parse");
    assert_eq!(plan_collect(&none), Err("api collect requires --out <path>".to_owned()));

    assert!(is_workspace_gen(&args(&["--target-dir", "t", "--workspace-contract", "g.json"])));
    assert_eq!(
        parse_gen_workspace_args(&args(&["--workspace-contract", "g.json", "--out-dir", "o"])),
        Ok(("g.json".to_owned(), "o".to_owned()))
    );
    assert_eq!(
        parse_gen_workspace_args(&args(&["--target-dir", "t"])),
        Err("api gen requires --workspace-contract <path>".to_owned())
    );
    assert_eq!(parse_doctor_args(&args(&[])), Ok("Cargo.toml".to_owned()));
    assert_eq!(
        parse_doctor_args(&args(&["--verbose"])),
        Err("unknown api doctor argument `--verbose`".to_owned())
    );
}

#[test]
fn check_usages_options_need_contract_and_out() {
    let options = CheckUsagesOptions::parse(&args(&[
        "--contract", "c.json", "--out", "target/api-contract/graph/idx.json", "--ts", "a.ts",
        "--ts-dir", "src", "--ts", "b.ts",
    ]))
    .expect("parse");
    assert_eq!(options.ts_files, vec!["a.ts", "b.ts"]);
    assert_eq!(options.ts_dirs, vec!["src"]);
    assert!(!options.explicit_symbol_graph);
    assert_eq!(
        CheckUsagesOptions::parse(&args(&["--out", "x"])),
        Err("api check-usages requires --contract <path>".to_owned())
    );
    assert_eq!(
        CheckUsagesOptions::parse(&args(&["--contract", "c", "--ts"])),
        Err("--ts requires <path>".to_owned())
    );
    assert_eq!(symbol_graph_update("g.json", true, false), Ok(true));
    assert_eq!(symbol_graph_update("g.json", false, false), Ok(false));
    assert_eq!(
        symbol_graph_update("g.json", false, true),
        Err("api check-usages --symbol-graph path does not exist: g.json".to_owned())
    );
}

#[test]
fn stale_files_and_check_outcome() {
    let contract = ApiContract {
        package_name: "@ws/api".to_owned(),
        ..ApiContract::default()
    };
    let package = render_generated_package(&contract, "target");
    let mut states: Vec<FileState> = package
        .files
        .iter()
        .map(|file| FileState::Contents(file.contents.clone()))
        .collect();
    assert_eq!(stale_generated_files(&package, &states), Ok(Vec::new()));
    states[0] = FileState::Missing;
    states[1] = FileState::Contents("old".to_owned());
    let stale = stale_generated_files(&package, &states).expect("stale");
    assert_eq!(
        stale,
        vec![
            format!("missing: {}/package.json", package.package_dir),
            format!("stale: {}/index.ts", package.package_dir),
        ]
    );
    let options = ContractTargetOptions::parse(&args(&["--contract", "c.json"]), "api check").expect("parse");
    assert_eq!(check_outcome(&options, &Vec::new()), Ok(()));
    assert_eq!(
        check_outcome(&options, &stale),
        Err(format!(
            "generated package is stale; run `api gen --contract c.json --target-dir target`\n{}\n{}",
            stale[0], stale[1]
        ))
    );
    states[2] = FileState::Unreadable("denied".to_owned());
    assert_eq!(
        stale_generated_files(&package, &states),
        Err(format!("failed to read generated package file `{}/schemas.ts`: denied", package.package_dir))
    );
}

fn workspace_package(name: &str, rust_ts: Option<Result<RustTsPackageMetadata, String>>) -> WorkspacePackage {
    WorkspacePackage {
        name: name.to_owned(),
        features: vec!["z".to_owned(), "a".to_owned()],
        dependencies: vec!["server".to_owned(), "serde".to_owned(), "server".to_owned()],
        rust_ts,
        lib_target: Some(name.to_owned()),
    }
}

#[test]
fn packages_resolve_from_metadata() {
    let metadata = RustTsPackageMetadata {
        ts_package: Some("@ws/admin-api".to_owned()),
        api_root: Some("admin::api".to_owned()),
        features: Some(vec!["x".to_owned()]),
    };
    let packages = vec![
        workspace_package("server", None),
        workspace_package("admin", Some(Ok(metadata))),
    ];
    assert_eq!(resolve_collect_package(&packages, None), Ok(1));
    assert_eq!(resolve_collect_package(&packages, Some("server")), Ok(0));
    assert_eq!(
        resolve_collect_package(&packages, Some("nope")),
        Err("api collect could not find workspace package `nope`".to_owned())
    );
    let broken = vec![workspace_package("bad", Some(Err("expected a table".to_owned())))];
    assert_eq!(
        resolve_collect_package(&broken, None),
        Err("invalid [package.metadata.rust_ts] for package `bad`: expected a table".to_owned())
    );
    let many = vec![
        workspace_package("a", Some(Ok(RustTsPackageMetadata::default()))),
        workspace_package("b", Some(Ok(RustTsPackageMetadata::default()))),
    ];
    assert_eq!(
        resolve_collect_package(&many, None),
        Err("api collect found multiple API-enabled packages (a, b) ; pass --package <cargo-package>".to_owned())
    );

    let options = CollectOptions::parse(&args(&[])).expect("parse");
    let admin = &packages[1];
    let meta = match &admin.rust_ts {
        Some(Ok(m)) => Some(m),
        _ => None,
    };
    let target = resolve_collect_target(&options, admin, meta, "admin").expect("target");
    assert_eq!(target.ts_package_name, "@ws/admin-api");
    assert_eq!(target.api_root, vec!["api"]);
    assert_eq!(target.features, vec!["x"]);
    let all = CollectOptions::parse(&args(&["--all-features"])).expect("parse");
    assert_eq!(resolve_collect_target(&all, admin, meta, "admin").expect("target").features, vec!["a", "z"]);
    assert_eq!(
        resolve_collect_target(&options, &packages[0], None, "server"),
        Err("api collect package `server` requires --package-name <ts-package-name> or package.metadata.rust_ts.ts_package".to_owned())
    );
    assert_eq!(
        api_dependency_edges(admin, &vec!["server".to_owned(), "admin".to_owned()]),
        vec!["server"]
    );
}

#[test]
fn merged_symbol_graphs_are_ordered() {
    let first = ApiContract {
        package_name: "@ws/b".to_owned(),
        endpoints: vec![typeweld::api::Endpoint::new(HttpMethod::Get, "/b").named(&["b", "get_b"]).into_ir()],
        ..ApiContract::default()
    };
    let second = ApiContract {
        package_name: "@ws/a".to_owned(),
        endpoints: vec![typeweld::api::Endpoint::new(HttpMethod::Get, "/a").named(&["a", "get_a"]).into_ir()],
        ..ApiContract::default()
    };
    let g1 = SymbolGraph::from_generated_package(&first, &render_generated_package(&first, "target"));
    let g2 = SymbolGraph::from_generated_package(&second, &render_generated_package(&second, "target"));
    let total = g1.symbols.len() + g2.symbols.len();
    let merged = merge_symbol_graphs(vec![g1, g2]);
    assert_eq!(merged.symbols.len(), total);
    for pair in merged.symbols.windows(2) {
        assert!((pair[0].kind.as_str(), pair[0].id.as_str()) <= (pair[1].kind.as_str(), pair[1].id.as_str()));
    }
}

#[test]
fn workspace_contract_graph_orders_packages_by_cargo_name() {
    let package = |name: &str, ts: &str| typeweld::cli::WorkspaceContractPackage {
        cargo_package: name.to_owned(),
        ts_package: ts.to_owned(),
        contract_path: format!("{name}.json"),
        dependencies: Vec::new(),
    };
    let graph = typeweld::cli::workspace_contract_graph(vec![
        package("server-api", "@workspace/server"),
        package("admin-api", "@workspace/admin"),
        package("billing-api", "@workspace/billing"),
    ]);
    assert_eq!(
        graph.packages.iter().map(|p| p.cargo_package.as_str()).collect::<Vec<_>>(),
        vec!["admin-api", "billing-api", "server-api"]
    );
}

#[test]
fn workspace_collection_needs_an_api_enabled_package() {
    let metadata = RustTsPackageMetadata {
        ts_package: Some("@ws/admin-api".to_owned()),
        api_root: Some("admin::api".to_owned()),
        features: None,
    };
    let none = vec![workspace_package("server", None), workspace_package("web", None)];
    assert_eq!(
        workspace_collect_packages(&none),
        Err("api collect --workspace found no packages with [package.metadata.rust_ts]".to_owned())
    );
    let some = vec![workspace_package("server", None), workspace_package("admin", Some(Ok(metadata)))];
    assert_eq!(workspace_collect_packages(&some), Ok(vec![1]));
    let broken = vec![workspace_package("admin", Some(Err("bad metadata".to_owned())))];
    assert!(workspace_collect_packages(&broken).is_err());
}

#[test]
fn usage_edit_keeps_generated_locations_and_adds_usages() {
    let get_user = typeweld::api::Endpoint::new(HttpMethod::Get, "/users/{id}")
        .named(&["server", "users", "get_user"])
        .ts_path(&["users", "getUser"])
        .into_ir();
    let endpoint_id = get_user.id.clone();
    let contract = ApiContract {
        package_name: "@workspace/server-api".to_owned(),
        endpoints: vec![get_user],
        ..ApiContract::default()
    };
    let scan = SemanticScannerOutput {
        references: vec![SemanticEndpointReference {
            endpoint_id: endpoint_id.clone(),
            accessor_path: vec!["users".to_owned(), "getUser".to_owned()],
            file: "src/client.ts".to_owned(),
            source: usage_source_range("src/client.ts", 4, 2, 13),
            strength: UsageStrength::Strong,
            reason: "yielded".to_owned(),
        }],
        ..SemanticScannerOutput::default()
    };
    let files = vec![TypeScriptSourceFile {
        path: "src/client.ts".to_owned(),
        contents: String::new(),
    }];
    let index = scan_effect_usages(&contract, b"{}", &files, &scan);

    assert!(symbol_usage_edit("type", endpoint_id.as_str(), &vec![true], &index).is_none());
    let edit = symbol_usage_edit("endpoint", endpoint_id.as_str(), &vec![true, false, true], &index)
        .expect("endpoint edit");
    assert_eq!(edit.usage_count, Some(1));
    assert_eq!(edit.kept, vec![0, 2]);
    assert_eq!(edit.added.len(), 1);
    assert_eq!(edit.added[0].file.as_deref(), Some("src/client.ts"));
    assert_eq!((edit.added[0].range.start.line, edit.added[0].range.start.character), (3, 2));
    assert!(!edit.added[0].generated);

    let unknown = symbol_usage_edit("endpoint", "no-such-endpoint", &vec![false], &index).expect("endpoint edit");
    assert_eq!(unknown.usage_count, None);
    assert!(unknown.kept.is_empty());
    assert!(unknown.added.is_empty());
}
