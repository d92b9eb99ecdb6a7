use typeweld::api::Endpoint;
use typeweld::collector::usage::{
    scan_effect_usages, stable_hash, try_scan_effect_usages, try_scan_effect_usages_with_config,
    usage_source_range, EffectUsageDiagnostic, EffectUsageDiagnosticCodeRules, EffectUsageIndex,
    EffectUsageScanConfig, EndpointAccessor, EndpointUsageSummary, FieldUsageAccess, SemanticEndpointReference,
    SemanticErrorReference, SemanticFieldReference, SemanticScannerOutput, TypeScriptSourceFile, UsageStrength,
    EFFECT_USAGE_INDEX_SCHEMA_VERSION,
};
use typeweld::ir::{ApiContract, HttpMethod, SymbolId};

const CONTRACT_JSON: &[u8] = b"{\"package_name\":\"@workspace/server-api\"}";

fn contract_of(endpoints: Vec<typeweld::ir::Endpoint>) -> ApiContract {
    ApiContract {
        package_name: "@workspace/server-api".to_owned(),
        endpoints,
        ..ApiContract::default()
    }
}

fn get_user() -> typeweld::ir::Endpoint {
    Endpoint::new(HttpMethod::Get, "/users/{id}")
        .named(&["server", "users", "get_user"])
        .ts_path(&["users", "getUser"])
        .into_ir()
}

fn reference(
    endpoint: &typeweld::ir::Endpoint,
    path: &[&str],
    file: &str,
    line: u32,
    column: usize,
    strength: UsageStrength,
    reason: &str,
) -> SemanticEndpointReference {
    SemanticEndpointReference {
        endpoint_id: endpoint.id.clone(),
        accessor_path: path.iter().map(|part| (*part).to_owned()).collect(),
        file: file.to_owned(),
        source: usage_source_range(file, line, column, path.join(".").len()),
        strength,
        reason: reason.to_owned(),
    }
}

fn scan_of(references: Vec<SemanticEndpointReference>) -> SemanticScannerOutput {
    SemanticScannerOutput {
        references,
        ..SemanticScannerOutput::default()
    }
}

fn file(path: &str, contents: &str) -> TypeScriptSourceFile {
    TypeScriptSourceFile {
        path: path.to_owned(),
        contents: contents.to_owned(),
    }
}

fn summary<'a>(index: &'a EffectUsageIndex, path: &[&str]) -> &'a EndpointUsageSummary {
    index
        .endpoints
        .iter()
        .find(|summary| summary.accessor_path == path)
        .expect("endpoint summary")
}

#[test]
fn effect_usage_scanner_classifies_strong_and_weak_usages() {
    let get_user = get_user();
    let create_user = Endpoint::new(HttpMethod::Post, "/users")
        .named(&["server", "users", "create_user"])
        .ts_path(&["users", "createUser"])
        .into_ir();
    let scan = scan_of(vec![
        reference(&get_user, &["users", "getUser"], "client/use-api.ts", 5, 9, UsageStrength::Strong, "yielded inside Effect.gen"),
        reference(&create_user, &["users", "createUser"], "client/use-api.ts", 6, 2, UsageStrength::Weak, "created without being yielded, returned, or composed"),
        reference(&create_user, &["users", "createUser"], "client/use-api.ts", 7, 2, UsageStrength::Weak, "referenced without being called"),
    ]);
    let contract = contract_of(vec![get_user, create_user]);
    let files = vec![file(
        "client/use-api.ts",
        r#"
import { users } from "@workspace/server-api"

export const program = Effect.gen(function* () {
  yield* users.getUser({ id: "1" })
  users.createUser({ body })
  users.createUser
})
"#,
    )];

    let index = scan_effect_usages(&contract, CONTRACT_JSON, &files, &scan);

    let get_user_summary = summary(&index, &["users", "getUser"]);
    let create_user_summary = summary(&index, &["users", "createUser"]);
    assert_eq!(get_user_summary.strong, 1);
    assert_eq!(get_user_summary.weak, 0);
    assert_eq!(create_user_summary.strong, 0);
    assert_eq!(create_user_summary.weak, 2);
}

#[test]
fn effect_usage_scanner_counts_composed_effects_and_import_only_is_weak() {
    let get_user = get_user();
    let list_users = Endpoint::new(HttpMethod::Get, "/users")
        .named(&["server", "users", "list_users"])
        .ts_path(&["users", "listUsers"])
        .into_ir();
    let scan = scan_of(vec![reference(
        &get_user,
        &["users", "getUser"],
        "client/use-api.ts",
        5,
        16,
        UsageStrength::Strong,
        "composed with pipe",
    )]);
    let contract = contract_of(vec![get_user, list_users]);
    let files = vec![file(
        "client/use-api.ts",
        r#"
import { Effect } from "effect"
import { users as apiUsers } from "@workspace/server-api"

const program = apiUsers.getUser({ id }).pipe(Effect.retry({ times: 1 }))
"#,
    )];

    let index = scan_effect_usages(&contract, CONTRACT_JSON, &files, &scan);

    let get_user_summary = summary(&index, &["users", "getUser"]);
    let list_users_summary = summary(&index, &["users", "listUsers"]);
    assert_eq!(get_user_summary.strong, 1);
    assert_eq!(list_users_summary.strong, 0);
    assert_eq!(list_users_summary.weak, 1);
    assert!(index.usages.iter().any(|usage| {
        usage.accessor_path == ["users", "listUsers"]
            && usage.reason.contains("imported without a strong")
    }));
}

#[test]
fn effect_usage_scanner_classifies_returned_and_composed_effects_semantically() {
    let get_user = get_user();
    let path = ["users", "getUser"];
    let source = "client/use-api.ts";
    let scan = scan_of(vec![
        reference(&get_user, &path, source, 8, 30, UsageStrength::Strong, "returned from a function"),
        reference(&get_user, &path, source, 9, 22, UsageStrength::Strong, "composed with pipe"),
        reference(&get_user, &path, source, 10, 33, UsageStrength::Strong, "composed with Effect.all"),
        reference(&get_user, &path, source, 11, 45, UsageStrength::Strong, "composed with Layer.effect"),
        reference(&get_user, &path, source, 12, 41, UsageStrength::Strong, "composed with Stream.fromEffect"),
        reference(&get_user, &path, source, 14, 23, UsageStrength::Weak, "created without being yielded, returned, or composed"),
    ]);
    let contract = contract_of(vec![get_user]);
    let files = vec![file(
        source,
        r#"
import { Effect, Layer, Stream } from "effect"
import { users } from "@workspace/server-api"

declare const Service: any
declare const UnknownCombinator: { use: (input: unknown) => unknown }

export const returned = () => users.getUser({ id: "1" })
export const piped = users.getUser({ id: "2" }).pipe(Effect.retry({ times: 1 }))
export const all = Effect.all([users.getUser({ id: "3" })])
export const layer = Layer.effect(Service, users.getUser({ id: "4" }))
export const stream = Stream.fromEffect(users.getUser({ id: "5" }))

UnknownCombinator.use(users.getUser({ id: "6" }))
"#,
    )];

    let index = scan_effect_usages(&contract, CONTRACT_JSON, &files, &scan);

    let summary = summary(&index, &["users", "getUser"]);
    assert_eq!(summary.strong, 5);
    assert_eq!(summary.weak, 1);
    assert_eq!(summary.invalid, 0);
    assert_eq!(summary.unknown, 0);
    let total = index
        .usages
        .iter()
        .filter(|usage| usage.endpoint_id.as_str() == summary.endpoint_id.as_str())
        .count() as u64;
    assert_eq!(summary.strong + summary.weak + summary.invalid + summary.unknown, total);
    assert!(index.usages.iter().any(|usage| {
        usage.strength == UsageStrength::Strong && usage.reason.contains("returned")
    }));
    assert!(index.usages.iter().any(|usage| {
        usage.strength == UsageStrength::Strong && usage.reason.contains("pipe")
    }));
    assert!(index.usages.iter().any(|usage| {
        usage.strength == UsageStrength::Weak
            && usage
                .reason
                .contains("without being yielded, returned, or composed")
    }));
}

#[test]
fn effect_usage_scanner_resolves_semantic_aliases_and_reexports() {
    let get_user = get_user();
    let path = ["users", "getUser"];
    let source = "client/use-api.ts";
    let scan = scan_of(vec![
        reference(&get_user, &path, source, 7, 16, UsageStrength::Weak, "referenced without being called"),
        reference(&get_user, &path, source, 10, 10, UsageStrength::Strong, "yielded inside Effect.gen"),
        reference(&get_user, &path, source, 11, 10, UsageStrength::Strong, "returned from a function"),
    ]);
    let contract = contract_of(vec![get_user]);
    let files = vec![
        file(
            "client/api.ts",
            "\nexport { users as apiUsers } from \"@workspace/server-api\"\n",
        ),
        file(
            source,
            r#"
import { apiUsers } from "./api"
import { users as directUsers } from "@workspace/server-api"

const unrelated = { getUser: () => "not an endpoint" }
const { getUser } = apiUsers
const wrapped = directUsers.getUser

export const program = Effect.gen(function* () {
  yield* getUser({ id: "1" })
  return wrapped({ id: "2" })
})

unrelated.getUser()
"#,
        ),
    ];

    let index = scan_effect_usages(&contract, CONTRACT_JSON, &files, &scan);

    let summary = summary(&index, &["users", "getUser"]);
    assert_eq!(summary.strong, 2);
    assert_eq!(summary.weak, 1);
    assert_eq!(summary.invalid, 0);
    assert_eq!(summary.unknown, 0);
    assert_eq!(index.usages.len(), 3);
    assert!(index.usages.iter().any(|usage| usage.file == "client/use-api.ts"
        && usage.source.start_line == 10
        && usage.strength == UsageStrength::Strong));
    assert!(index.usages.iter().any(|usage| usage.file == "client/use-api.ts"
        && usage.source.start_line == 11
        && usage.strength == UsageStrength::Strong));
    assert!(!index.usages.iter().any(|usage| usage.source.start_line == 14));
}

#[test]
fn effect_usage_scanner_ignores_type_only_and_unrelated_property_names() {
    let contract = contract_of(vec![get_user()]);
    let files = vec![file(
        "client/use-api.ts",
        r#"
import type { users } from "@workspace/server-api"

type Getter = typeof users.getUser
const unrelated = { getUser: () => "not an endpoint" }

unrelated.getUser()
"#,
    )];

    let index = scan_effect_usages(&contract, CONTRACT_JSON, &files, &SemanticScannerOutput::default());

    let summary = summary(&index, &["users", "getUser"]);
    assert_eq!(summary.strong, 0);
    assert_eq!(summary.weak, 0);
    assert_eq!(summary.invalid, 0);
    assert_eq!(summary.unknown, 0);
    assert!(index.usages.is_empty());
}

#[test]
fn effect_usage_scanner_attaches_typescript_backend_diagnostics() {
    let get_user = get_user();
    let source = "client/use-api.ts";
    let mut scan = scan_of(vec![reference(
        &get_user,
        &["users", "getUser"],
        source,
        6,
        10,
        UsageStrength::Weak,
        "yielded without being called",
    )]);
    scan.diagnostics.push(EffectUsageDiagnostic {
        code: Some("TS2345".to_owned()),
        message: "Argument is not an Effect".to_owned(),
        source: usage_source_range(source, 6, 2, 20),
    });
    let contract = contract_of(vec![get_user]);
    let files = vec![file(
        source,
        r#"
import { Effect } from "effect"
import { users } from "@workspace/server-api"

export const program = Effect.gen(function* () {
  yield* users.getUser
})
"#,
    )];

    let index = scan_effect_usages(&contract, CONTRACT_JSON, &files, &scan);

    let usage = index.usages.first().expect("usage");
    assert_eq!(usage.strength, UsageStrength::Weak);
    assert!(!usage.diagnostics.is_empty());
    assert!(usage
        .diagnostics
        .iter()
        .any(|diagnostic| diagnostic.code.is_some()));
}

#[test]
fn effect_usage_scanner_applies_configured_diagnostic_codes() {
    let get_user = get_user();
    let scan = scan_of(vec![reference(
        &get_user,
        &["users", "getUser"],
        "client/use-api.ts",
        3,
        0,
        UsageStrength::Weak,
        "created without being yielded, returned, or composed",
    )]);
    let contract = contract_of(vec![get_user]);
    let diagnostics = vec![EffectUsageDiagnostic {
        code: Some("effect/no-floating".to_owned()),
        message: "floating Effect is not live".to_owned(),
        source: usage_source_range("client/use-api.ts", 3, 2, 30),
    }];
    let config = EffectUsageScanConfig {
        diagnostic_codes: EffectUsageDiagnosticCodeRules {
            invalid: vec!["effect/no-floating".to_owned()],
            unknown: Vec::new(),
        },
    };
    let files = vec![file(
        "client/use-api.ts",
        "import { users } from \"@workspace/server-api\"\n\nusers.getUser({ id: \"1\" })\n",
    )];

    let index = try_scan_effect_usages_with_config(
        &contract,
        Ok(CONTRACT_JSON.to_vec()),
        &files,
        &diagnostics,
        &config,
        Ok(scan),
    )
    .expect("scan usages");
    let summary = summary(&index, &["users", "getUser"]);
    let usage = index.usages.first().expect("usage");

    assert_eq!(summary.strong, 0);
    assert_eq!(summary.weak, 0);
    assert_eq!(summary.invalid, 1);
    assert_eq!(usage.strength, UsageStrength::Invalid);
    assert!(usage.reason.contains("effect/no-floating"));
    assert_eq!(usage.diagnostics.len(), 1);
}

#[test]
fn usage_index_hashes_contract_and_sources() {
    let contract = contract_of(vec![get_user()]);
    let index = scan_effect_usages(&contract, b"", &Vec::new(), &SemanticScannerOutput::default());
    assert_eq!(index.schema_version, EFFECT_USAGE_INDEX_SCHEMA_VERSION);
    assert_eq!(index.contract_hash, "fnv1a64:cbf29ce484222325");
    assert_eq!(index.ts_program_hash, "fnv1a64:cbf29ce484222325");
    assert_eq!(index.package_name, "@workspace/server-api");
    assert_eq!(index.endpoints.len(), 1);
    assert!(index.usages.is_empty());
    assert_eq!(stable_hash(b"a"), "fnv1a64:af63dc4c8601ec8c");
    assert_ne!(index.contract_hash, stable_hash(CONTRACT_JSON));
}

#[test]
fn usage_index_reports_hash_and_scan_failures() {
    let contract = contract_of(vec![get_user()]);
    let files = vec![file("client/a.ts", "users.getUser()\n")];
    let hash_failure = try_scan_effect_usages(
        &contract,
        Err("boom".to_owned()),
        &files,
        Ok(SemanticScannerOutput::default()),
    );
    assert_eq!(hash_failure, Err("failed to hash API contract: boom".to_owned()));

    let scan_failure = try_scan_effect_usages(
        &contract,
        Ok(CONTRACT_JSON.to_vec()),
        &files,
        Err("scanner failed".to_owned()),
    );
    assert_eq!(scan_failure, Err("scanner failed".to_owned()));

    let no_files = try_scan_effect_usages(
        &contract,
        Ok(CONTRACT_JSON.to_vec()),
        &Vec::new(),
        Err("scanner failed".to_owned()),
    );
    assert!(no_files.is_ok());
}

#[test]
fn usage_index_orders_usages_and_summaries() {
    let get_user = get_user();
    let list_users = Endpoint::new(HttpMethod::Get, "/users")
        .named(&["server", "users", "list_users"])
        .ts_path(&["users", "listUsers"])
        .into_ir();
    let scan = scan_of(vec![
        reference(&get_user, &["users", "getUser"], "b.ts", 9, 1, UsageStrength::Strong, "yielded"),
        reference(&get_user, &["users", "getUser"], "a.ts", 9, 5, UsageStrength::Strong, "yielded"),
        reference(&get_user, &["users", "getUser"], "a.ts", 9, 1, UsageStrength::Weak, "floating"),
    ]);
    let contract = contract_of(vec![list_users, get_user]);
    let files = vec![file("a.ts", ""), file("b.ts", "")];
    let index = scan_effect_usages(&contract, CONTRACT_JSON, &files, &scan);

    let order: Vec<(&str, u32)> = index
        .usages
        .iter()
        .map(|usage| (usage.file.as_str(), usage.source.start_column))
        .collect();
    assert_eq!(order, vec![("a.ts", 2), ("a.ts", 6), ("b.ts", 2)]);
    assert!(index.endpoints[0].endpoint_id < index.endpoints[1].endpoint_id);
    assert_eq!(index.source_files[0].path, "a.ts");
    assert_eq!(index.source_files[1].path, "b.ts");
}

#[test]
fn endpoint_accessor_carries_the_endpoint_shapes() {
    let mut endpoint = get_user();
    endpoint.errors.push(typeweld::ir::ErrorRef {
        id: typeweld::ir::SymbolId::from_parts("error", &["GetUserError"]),
        name: "GetUserError".to_owned(),
    });
    let accessor = EndpointAccessor::from_endpoint(&endpoint);
    assert_eq!(accessor.accessor_path, vec!["users".to_owned(), "getUser".to_owned()]);
    assert_eq!(accessor.namespace, "users");
    assert_eq!(accessor.transport, endpoint.transport);
    assert_eq!(accessor.request, endpoint.request);
    assert_eq!(accessor.response, endpoint.response);
    assert_eq!(accessor.errors, endpoint.errors);
}

fn field_reference(field_id: &str, line: u32, column: usize, len: usize, access: FieldUsageAccess, reason: &str) -> SemanticFieldReference {
    SemanticFieldReference {
        field_id: SymbolId::new(field_id.to_owned()),
        file: "client/use-api.ts".to_owned(),
        source: usage_source_range("client/use-api.ts", line, column, len),
        access,
        reason: reason.to_owned(),
    }
}

fn error_reference(symbol_id: &str, line: u32, column: usize, len: usize, reason: &str) -> SemanticErrorReference {
    SemanticErrorReference {
        symbol_id: SymbolId::new(symbol_id.to_owned()),
        file: "client/use-api.ts".to_owned(),
        source: usage_source_range("client/use-api.ts", line, column, len),
        reason: reason.to_owned(),
    }
}

#[test]
fn effect_usage_scanner_indexes_error_handlers_and_typed_fields() {
    let get_user_endpoint = get_user();
    let contract = contract_of(vec![get_user()]);
    let get_user = get_user_endpoint;
    let source = r#"
import { Effect } from "effect"
import { users } from "@workspace/server-api"

export const program = Effect.gen(function* () {
  const user = yield* users.getUser({ id: 1 })
  const name = user.displayName
  const unrelated = { displayName: "not typed" }
  unrelated.displayName
  return user.displayName
}).pipe(
  Effect.catchTag("UserNotFound", (error) => Effect.succeed(error.id)),
  Effect.catchTags({
    PermissionDenied: () => Effect.succeed(undefined),
  }),
)
"#;
    // What the semantic scan reports for this source: the typed field
    // reads and writes, and the error handlers by tag.
    let scan = SemanticScannerOutput {
        references: vec![reference(
            &get_user,
            &["users", "getUser"],
            "client/use-api.ts",
            6,
            22,
            UsageStrength::Strong,
            "yielded inside Effect.gen",
        )],
        field_references: vec![
            field_reference("fixture:field:getUser:id", 6, 38, 2, FieldUsageAccess::Write, "object literal property"),
            field_reference("fixture:field:User:displayName", 7, 20, 11, FieldUsageAccess::Read, "property access"),
            field_reference("fixture:field:User:displayName", 10, 14, 11, FieldUsageAccess::Read, "property access"),
            field_reference(
                "fixture:field:GetUserError:UserNotFound:id",
                12,
                66,
                2,
                FieldUsageAccess::Read,
                "property access",
            ),
        ],
        error_references: vec![
            error_reference("fixture:error:GetUserError:UserNotFound", 12, 18, 14, "Effect.catchTag"),
            error_reference("fixture:error:GetUserError:PermissionDenied", 14, 4, 16, "Effect.catchTags"),
        ],
        diagnostics: Vec::new(),
    };
    let files = vec![file("client/use-api.ts", source)];

    let index = scan_effect_usages(&contract, CONTRACT_JSON, &files, &scan);

    let display_name = SymbolId::new("fixture:field:User:displayName".to_owned());
    let route_id = SymbolId::new("fixture:field:getUser:id".to_owned());
    let error_id = SymbolId::new("fixture:field:GetUserError:UserNotFound:id".to_owned());
    let user_not_found = SymbolId::new("fixture:error:GetUserError:UserNotFound".to_owned());
    let permission_denied = SymbolId::new("fixture:error:GetUserError:PermissionDenied".to_owned());

    assert_eq!(
        index
            .field_usages
            .iter()
            .filter(|usage| usage.field_id == display_name)
            .count(),
        2
    );
    assert!(index.field_usages.iter().any(|usage| {
        usage.field_id == route_id && usage.access == FieldUsageAccess::Write
    }));
    assert!(index
        .field_usages
        .iter()
        .any(|usage| { usage.field_id == error_id && usage.access == FieldUsageAccess::Read }));
    assert!(index
        .error_usages
        .iter()
        .any(|usage| usage.symbol_id == user_not_found));
    assert!(index
        .error_usages
        .iter()
        .any(|usage| usage.symbol_id == permission_denied));
}
