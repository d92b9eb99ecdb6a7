use typeweld::gen::package::{
    generated_package_dir, render_generated_package, render_package_index, render_package_json,
    render_tsconfig_paths, sanitize_package_dir_name, TsconfigPaths, EFFECT_VERSION,
};
use typeweld::ir::{
    ApiContract, Endpoint, ErrorRef, Field, HttpMethod, Optionality, Primitive, RequestShape, ResponseShape,
    RoutePattern, SourceRange, SymbolId, Transport, TypeDef, TypeRef, TypeShape,
};

#[test]
fn renders_generated_package_manifest_and_index() {
    let contract = ApiContract {
        package_name: "@workspace/server-api".to_owned(),
        ..ApiContract::default()
    };

    assert_eq!(
        render_package_json(&contract),
        r#"{
  "name": "@workspace/server-api",
  "version": "0.0.0",
  "private": true,
  "type": "module",
  "types": "./index.ts",
  "exports": {
    ".": "./index.ts",
    "./schemas": "./schemas.ts",
    "./errors": "./errors.ts",
    "./endpoints": "./endpoints.ts",
    "./layer": "./layer.ts"
  },
  "dependencies": {
    "@rust-ts-integration/effect-runtime": "0.0.0",
    "effect": "4.0.0-beta.78"
  }
}
"#
    );
    assert_eq!(
        render_package_index(&contract),
        r#"// Generated API package for @workspace/server-api
export * from "./schemas"
export * from "./errors"
export * from "./endpoints"
export * from "./layer"
"#
    );
}

#[test]
fn renders_generated_package_with_cache_path_and_tsconfig_mapping() {
    let contract = ApiContract {
        package_name: "@workspace/server-api".to_owned(),
        ..ApiContract::default()
    };

    let package = render_generated_package(&contract, "target");

    assert_eq!(
        package.package_dir,
        "target/api-contract/effect-v4/packages/_workspace_server-api"
    );
    assert_eq!(
        package.files.iter().map(|file| file.path.as_str()).collect::<Vec<_>>(),
        vec![
            "package.json",
            "index.ts",
            "schemas.ts",
            "errors.ts",
            "endpoints.ts",
            "layer.ts",
            "tsconfig.paths.json"
        ]
    );

    let paths = render_tsconfig_paths(&package.tsconfig_paths);
    assert!(paths.contains("\"@workspace/server-api\": ["));
    assert!(paths.contains("\"target/api-contract/effect-v4/packages/_workspace_server-api/index.ts\""));
    assert!(paths.contains("\"@workspace/server-api/*\": ["));
    assert!(paths.contains("\"target/api-contract/effect-v4/packages/_workspace_server-api/*\""));
}

#[test]
fn package_dir_names_are_sanitized_and_joined_once() {
    assert_eq!(sanitize_package_dir_name("@a/b c.d-e_f"), "_a_b_c.d-e_f");
    assert_eq!(generated_package_dir("out/", "x"), "out/api-contract/effect-v4/packages/x");
    assert_eq!(generated_package_dir("", "x"), "api-contract/effect-v4/packages/x");
    let snippet = render_tsconfig_paths(&TsconfigPaths {
        package_name: "p".to_owned(),
        package_dir: "C:\\work\\pkg".to_owned(),
    });
    assert!(snippet.contains("\"C:/work/pkg/index.ts\""));
    assert_eq!(EFFECT_VERSION, "4.0.0-beta.78");
}

#[test]
fn generated_package_marks_are_sorted_by_file_kind_and_symbol() {
    let source = SourceRange {
        file: String::new(),
        start_line: 0,
        start_column: 0,
        end_line: 0,
        end_column: 0,
        full_range: None,
    };
    let user = TypeDef {
        id: SymbolId::from_parts("type", &["User"]),
        rust_path: vec!["User".to_owned()],
        rust_name: "User".to_owned(),
        ts_name: "User".to_owned(),
        shape: TypeShape::Primitive(Primitive::String),
        source: SourceRange { ..source },
    };
    let endpoint = Endpoint {
        id: SymbolId::from_parts("endpoint", &["users", "get"]),
        rust_path: vec!["get".to_owned()],
        rust_name: "get".to_owned(),
        ts_path: vec!["users".to_owned(), "get".to_owned()],
        route: RoutePattern("/users".to_owned()),
        method: HttpMethod::Get,
        transport: Transport::UnaryHttp,
        request: RequestShape::default(),
        response: ResponseShape::Json(TypeRef {
            id: SymbolId::from_parts("type", &["User"]),
            name: "User".to_owned(),
        }),
        errors: Vec::new(),
        source: SourceRange {
            file: String::new(),
            start_line: 0,
            start_column: 0,
            end_line: 0,
            end_column: 0,
            full_range: None,
        },
        allow_unused: false,
    };
    let contract = ApiContract {
        package_name: "p".to_owned(),
        endpoints: vec![endpoint],
        types: vec![user],
        errors: Vec::new(),
    };
    let package = render_generated_package(&contract, "target");
    assert!(!package.marks.is_empty());
    for pair in package.marks.windows(2) {
        let a = (&pair[0].path, &pair[0].kind, &pair[0].symbol_id, pair[0].range.start.line, pair[0].range.start.character);
        let b = (&pair[1].path, &pair[1].kind, &pair[1].symbol_id, pair[1].range.start.line, pair[1].range.start.character);
        assert!(a <= b);
    }
    let schemas = &package.files[2];
    let mark = package
        .marks
        .iter()
        .find(|m| m.path == "schemas.ts" && m.kind == "type")
        .unwrap();
    let line = schemas.contents.lines().nth(mark.range.start.line as usize).unwrap();
    let marked: String = line
        .chars()
        .skip(mark.range.start.character as usize)
        .take((mark.range.end.character - mark.range.start.character) as usize)
        .collect();
    assert_eq!(marked, "User");
}

fn basic_ref(namespace: &str, name: &str) -> TypeRef {
    TypeRef { id: SymbolId::from_parts(namespace, &[name]), name: name.to_owned() }
}

fn basic_endpoint(
    namespace: &str,
    rust_name: &str,
    ts_name: &str,
    route: &str,
    method: HttpMethod,
    transport: Transport,
    request: RequestShape,
    response: ResponseShape,
) -> Endpoint {
    Endpoint {
        id: SymbolId::from_parts("endpoint", &[namespace, rust_name]),
        rust_path: vec!["server".to_owned(), namespace.to_owned(), rust_name.to_owned()],
        rust_name: rust_name.to_owned(),
        ts_path: vec![namespace.to_owned(), ts_name.to_owned()],
        route: RoutePattern(route.to_owned()),
        method,
        transport,
        request,
        response,
        errors: vec![ErrorRef { id: SymbolId::from_parts("error", &["GetUserError"]), name: "GetUserError".to_owned() }],
        source: SourceRange::default(),
        allow_unused: false,
    }
}

/// The basic server contract: users fetched and created, and a stream of
/// user events.
fn basic_contract() -> ApiContract {
    let id = Field {
        id: SymbolId::from_parts("field", &["get_user", "id"]),
        rust_name: "id".to_owned(),
        wire_name: "id".to_owned(),
        ts_name: "id".to_owned(),
        type_ref: basic_ref("primitive", "i64"),
        optionality: Optionality::Required,
        source: SourceRange::default(),
    };
    ApiContract {
        package_name: "@workspace/server-api".to_owned(),
        endpoints: vec![
            basic_endpoint(
                "users",
                "get_user",
                "getUser",
                "/users/{id}",
                HttpMethod::Get,
                Transport::UnaryHttp,
                RequestShape { path_params: vec![id], query_params: Vec::new(), body: None },
                ResponseShape::Json(basic_ref("type", "User")),
            ),
            basic_endpoint(
                "users",
                "create_user",
                "createUser",
                "/users",
                HttpMethod::Post,
                Transport::UnaryHttp,
                RequestShape { path_params: Vec::new(), query_params: Vec::new(), body: Some(basic_ref("type", "CreateUserRequest")) },
                ResponseShape::Json(basic_ref("type", "User")),
            ),
            basic_endpoint(
                "events",
                "watch_users",
                "watchUsers",
                "/users/events",
                HttpMethod::Get,
                Transport::ServerSentEvents,
                RequestShape::default(),
                ResponseShape::Stream(basic_ref("type", "UserEvent")),
            ),
        ],
        ..ApiContract::default()
    }
}

#[test]
fn fixture_generated_endpoints_snapshot_is_deterministic() {
    let contract = basic_contract();
    let package = render_generated_package(&contract, "target");
    let endpoints = package.files.iter().find(|file| file.path == "endpoints.ts").expect("endpoints file");

    assert_eq!(
        package.files.iter().map(|file| file.path.as_str()).collect::<Vec<_>>(),
        vec![
            "package.json",
            "index.ts",
            "schemas.ts",
            "errors.ts",
            "endpoints.ts",
            "layer.ts",
            "tsconfig.paths.json"
        ]
    );
    assert_eq!(
        endpoints.contents,
        r#"// Generated API package for @workspace/server-api
import { Effect, Stream } from "@rust-ts-integration/effect-runtime/compat"
import { ServerApi } from "./layer"
import type { CreateUserRequest, User, UserEvent } from "./schemas"
import type { ApiClientError, GetUserError } from "./errors"

export namespace events {
  export interface WatchUsersArgs {}

  export const watchUsersRoute = {
    method: "GET",
    path: "/users/events",
    transport: "ServerSentEvents",
  } as const

  export const watchUsers = (
    args: WatchUsersArgs
  ): Stream.Stream<UserEvent, ApiClientError | GetUserError, ServerApi> =>
    ServerApi.use((api) => api.events.watchUsers(args))

}

export namespace users {
  export interface CreateUserArgs {
    readonly body: CreateUserRequest;
  }

  export const createUserRoute = {
    method: "POST",
    path: "/users",
    transport: "UnaryHttp",
  } as const

  export const createUser = (
    args: CreateUserArgs
  ): Effect.Effect<User, ApiClientError | GetUserError, ServerApi> =>
    ServerApi.use((api) => api.users.createUser(args))

  export interface GetUserArgs {
    readonly id: number;
  }

  export const getUserRoute = {
    method: "GET",
    path: "/users/{id}",
    transport: "UnaryHttp",
  } as const

  export const getUser = (
    args: GetUserArgs
  ): Effect.Effect<User, ApiClientError | GetUserError, ServerApi> =>
    ServerApi.use((api) => api.users.getUser(args))

}
"#
    );
}
