use typeweld::gen::endpoints::{endpoint_function_name, endpoint_namespace, render_endpoints};
use typeweld::ir::{
    ApiContract, Endpoint, ErrorRef, Field, HttpMethod, Optionality, RequestShape, ResponseShape,
    RoutePattern, SourceRange, SymbolId, Transport, TypeRef,
};

fn symbol(namespace: &str, parts: &[&str]) -> SymbolId {
    SymbolId::from_parts(namespace, parts)
}

fn source() -> SourceRange {
    SourceRange {
        file: String::new(),
        start_line: 0,
        start_column: 0,
        end_line: 0,
        end_column: 0,
        full_range: None,
    }
}

fn type_ref(name: &str) -> TypeRef {
    TypeRef {
        id: symbol("type", &[name]),
        name: name.to_owned(),
    }
}

fn field(rust_name: &str, ts_name: &str, type_ref: TypeRef, optionality: Optionality) -> Field {
    Field {
        id: symbol("field", &[rust_name]),
        rust_name: rust_name.to_owned(),
        wire_name: ts_name.to_owned(),
        ts_name: ts_name.to_owned(),
        type_ref,
        optionality,
        source: source(),
    }
}

fn get_user_endpoint() -> Endpoint {
    Endpoint {
        id: symbol("endpoint", &["users", "get_user"]),
        rust_path: vec!["server".to_owned(), "users".to_owned(), "get_user".to_owned()],
        rust_name: "get_user".to_owned(),
        ts_path: vec!["users".to_owned(), "getUser".to_owned()],
        route: RoutePattern("/users/{id}".to_owned()),
        method: HttpMethod::Get,
        transport: Transport::UnaryHttp,
        request: RequestShape {
            path_params: vec![field("id", "id", type_ref("UserId"), Optionality::Required)],
            query_params: vec![field(
                "include_posts",
                "includePosts",
                type_ref("bool"),
                Optionality::Optional,
            )],
            body: None,
        },
        response: ResponseShape::Json(type_ref("User")),
        errors: vec![ErrorRef {
            id: symbol("error", &["GetUserError"]),
            name: "GetUserError".to_owned(),
        }],
        source: source(),
        allow_unused: false,
    }
}

#[test]
fn renders_endpoint_accessors_with_effect_signatures() {
    let contract = ApiContract {
        package_name: "@workspace/server-api".to_owned(),
        endpoints: vec![get_user_endpoint()],
        ..ApiContract::default()
    };

    let rendered = render_endpoints(&contract);

    assert!(rendered.contains("import { Effect } from \"@rust-ts-integration/effect-runtime/compat\""));
    assert!(rendered.contains("import { ServerApi } from \"./layer\""));
    assert!(rendered.contains("import type { User, UserId } from \"./schemas\""));
    assert!(rendered.contains("import type { ApiClientError, GetUserError } from \"./errors\""));
    assert!(rendered.contains("export namespace users {"));
    assert!(rendered.contains(
        "  export interface GetUserArgs {\n    readonly id: UserId;\n    readonly includePosts?: boolean;\n  }"
    ));
    assert!(rendered.contains(
        "  export const getUserRoute = {\n    method: \"GET\",\n    path: \"/users/{id}\",\n    transport: \"UnaryHttp\",\n  } as const"
    ));
    assert!(rendered.contains(
        "  export const getUser = (\n    args: GetUserArgs\n  ): Effect.Effect<User, ApiClientError | GetUserError, ServerApi> =>\n    ServerApi.use((api) => api.users.getUser(args))"
    ));
}

#[test]
fn renders_endpoint_body_and_empty_response() {
    let endpoint = Endpoint {
        id: symbol("endpoint", &["users", "create_user"]),
        rust_path: vec!["server".to_owned(), "users".to_owned(), "create_user".to_owned()],
        rust_name: "create_user".to_owned(),
        ts_path: vec!["users".to_owned(), "createUser".to_owned()],
        route: RoutePattern("/users".to_owned()),
        method: HttpMethod::Post,
        transport: Transport::UnaryHttp,
        request: RequestShape {
            path_params: Vec::new(),
            query_params: Vec::new(),
            body: Some(type_ref("CreateUser")),
        },
        response: ResponseShape::Empty,
        errors: Vec::new(),
        source: source(),
        allow_unused: false,
    };

    let rendered = render_endpoints(&ApiContract {
        package_name: "example-api".to_owned(),
        endpoints: vec![endpoint],
        ..ApiContract::default()
    });

    assert!(rendered.contains("  export interface CreateUserArgs {\n    readonly body: CreateUser;\n  }"));
    assert!(rendered.contains("): Effect.Effect<void, ApiClientError, ServerApi> =>"));
}

#[test]
fn renders_sse_endpoint_accessors_with_stream_signatures() {
    let contract = ApiContract {
        package_name: "@workspace/server-api".to_owned(),
        endpoints: vec![Endpoint {
            id: symbol("endpoint", &["events", "events"]),
            rust_path: vec!["server".to_owned(), "events".to_owned(), "events".to_owned()],
            rust_name: "events".to_owned(),
            ts_path: vec!["events".to_owned(), "events".to_owned()],
            route: RoutePattern("/events".to_owned()),
            method: HttpMethod::Get,
            transport: Transport::ServerSentEvents,
            request: RequestShape::default(),
            response: ResponseShape::Stream(type_ref("UserEvent")),
            errors: vec![ErrorRef {
                id: symbol("error", &["EventError"]),
                name: "EventError".to_owned(),
            }],
            source: source(),
            allow_unused: false,
        }],
        ..ApiContract::default()
    };

    let rendered = render_endpoints(&contract);

    assert!(rendered.contains(
        "import { Effect, Stream } from \"@rust-ts-integration/effect-runtime/compat\""
    ));
    assert!(rendered.contains(
        "  export const eventsRoute = {\n    method: \"GET\",\n    path: \"/events\",\n    transport: \"ServerSentEvents\",\n  } as const"
    ));
    assert!(rendered.contains(
        "  export const events = (\n    args: EventsArgs\n  ): Stream.Stream<UserEvent, ApiClientError | EventError, ServerApi> =>\n    ServerApi.use((api) => api.events.events(args))"
    ));
}

#[test]
fn endpoints_group_by_namespace_in_name_order() {
    let mut list = get_user_endpoint();
    list.ts_path = vec!["users".to_owned(), "listUsers".to_owned()];
    list.id = symbol("endpoint", &["users", "list_users"]);
    let mut health = get_user_endpoint();
    health.ts_path = Vec::new();
    health.rust_name = "health".to_owned();
    health.id = symbol("endpoint", &["health"]);
    let rendered = render_endpoints(&ApiContract {
        package_name: "p".to_owned(),
        endpoints: vec![list, get_user_endpoint(), health],
        ..ApiContract::default()
    });
    assert_eq!(rendered.matches("export namespace users {").count(), 1);
    let api_at = rendered.find("export namespace api {").unwrap();
    let users_at = rendered.find("export namespace users {").unwrap();
    assert!(api_at < users_at);
    assert!(rendered.contains("}\n\nexport namespace users {"));
    let get_at = rendered.find("export const getUser =").unwrap();
    let list_at = rendered.find("export const listUsers =").unwrap();
    assert!(get_at < list_at);
    assert!(rendered.ends_with("}\n"));
    assert_eq!(rendered.matches("GetUserError").count() >= 1, true);
    assert!(rendered.contains("import type { ApiClientError, GetUserError } from \"./errors\""));
}

#[test]
fn namespace_and_function_name_fall_back_to_rust_names() {
    let mut endpoint = get_user_endpoint();
    endpoint.ts_path = vec!["users".to_owned()];
    assert_eq!(endpoint_namespace(&endpoint), "users");
    assert_eq!(endpoint_function_name(&endpoint), "get_user");
    endpoint.ts_path = Vec::new();
    assert_eq!(endpoint_namespace(&endpoint), "api");
}
