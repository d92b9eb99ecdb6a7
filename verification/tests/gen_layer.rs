use typeweld::gen::layer::{render_layer, render_request_encoder, render_tracked_layer};
use typeweld::ir::{
    ApiContract, Endpoint, ErrorRef, Field, HttpMethod, Optionality, RequestShape, ResponseShape,
    RoutePattern, SourceRange, SymbolId, Transport, TypeRef,
};

fn symbol(namespace: &str, parts: &[&str]) -> SymbolId {
    SymbolId::from_parts(namespace, parts)
}

fn source() -> SourceRange {
    SourceRange {
        file: String::new(),
        start_line: 0,
        start_column: 0,
        end_line: 0,
        end_column: 0,
        full_range: None,
    }
}

fn type_ref(name: &str) -> TypeRef {
    TypeRef {
        id: symbol("type", &[name]),
        name: name.to_owned(),
    }
}

fn field(rust_name: &str, ts_name: &str, type_ref: TypeRef, optionality: Optionality) -> Field {
    Field {
        id: symbol("field", &[rust_name]),
        rust_name: rust_name.to_owned(),
        wire_name: ts_name.to_owned(),
        ts_name: ts_name.to_owned(),
        type_ref,
        optionality,
        source: source(),
    }
}

fn get_user() -> Endpoint {
    Endpoint {
        id: symbol("endpoint", &["users", "get_user"]),
        rust_path: vec!["server".to_owned(), "users".to_owned(), "get_user".to_owned()],
        rust_name: "get_user".to_owned(),
        ts_path: vec!["users".to_owned(), "getUser".to_owned()],
        route: RoutePattern("/users/{id}".to_owned()),
        method: HttpMethod::Get,
        transport: Transport::UnaryHttp,
        request: RequestShape {
            path_params: vec![field("id", "id", type_ref("UserId"), Optionality::Required)],
            query_params: Vec::new(),
            body: None,
        },
        response: ResponseShape::Json(type_ref("User")),
        errors: vec![ErrorRef {
            id: symbol("error", &["GetUserError"]),
            name: "GetUserError".to_owned(),
        }],
        source: source(),
        allow_unused: false,
    }
}

#[test]
fn renders_server_api_service_and_layers() {
    let contract = ApiContract {
        package_name: "@workspace/server-api".to_owned(),
        endpoints: vec![get_user()],
        ..ApiContract::default()
    };

    let rendered = render_layer(&contract);

    assert!(rendered.contains(
        "import { Context, Layer, Effect } from \"@rust-ts-integration/effect-runtime/compat\""
    ));
    assert!(rendered
        .contains("import { makeUnaryHttpClient } from \"@rust-ts-integration/effect-runtime\""));
    assert!(rendered.contains("import { users } from \"./endpoints\""));
    assert!(rendered.contains("import { User, UserId } from \"./schemas\""));
    assert!(rendered.contains("import type { ApiClientError, GetUserError } from \"./errors\""));
    assert!(rendered.contains(
        "export class ServerApi extends Context.Service<ServerApi, ServerApi.Service>()(\"@workspace/server-api::ServerApi\") {}"
    ));
    assert!(rendered.contains(
        "      readonly getUser: (args: users.GetUserArgs) => Effect.Effect<User, ApiClientError | GetUserError, never>"
    ));
    assert!(rendered
        .contains("  export const layer = (config: ServerApiConfig): Layer.Layer<ServerApi> =>"));
    assert!(rendered
        .contains("getUser: makeUnaryHttpClient<users.GetUserArgs, User, GetUserError>(config,"));
    assert!(rendered.contains("decodeSuccess: (input) => makeUnaryHttpClient.decode(input, User)"));
    assert!(rendered.contains(
        "return makeUnaryHttpClient.decode(input, GetUserErrorSchema) as Effect.Effect<GetUserError, ApiClientError>"
    ));
    assert!(rendered.contains("  export const mock = (service: Service): Layer.Layer<ServerApi> =>"));
}

#[test]
fn renders_sse_server_api_service_and_layer_client() {
    let contract = ApiContract {
        package_name: "@workspace/server-api".to_owned(),
        endpoints: vec![Endpoint {
            id: symbol("endpoint", &["events", "events"]),
            rust_path: vec!["server".to_owned(), "events".to_owned(), "events".to_owned()],
            rust_name: "events".to_owned(),
            ts_path: vec!["events".to_owned(), "events".to_owned()],
            route: RoutePattern("/events".to_owned()),
            method: HttpMethod::Get,
            transport: Transport::ServerSentEvents,
            request: RequestShape::default(),
            response: ResponseShape::Stream(type_ref("UserEvent")),
            errors: vec![ErrorRef {
                id: symbol("error", &["EventError"]),
                name: "EventError".to_owned(),
            }],
            source: source(),
            allow_unused: false,
        }],
        ..ApiContract::default()
    };

    let rendered = render_layer(&contract);

    assert!(rendered.contains(
        "import { Context, Layer, Effect, Stream } from \"@rust-ts-integration/effect-runtime/compat\""
    ));
    assert!(rendered.contains("import { makeSseClient } from \"@rust-ts-integration/effect-runtime\""));
    assert!(rendered.contains(
        "      readonly events: (args: events.EventsArgs) => Stream.Stream<UserEvent, ApiClientError | EventError, never>"
    ));
    assert!(rendered.contains("events: makeSseClient<events.EventsArgs, UserEvent, EventError>(config,"));
    assert!(rendered.contains("decodeSuccess: (input) => makeSseClient.decode(input, UserEvent)"));
}

#[test]
fn request_encoder_maps_wire_names_and_body() {
    let mut request = get_user().request;
    request.query_params = vec![field("include_posts", "includePosts", type_ref("bool"), Optionality::Optional)];
    request.query_params[0].wire_name = "include_posts".to_owned();
    request.body = Some(type_ref("Body"));
    let rendered = render_request_encoder(&request, "users.GetUserArgs");
    assert_eq!(
        rendered,
        "(args: users.GetUserArgs) => ({\n            path: {\n                          id: args.id,\n                        },\n            query: {\n                          include_posts: args.includePosts,\n                        },\n            body: args.body,\n          })"
    );
    assert_eq!(render_request_encoder(&RequestShape::default(), "X"), "() => ({})");
}

#[test]
fn layer_groups_each_namespace_once() {
    let mut list = get_user();
    list.ts_path = vec!["users".to_owned(), "listUsers".to_owned()];
    list.errors = Vec::new();
    let rendered = render_layer(&ApiContract {
        package_name: "p".to_owned(),
        endpoints: vec![list, get_user()],
        ..ApiContract::default()
    });
    assert_eq!(rendered.matches("    readonly users: {\n").count(), 1);
    assert_eq!(rendered.matches("      users: {\n").count(), 1);
    assert!(rendered.contains("decodeError: () => undefined,"));
    let get_at = rendered.find("readonly getUser:").unwrap();
    let list_at = rendered.find("readonly listUsers:").unwrap();
    assert!(get_at < list_at);
    assert!(rendered.ends_with("    Layer.succeed(ServerApi, ServerApi.of(service))\n}\n"));
}

fn text_at(contents: &str, line: u32, start: u32, end: u32) -> String {
    let text = contents.lines().nth(line as usize).expect("marked line");
    text.chars().skip(start as usize).take((end - start) as usize).collect()
}

#[test]
fn layer_marks_each_endpoint_name_in_interface_and_fetch_layer() {
    let contract = ApiContract {
        package_name: "@workspace/server-api".to_owned(),
        endpoints: vec![get_user()],
        ..ApiContract::default()
    };

    let layer = render_tracked_layer(&contract);

    assert_eq!(layer.file.path, "layer.ts");
    assert_eq!(layer.marks.len(), 2);
    for mark in &layer.marks {
        assert_eq!(mark.path, "layer.ts");
        assert_eq!(mark.kind, "endpoint");
        assert_eq!(mark.symbol_id, get_user().id.as_str());
        assert_eq!(mark.range.start.line, mark.range.end.line);
        assert_eq!(
            text_at(&layer.file.contents, mark.range.start.line, mark.range.start.character, mark.range.end.character),
            "getUser"
        );
    }
    assert!(layer.marks[0].range.start.line < layer.marks[1].range.start.line);
}
