use typeweld::gen::package::render_generated_package;
use typeweld::gen::symbols::{LinkedSymbol, SymbolGraph};
use typeweld::ir::{
    ApiContract, EnumShape, EnumVariant, Endpoint, ErrorDef, ErrorRef, ErrorVariant, Field,
    HttpMethod, HttpStatus, Optionality, RequestShape, ResponseShape, RoutePattern, SourceRange,
    SourceSpan, StructShape, SymbolId, Transport, TypeDef, TypeRef, TypeShape,
};

fn source_file(file: &str, line: u32) -> SourceRange {
    SourceRange {
        file: file.to_owned(),
        start_line: line,
        start_column: 0,
        end_line: line,
        end_column: 0,
        full_range: None,
    }
}

fn type_ref(id: &str, name: &str) -> TypeRef {
    TypeRef {
        id: SymbolId::new(id.to_owned()),
        name: name.to_owned(),
    }
}

fn field(id: &str, rust_name: &str, ts_name: &str, type_ref: TypeRef) -> Field {
    Field {
        id: SymbolId::new(id.to_owned()),
        rust_name: rust_name.to_owned(),
        wire_name: ts_name.to_owned(),
        ts_name: ts_name.to_owned(),
        type_ref,
        optionality: Optionality::Required,
        source: source_file("crates/server/src/users.rs", 12),
    }
}

fn contract() -> ApiContract {
    let get_user = Endpoint {
        id: SymbolId::new("fixture:endpoint:getUser".to_owned()),
        rust_path: vec!["fixture".to_owned(), "users".to_owned(), "get_user".to_owned()],
        rust_name: "get_user".to_owned(),
        ts_path: vec!["users".to_owned(), "getUser".to_owned()],
        route: RoutePattern("/users/{id}".to_owned()),
        method: HttpMethod::Get,
        transport: Transport::UnaryHttp,
        request: RequestShape {
            path_params: vec![field(
                "fixture:field:getUser:id",
                "id",
                "id",
                type_ref("fixture:type:i64", "number"),
            )],
            query_params: Vec::new(),
            body: None,
        },
        response: ResponseShape::Json(type_ref("fixture:type:User", "User")),
        errors: vec![ErrorRef {
            id: SymbolId::new("fixture:error:GetUserError".to_owned()),
            name: "GetUserError".to_owned(),
        }],
        source: SourceRange {
            full_range: Some(SourceSpan {
                start_line: 3,
                start_column: 1,
                end_line: 9,
                end_column: 2,
            }),
            ..source_file("crates/server/src/users.rs", 4)
        },
        allow_unused: false,
    };
    let list_users = Endpoint {
        id: SymbolId::new("fixture:endpoint:listUsers".to_owned()),
        rust_path: vec!["fixture".to_owned(), "users".to_owned(), "list_users".to_owned()],
        rust_name: "list_users".to_owned(),
        ts_path: vec!["users".to_owned(), "listUsers".to_owned()],
        route: RoutePattern("/users".to_owned()),
        request: RequestShape::default(),
        response: ResponseShape::Empty,
        errors: Vec::new(),
        ..get_user.clone()
    };
    let user = TypeDef {
        id: SymbolId::new("fixture:type:User".to_owned()),
        rust_path: vec!["fixture".to_owned(), "users".to_owned(), "User".to_owned()],
        rust_name: "User".to_owned(),
        ts_name: "User".to_owned(),
        shape: TypeShape::Struct(StructShape {
            fields: vec![field(
                "fixture:field:User:displayName",
                "display_name",
                "displayName",
                type_ref("fixture:type:String", "string"),
            )],
        }),
        source: source_file("crates/server/src/types.rs", 10),
    };
    let account_state = TypeDef {
        id: SymbolId::new("fixture:type:AccountState".to_owned()),
        rust_path: vec!["fixture".to_owned(), "users".to_owned(), "AccountState".to_owned()],
        rust_name: "AccountState".to_owned(),
        ts_name: "AccountState".to_owned(),
        shape: TypeShape::Enum(EnumShape {
            variants: vec![EnumVariant {
                id: SymbolId::new("fixture:enum:AccountState:Active".to_owned()),
                rust_name: "Active".to_owned(),
                wire_name: "active".to_owned(),
                fields: Vec::new(),
                source: source_file("crates/server/src/types.rs", 30),
            }],
        }),
        source: source_file("crates/server/src/types.rs", 29),
    };
    let error = ErrorDef {
        id: SymbolId::new("fixture:error:GetUserError".to_owned()),
        rust_path: vec!["fixture".to_owned(), "users".to_owned(), "GetUserError".to_owned()],
        rust_name: "GetUserError".to_owned(),
        ts_name: "GetUserError".to_owned(),
        variants: vec![ErrorVariant {
            id: SymbolId::new("fixture:error:GetUserError:UserNotFound".to_owned()),
            rust_name: "UserNotFound".to_owned(),
            tag: "UserNotFound".to_owned(),
            status: HttpStatus(404),
            fields: vec![field(
                "fixture:field:GetUserError:UserNotFound:id",
                "id",
                "id",
                type_ref("fixture:type:i64", "number"),
            )],
            source: source_file("crates/server/src/errors.rs", 5),
        }],
        source: source_file("crates/server/src/errors.rs", 4),
    };
    ApiContract {
        package_name: "@workspace/server-api".to_owned(),
        endpoints: vec![get_user, list_users],
        types: vec![user, account_state],
        errors: vec![error],
    }
}

fn find<'a>(graph: &'a SymbolGraph, id: &str) -> &'a LinkedSymbol {
    graph
        .symbols
        .iter()
        .find(|symbol| symbol.id == id)
        .unwrap_or_else(|| panic!("missing symbol {id}"))
}

#[test]
fn renders_symbol_graph_for_generated_package() {
    let contract = contract();
    let package = render_generated_package(&contract, "target");

    let graph = SymbolGraph::from_generated_package(&contract, &package);
    assert_eq!(graph, SymbolGraph::from_generated_package(&contract, &package));

    let endpoint = find(&graph, "fixture:endpoint:getUser");
    assert_eq!(endpoint.kind, "endpoint");
    assert_eq!(endpoint.metadata.method.as_deref(), Some("GET"));
    assert_eq!(endpoint.metadata.route.as_deref(), Some("/users/{id}"));
    assert_eq!(endpoint.metadata.ts_path, vec!["users", "getUser"]);
    assert!(endpoint.rust.name_range.is_some());
    assert!(endpoint.rust.full_range.is_some());
    assert!(endpoint.typescript.iter().any(|location| location.generated
        && location
            .file
            .as_deref()
            .is_some_and(|file| file.ends_with("endpoints.ts"))));
    assert!(endpoint.typescript.iter().any(|location| location
        .file
        .as_deref()
        .is_some_and(|file| file.ends_with("layer.ts"))));

    assert_eq!(find(&graph, "fixture:field:getUser:id").kind, "routeParam");
    assert_eq!(find(&graph, "fixture:type:AccountState").kind, "type");
    assert_eq!(find(&graph, "fixture:enum:AccountState:Active").kind, "enumVariant");
    assert_eq!(find(&graph, "fixture:field:User:displayName").kind, "field");
    assert_eq!(
        find(&graph, "fixture:error:GetUserError:UserNotFound").kind,
        "errorVariant"
    );
    assert!(graph.symbols.iter().any(|symbol| symbol.kind == "errorTag"));
    for symbol in &graph.symbols {
        assert!(
            !symbol.typescript.is_empty(),
            "missing generated TypeScript range for {}",
            symbol.id
        );
    }
}

#[test]
fn symbol_graph_metadata_and_locations() {
    let contract = contract();
    let package = render_generated_package(&contract, "target");
    let graph = SymbolGraph::from_generated_package(&contract, &package);

    let endpoint = find(&graph, "fixture:endpoint:getUser");
    assert_eq!(endpoint.metadata.reserved_names, vec!["listUsers"]);
    assert_eq!(endpoint.metadata.usage_count, Some(0));
    assert_eq!(endpoint.metadata.errors, vec!["GetUserError"]);
    assert_eq!(endpoint.metadata.rename_placeholder.as_deref(), Some("getUser"));
    assert_eq!(
        endpoint.metadata.effect_signature.as_deref(),
        Some("Effect.Effect<User, ApiClientError | GetUserError, ServerApi>")
    );
    assert_eq!(endpoint.rust.file.as_deref(), Some("crates/server/src/users.rs"));
    assert_eq!((endpoint.rust.range.start.line, endpoint.rust.range.start.character), (3, 0));
    let full = endpoint.rust.full_range.expect("full range");
    assert_eq!((full.start.line, full.end.line, full.end.character), (2, 8, 1));

    let display_name = find(&graph, "fixture:field:User:displayName");
    assert_eq!(display_name.metadata.rust_path, vec!["fixture", "users", "User", "display_name"]);
    assert_eq!(display_name.metadata.ts_path, vec!["User", "displayName"]);
    assert_eq!(display_name.metadata.method, None);

    let error_field = find(&graph, "fixture:field:GetUserError:UserNotFound:id");
    assert_eq!(error_field.kind, "errorField");
    assert_eq!(error_field.metadata.ts_path, vec!["GetUserUserNotFound", "id"]);

    let kinds: Vec<&str> = graph.symbols.iter().map(|symbol| symbol.kind.as_str()).collect();
    let mut sorted = kinds.clone();
    sorted.sort();
    assert_eq!(kinds, sorted);
    for location in &endpoint.typescript {
        assert!(location
            .file
            .as_deref()
            .is_some_and(|file| file.starts_with("target/api-contract/effect-v4/packages/")));
    }
}
