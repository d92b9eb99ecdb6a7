use typeweld::collector::source_index::{
    refine_contract_source_ranges, utf16_column, LineColumn, ModuleContent, NamedSpan,
    ParsedFile, ParsedItem, ParsedSpan, ParsedVariant, RustSourceIndex,
};
use typeweld::ir::{
    ApiContract, Endpoint, EnumShape, EnumVariant, Field, HttpMethod, Optionality, RequestShape,
    ResponseShape, RoutePattern, SourceRange, SymbolId, Transport, TypeDef, TypeRef, TypeShape,
};

fn span(line: usize, start: usize, end: usize) -> ParsedSpan {
    ParsedSpan {
        start: LineColumn { line, column: start },
        end: LineColumn { line, column: end },
    }
}

fn named(name: &str, line: usize, start: usize) -> NamedSpan {
    NamedSpan {
        name: name.to_owned(),
        name_span: span(line, start, start + name.len()),
        span: span(line, 0, start + name.len() + 1),
    }
}

const USERS: &str = "pub fn get_user(id: i64) {}\npub enum State { Active { since: i64 } }\n";

fn root() -> ParsedFile {
    ParsedFile {
        label: "server/src/lib.rs".to_owned(),
        contents: "pub mod users;\n".to_owned(),
        items: vec![ParsedItem::Mod {
            name: "users".to_owned(),
            content: ModuleContent::File(Box::new(ParsedFile {
                label: "server/src/users.rs".to_owned(),
                contents: USERS.to_owned(),
                items: vec![
                    ParsedItem::Fn {
                        item: named("get_user", 1, 7),
                        params: vec![named("id", 1, 16)],
                    },
                    ParsedItem::Enum {
                        item: named("State", 2, 9),
                        variants: vec![ParsedVariant {
                            variant: named("Active", 2, 17),
                            fields: vec![named("since", 2, 26)],
                        }],
                    },
                    ParsedItem::Other,
                ],
            })),
        }],
    }
}

fn blank() -> SourceRange {
    SourceRange::default()
}

#[test]
fn utf16_columns_count_code_units_before_the_byte_column() {
    let contents = "fn a() {}\nlet é = 1;\n";
    assert_eq!(utf16_column(contents, 2, 7), Some(7));
    assert_eq!(utf16_column(contents, 2, 5), Some(11));
    assert_eq!(utf16_column(contents, 1, 0), Some(1));
    assert_eq!(utf16_column(contents, 0, 0), None);
    assert_eq!(utf16_column(contents, 3, 0), None);
    assert_eq!(utf16_column("a😀b", 1, 5), Some(4));
}

#[test]
fn index_records_declarations_under_module_paths() {
    let index = RustSourceIndex::for_root(&root(), "server");
    assert_eq!(index.functions.len(), 1);
    assert_eq!(index.functions[0].0, vec!["server", "users", "get_user"]);
    let range = &index.functions[0].1;
    assert_eq!(range.file, "server/src/users.rs");
    assert_eq!((range.start_line, range.start_column, range.end_column), (1, 8, 16));
    assert_eq!(index.endpoint_params[0].0, vec!["server", "users", "get_user", "id"]);
    assert_eq!(index.types[0].0, vec!["server", "users", "State"]);
    assert_eq!(index.variants[0].0, vec!["server", "users", "State", "Active"]);
    assert_eq!(index.fields[0].0, vec!["server", "users", "State", "Active", "since"]);
}

#[test]
fn refine_replaces_ranges_found_in_the_index() {
    let index = RustSourceIndex::for_root(&root(), "server");
    let field = Field {
        id: SymbolId::new("field:id".to_owned()),
        rust_name: "id".to_owned(),
        wire_name: "id".to_owned(),
        ts_name: "id".to_owned(),
        type_ref: TypeRef {
            id: SymbolId::new("type:i64".to_owned()),
            name: "number".to_owned(),
        },
        optionality: Optionality::Required,
        source: blank(),
    };
    let mut contract = ApiContract {
        package_name: "@ws/api".to_owned(),
        endpoints: vec![Endpoint {
            id: SymbolId::new("endpoint:get_user".to_owned()),
            rust_path: vec!["server".to_owned(), "users".to_owned(), "get_user".to_owned()],
            rust_name: "get_user".to_owned(),
            ts_path: vec!["users".to_owned(), "getUser".to_owned()],
            route: RoutePattern("/users/{id}".to_owned()),
            method: HttpMethod::Get,
            transport: Transport::UnaryHttp,
            request: RequestShape {
                path_params: vec![field],
                query_params: Vec::new(),
                body: None,
            },
            response: ResponseShape::Empty,
            errors: Vec::new(),
            source: blank(),
            allow_unused: false,
        }],
        types: vec![TypeDef {
            id: SymbolId::new("type:State".to_owned()),
            rust_path: vec!["server".to_owned(), "users".to_owned(), "State".to_owned()],
            rust_name: "State".to_owned(),
            ts_name: "State".to_owned(),
            shape: TypeShape::Enum(EnumShape {
                variants: vec![EnumVariant {
                    id: SymbolId::new("variant:Active".to_owned()),
                    rust_name: "Active".to_owned(),
                    wire_name: "active".to_owned(),
                    fields: Vec::new(),
                    source: blank(),
                }],
            }),
            source: blank(),
        }],
        errors: Vec::new(),
    };

    refine_contract_source_ranges(&mut contract, &index);

    assert_eq!(contract.endpoints[0].source.file, "server/src/users.rs");
    assert_eq!(contract.endpoints[0].source.start_column, 8);
    assert_eq!(contract.endpoints[0].request.path_params[0].source.start_column, 17);
    assert_eq!(contract.types[0].source.start_line, 2);
    match &contract.types[0].shape {
        TypeShape::Enum(shape) => assert_eq!(shape.variants[0].source.start_column, 18),
        other => panic!("unexpected shape {other:?}"),
    }
}
