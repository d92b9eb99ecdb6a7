use typeweld::gen::errors::{error_variant_class_name, render_errors, render_source_range};
use typeweld::ir::{
    ApiContract, ErrorDef, ErrorVariant, Field, HttpStatus, Optionality, SourceRange, SymbolId,
    TypeRef,
};

fn symbol(namespace: &str, parts: &[&str]) -> SymbolId {
    SymbolId::from_parts(namespace, parts)
}

fn source_file(file: &str, line: u32) -> SourceRange {
    SourceRange {
        file: file.to_owned(),
        start_line: line,
        start_column: 0,
        end_line: line,
        end_column: 0,
        full_range: None,
    }
}

fn type_ref(name: &str) -> TypeRef {
    TypeRef {
        id: symbol("type", &[name]),
        name: name.to_owned(),
    }
}

fn field(rust_name: &str, ts_name: &str, type_ref: TypeRef, optionality: Optionality) -> Field {
    Field {
        id: symbol("field", &[rust_name]),
        rust_name: rust_name.to_owned(),
        wire_name: ts_name.to_owned(),
        ts_name: ts_name.to_owned(),
        type_ref,
        optionality,
        source: source_file("", 0),
    }
}

fn get_user_error() -> ErrorDef {
    ErrorDef {
        id: symbol("error", &["GetUserError"]),
        rust_path: vec!["server".to_owned(), "users".to_owned(), "GetUserError".to_owned()],
        rust_name: "GetUserError".to_owned(),
        ts_name: "GetUserError".to_owned(),
        variants: vec![
            ErrorVariant {
                id: symbol("error_variant", &["GetUserError", "NotFound"]),
                rust_name: "NotFound".to_owned(),
                tag: "notFound".to_owned(),
                status: HttpStatus(404),
                fields: vec![field("id", "id", type_ref("UserId"), Optionality::Required)],
                source: source_file("src/users.rs", 42),
            },
            ErrorVariant {
                id: symbol("error_variant", &["GetUserError", "PermissionDenied"]),
                rust_name: "PermissionDenied".to_owned(),
                tag: "permission-denied".to_owned(),
                status: HttpStatus(403),
                fields: Vec::new(),
                source: source_file("src/users.rs", 47),
            },
        ],
        source: source_file("src/users.rs", 39),
    }
}

#[test]
fn renders_domain_errors_with_status_and_symbol_metadata() {
    let contract = ApiContract {
        package_name: "@workspace/server-api".to_owned(),
        errors: vec![get_user_error()],
        ..ApiContract::default()
    };

    let rendered = render_errors(&contract);

    assert!(rendered.contains("import { UserId } from \"./schemas\""));
    assert!(rendered.contains(
        "export class GetUserNotFound extends Schema.TaggedErrorClass<GetUserNotFound>()(\n  \"notFound\","
    ));
    assert!(rendered.contains("    id: UserId,"));
    assert!(rendered
        .contains("export type GetUserError =\n  | GetUserNotFound\n  | GetUserPermissionDenied"));
    assert!(rendered.contains(
        "export const GetUserErrorStatus = {\n  notFound: 404,\n  \"permission-denied\": 403,\n} as const"
    ));
    assert!(rendered.contains("export const GetUserErrorSymbols = {"));
    assert!(rendered.contains("file: \"src/users.rs\""));
    assert!(rendered.contains("startLine: 42"));
}

#[test]
fn renders_generated_client_error_union() {
    let rendered = render_errors(&ApiContract {
        package_name: "example-api".to_owned(),
        ..ApiContract::default()
    });

    assert!(rendered
        .contains("export class NetworkError extends Schema.TaggedErrorClass<NetworkError>()("));
    assert!(rendered.contains(
        "export class UnexpectedStatusError extends Schema.TaggedErrorClass<UnexpectedStatusError>()("
    ));
    assert!(rendered.contains(
        "export type ApiClientError =\n  | NetworkError\n  | TimeoutError\n  | EncodeError\n  | DecodeError\n  | UnexpectedStatusError\n  | RemoteProtocolError"
    ));
}

#[test]
fn error_metadata_maps_status_codes_to_tags_and_classes() {
    let rendered = render_errors(&ApiContract {
        package_name: "p".to_owned(),
        errors: vec![get_user_error()],
        ..ApiContract::default()
    });
    assert!(rendered.contains(
        "export const GetUserErrorStatusByCode = {\n  404: \"notFound\",\n  403: \"permission-denied\",\n} as const"
    ));
    assert!(rendered.contains(
        "export const GetUserErrorSchemaByStatus = {\n  404: GetUserNotFound,\n  403: GetUserPermissionDenied,\n} as const"
    ));
    assert!(rendered.contains("rustName: \"PermissionDenied\""));
    assert!(rendered.starts_with("// Generated API package for p\n"));
    assert!(!rendered.ends_with("\n\n"));
}

#[test]
fn class_names_drop_only_a_trailing_error_suffix() {
    let mut error = get_user_error();
    let variant = error.variants[0].clone();
    assert_eq!(error_variant_class_name(&error, &variant), "GetUserNotFound");
    error.ts_name = "Failure".to_owned();
    assert_eq!(error_variant_class_name(&error, &variant), "FailureNotFound");
    error.ts_name = "Error".to_owned();
    assert_eq!(error_variant_class_name(&error, &variant), "NotFound");
}

#[test]
fn source_ranges_render_with_indentation() {
    let rendered = render_source_range(&source_file("a\"b.rs", 7), 2);
    assert_eq!(
        rendered,
        "{\n    file: \"a\\\"b.rs\",\n    startLine: 7,\n    startColumn: 0,\n    endLine: 7,\n    endColumn: 0,\n  }"
    );
}

#[test]
fn errors_render_in_name_order() {
    let mut b = get_user_error();
    b.ts_name = "BError".to_owned();
    let mut a = get_user_error();
    a.ts_name = "AError".to_owned();
    let rendered = render_errors(&ApiContract {
        package_name: "p".to_owned(),
        errors: vec![b, a],
        ..ApiContract::default()
    });
    let a_at = rendered.find("export type AError").unwrap();
    let b_at = rendered.find("export type BError").unwrap();
    assert!(a_at < b_at);
    assert_eq!(rendered.matches("import { UserId }").count(), 1);
}
