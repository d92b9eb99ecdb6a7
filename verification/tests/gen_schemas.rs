use typeweld::gen::schemas::{render_schemas, render_tracked_schemas, render_type_shape};
use typeweld::ir::{
    ApiContract, EnumShape, EnumVariant, Field, Optionality, Primitive, SourceRange, StructShape,
    SymbolId, TypeDef, TypeRef, TypeShape,
};

fn symbol(namespace: &str, parts: &[&str]) -> SymbolId {
    SymbolId::from_parts(namespace, parts)
}

fn source() -> SourceRange {
    SourceRange {
        file: String::new(),
        start_line: 0,
        start_column: 0,
        end_line: 0,
        end_column: 0,
        full_range: None,
    }
}

fn type_ref(name: &str) -> TypeRef {
    TypeRef {
        id: symbol("type", &[name]),
        name: name.to_owned(),
    }
}

fn field(rust_name: &str, ts_name: &str, type_ref: TypeRef, optionality: Optionality) -> Field {
    Field {
        id: symbol("field", &[rust_name]),
        rust_name: rust_name.to_owned(),
        wire_name: ts_name.to_owned(),
        ts_name: ts_name.to_owned(),
        type_ref,
        optionality,
        source: source(),
    }
}

fn simple_type(name: &str) -> TypeDef {
    TypeDef {
        id: symbol("type", &[name]),
        rust_path: vec![name.to_owned()],
        rust_name: name.to_owned(),
        ts_name: name.to_owned(),
        shape: TypeShape::Primitive(Primitive::String),
        source: source(),
    }
}

#[test]
fn renders_struct_schemas_with_aliases() {
    let contract = ApiContract {
        package_name: "@workspace/server-api".to_owned(),
        types: vec![TypeDef {
            id: symbol("type", &["User"]),
            rust_path: vec!["server".to_owned(), "users".to_owned(), "User".to_owned()],
            rust_name: "User".to_owned(),
            ts_name: "User".to_owned(),
            shape: TypeShape::Struct(StructShape {
                fields: vec![
                    field("id", "id", type_ref("UserId"), Optionality::Required),
                    field("display_name", "displayName", type_ref("String"), Optionality::Required),
                    field("avatar_url", "avatarURL", type_ref("String"), Optionality::Nullable),
                    field("nickname", "nickname", type_ref("String"), Optionality::OptionalNullable),
                    field("timezone", "timezone", type_ref("String"), Optionality::Optional),
                ],
            }),
            source: source(),
        }],
        ..ApiContract::default()
    };

    let rendered = render_schemas(&contract);

    assert_eq!(
        rendered,
        r#"// Generated API package for @workspace/server-api
import { Schema } from "@rust-ts-integration/effect-runtime/compat"

export const User = Schema.Struct({
  id: UserId,
  displayName: Schema.String,
  avatarURL: Schema.NullOr(Schema.String),
  nickname: Schema.optionalKey(Schema.NullOr(Schema.String)),
  timezone: Schema.optionalKey(Schema.String),
})
export type User = Schema.Schema.Type<typeof User>
export type UserEncoded = Schema.Codec.Encoded<typeof User>
"#
    );
}

#[test]
fn renders_newtypes_and_enums() {
    let contract = ApiContract {
        package_name: "example-api".to_owned(),
        types: vec![
            TypeDef {
                id: symbol("type", &["UserId"]),
                rust_path: vec!["server".to_owned(), "users".to_owned(), "UserId".to_owned()],
                rust_name: "UserId".to_owned(),
                ts_name: "UserId".to_owned(),
                shape: TypeShape::Newtype(Box::new(type_ref("String"))),
                source: source(),
            },
            TypeDef {
                id: symbol("type", &["UserEvent"]),
                rust_path: vec!["server".to_owned(), "users".to_owned(), "UserEvent".to_owned()],
                rust_name: "UserEvent".to_owned(),
                ts_name: "UserEvent".to_owned(),
                shape: TypeShape::Enum(EnumShape {
                    variants: vec![
                        EnumVariant {
                            id: symbol("variant", &["UserEvent", "Created"]),
                            rust_name: "Created".to_owned(),
                            wire_name: "created".to_owned(),
                            fields: Vec::new(),
                            source: source(),
                        },
                        EnumVariant {
                            id: symbol("variant", &["UserEvent", "Renamed"]),
                            rust_name: "Renamed".to_owned(),
                            wire_name: "renamed".to_owned(),
                            fields: vec![field(
                                "display_name",
                                "displayName",
                                type_ref("String"),
                                Optionality::Required,
                            )],
                            source: source(),
                        },
                    ],
                }),
                source: source(),
            },
        ],
        ..ApiContract::default()
    };

    let rendered = render_schemas(&contract);

    assert!(rendered.contains(
        "export const UserId = Schema.String.pipe(Schema.brand(\"server::users::UserId\"))"
    ));
    assert!(rendered.contains(
        "export const UserEvent = Schema.Union([Schema.Struct({ _tag: Schema.Literal(\"created\") }), Schema.Struct({\n  _tag: Schema.Literal(\"renamed\"),\n  displayName: Schema.String,\n})])"
    ));
}

#[test]
fn renders_collection_shapes() {
    let owner = TypeDef {
        id: symbol("type", &["Lookup"]),
        rust_path: vec!["Lookup".to_owned()],
        rust_name: "Lookup".to_owned(),
        ts_name: "Lookup".to_owned(),
        shape: TypeShape::Record {
            key: Box::new(type_ref("String")),
            value: Box::new(type_ref("User")),
        },
        source: source(),
    };

    assert_eq!(
        render_type_shape(&owner.shape, &owner),
        "Schema.Record(Schema.String, User)"
    );

    let owner = TypeDef {
        shape: TypeShape::List(Box::new(type_ref("User"))),
        ..owner
    };
    assert_eq!(render_type_shape(&owner.shape, &owner), "Schema.Array(User)");

    let owner = TypeDef {
        shape: TypeShape::Option(Box::new(type_ref("User"))),
        ..owner
    };
    assert_eq!(render_type_shape(&owner.shape, &owner), "Schema.NullOr(User)");
}

#[test]
fn renders_types_in_deterministic_name_order() {
    let contract = ApiContract {
        package_name: "example-api".to_owned(),
        types: vec![simple_type("Zed"), simple_type("Alpha")],
        ..ApiContract::default()
    };

    let rendered = render_schemas(&contract);

    let alpha = rendered.find("export const Alpha").expect("Alpha is rendered");
    let zed = rendered.find("export const Zed").expect("Zed is rendered");
    assert!(alpha < zed);
}

#[test]
fn schemas_do_not_depend_on_type_order() {
    let forward = ApiContract {
        package_name: "@workspace/server-api".to_owned(),
        types: vec![simple_type("Zeta"), simple_type("Alpha"), simple_type("Mid")],
        ..ApiContract::default()
    };
    let backward = ApiContract {
        package_name: "@workspace/server-api".to_owned(),
        types: vec![simple_type("Mid"), simple_type("Alpha"), simple_type("Zeta")],
        ..ApiContract::default()
    };
    assert_eq!(render_schemas(&forward), render_schemas(&backward));
}

#[test]
fn schema_marks_name_the_type_and_its_fields() {
    let contract = ApiContract {
        package_name: "@workspace/server-api".to_owned(),
        types: vec![TypeDef {
            id: symbol("type", &["User"]),
            rust_path: vec!["User".to_owned()],
            rust_name: "User".to_owned(),
            ts_name: "User".to_owned(),
            shape: TypeShape::Struct(StructShape {
                fields: vec![field("display_name", "displayName", type_ref("String"), Optionality::Required)],
            }),
            source: source(),
        }],
        ..ApiContract::default()
    };

    let schemas = render_tracked_schemas(&contract);
    let lines: Vec<&str> = schemas.file.contents.lines().collect();
    let marked: Vec<(String, String, String)> = schemas
        .marks
        .iter()
        .map(|mark| {
            let line = lines[mark.range.start.line as usize];
            let text: String = line
                .chars()
                .skip(mark.range.start.character as usize)
                .take((mark.range.end.character - mark.range.start.character) as usize)
                .collect();
            (mark.symbol_id.clone(), mark.kind.clone(), text)
        })
        .collect();

    let user = symbol("type", &["User"]).as_str().to_owned();
    let display_name = symbol("field", &["display_name"]).as_str().to_owned();
    assert_eq!(
        marked,
        vec![
            (user.clone(), "type".to_owned(), "User".to_owned()),
            (display_name, "field".to_owned(), "displayName".to_owned()),
            (user.clone(), "type".to_owned(), "User".to_owned()),
            (user, "type".to_owned(), "UserEncoded".to_owned()),
        ]
    );
}
