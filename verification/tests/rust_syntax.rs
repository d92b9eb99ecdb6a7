use typeweld::collector::rust_syntax::{parse_source_items, source_items, SynArg, SynFields, SynItem};
use typeweld::collector::source_index::{LineColumn, ModuleContent, NamedSpan, ParsedItem, ParsedSpan};

fn at(line: usize, start: usize, end_line: usize, end: usize) -> ParsedSpan {
    ParsedSpan { start: LineColumn { line, column: start }, end: LineColumn { line: end_line, column: end } }
}

const SOURCE: &str = "pub struct User {\n    pub id: i64,\n}\n\npub fn get_user(id: i64, (a, b): (u8, u8)) {}\n\nmod inner {\n    pub enum State { Active { since: i64 }, Idle(u8) }\n}\n\nmod outer;\nuse std::fmt;\n";

#[test]
fn parse_source_items_reads_names_spans_and_modules() {
    let items = parse_source_items(SOURCE).expect("valid Rust");
    assert_eq!(items.len(), 5);
    match &items[0] {
        ParsedItem::Struct { item, fields } => {
            assert_eq!(item.name, "User");
            assert_eq!(item.name_span, at(1, 11, 1, 15));
            assert_eq!(item.span, at(1, 0, 3, 1));
            assert_eq!(fields.len(), 1);
            assert_eq!(fields[0].name, "id");
            assert_eq!(fields[0].name_span, at(2, 8, 2, 10));
        }
        other => panic!("expected a struct, got {other:?}"),
    }
    match &items[1] {
        ParsedItem::Fn { item, params } => {
            assert_eq!(item.name, "get_user");
            assert_eq!(params.len(), 1);
            assert_eq!(params[0].name, "id");
            assert_eq!(params[0].span, at(5, 16, 5, 23));
        }
        other => panic!("expected a function, got {other:?}"),
    }
    match &items[2] {
        ParsedItem::Mod { name, content: ModuleContent::Inline(inner) } => {
            assert_eq!(name, "inner");
            match &inner[0] {
                ParsedItem::Enum { item, variants } => {
                    assert_eq!(item.name, "State");
                    assert_eq!(variants.len(), 2);
                    assert_eq!(variants[0].variant.name, "Active");
                    assert_eq!(variants[0].fields.len(), 1);
                    assert_eq!(variants[0].fields[0].name, "since");
                    assert_eq!(variants[1].variant.name, "Idle");
                    assert!(variants[1].fields.is_empty());
                }
                other => panic!("expected an enum, got {other:?}"),
            }
        }
        other => panic!("expected an inline module, got {other:?}"),
    }
    assert!(matches!(&items[3], ParsedItem::Mod { name, content: ModuleContent::Absent } if name == "outer"));
    assert!(matches!(&items[4], ParsedItem::Other));
}

#[test]
fn parse_source_items_rejects_invalid_rust() {
    assert!(parse_source_items("pub fn (").is_err());
}

fn named(name: &str) -> NamedSpan {
    NamedSpan { name: name.to_owned(), name_span: at(1, 0, 1, 1), span: at(1, 0, 1, 2) }
}

#[test]
fn source_items_keep_plain_identifier_parameters_and_named_fields() {
    let items = source_items(vec![
        SynItem::Fn {
            item: named("update"),
            inputs: vec![SynArg::Receiver, SynArg::Typed { binding: None }, SynArg::Typed { binding: Some(named("id")) }],
        },
        SynItem::Struct { item: named("Pair"), fields: SynFields::Unnamed },
        SynItem::Struct { item: named("Named"), fields: SynFields::Named(vec![None, Some(named("x"))]) },
        SynItem::Mod { name: "files".to_owned(), inline: None },
    ]);
    assert_eq!(items[0], ParsedItem::Fn { item: named("update"), params: vec![named("id")] });
    assert_eq!(items[1], ParsedItem::Struct { item: named("Pair"), fields: vec![] });
    assert_eq!(items[2], ParsedItem::Struct { item: named("Named"), fields: vec![named("x")] });
    assert_eq!(items[3], ParsedItem::Mod { name: "files".to_owned(), content: ModuleContent::Absent });
}
