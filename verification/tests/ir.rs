use typeweld::ir::SymbolId;

#[test]
fn symbol_ids_are_deterministic() {
    let first = SymbolId::from_parts("endpoint", &["example", "get_user"]);
    let second = SymbolId::from_parts("endpoint", &["example", "get_user"]);
    let different = SymbolId::from_parts("endpoint", &["example", "delete_user"]);

    assert_eq!(first, second);
    assert_ne!(first, different);
    assert_eq!(first.as_str(), "endpoint:dd7ba083e0f14f7c");
}

#[test]
fn symbol_id_keeps_namespace_prefix() {
    let id = SymbolId::from_parts("type", &["example", "User"]);
    assert!(id.as_str().starts_with("type:"));
    assert_eq!(id.as_str().len(), "type:".len() + 16);
}

#[test]
fn persisted_symbol_ids_convert_verbatim() {
    let value = "type:00ff".to_owned();
    assert_eq!(SymbolId::from(value.clone()), SymbolId::new(value.clone()));
    assert_eq!(SymbolId::from(value.as_str()).as_str(), "type:00ff");
}
