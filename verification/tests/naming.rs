use typeweld::naming::{
    apply_rename_rule, default_ts_path, route_params, split_words, to_camel_case, RenameRule,
};

#[test]
fn common_rename_rules_match_serde_spellings() {
    assert_eq!(
        apply_rename_rule("display_name", Some(RenameRule::Camel)),
        "displayName"
    );
    assert_eq!(
        apply_rename_rule("display_name", Some(RenameRule::Pascal)),
        "DisplayName"
    );
    assert_eq!(
        apply_rename_rule("display_name", Some(RenameRule::Kebab)),
        "display-name"
    );
    assert_eq!(
        apply_rename_rule("display_name", Some(RenameRule::ScreamingSnake)),
        "DISPLAY_NAME"
    );
}

#[test]
fn rename_rules_split_pascal_case_names() {
    assert_eq!(apply_rename_rule("UserCreated", Some(RenameRule::Snake)), "user_created");
    assert_eq!(apply_rename_rule("UserCreated", Some(RenameRule::Camel)), "userCreated");
    assert_eq!(apply_rename_rule("avatarURL", None), "avatarURL");
    assert_eq!(apply_rename_rule("avatarURL", Some(RenameRule::Kebab)), "avatar-u-r-l");
    assert_eq!(split_words("__a--bC"), vec!["A".to_owned(), "B".to_owned(), "C".to_owned()]);
    assert_eq!(to_camel_case(""), "");
    assert_eq!(to_camel_case("get_user"), "getUser");
}

#[test]
fn rename_rule_parse_accepts_serde_names_only() {
    assert_eq!(RenameRule::parse("camelCase"), Ok(RenameRule::Camel));
    assert_eq!(RenameRule::parse("PascalCase"), Ok(RenameRule::Pascal));
    assert_eq!(RenameRule::parse("snake_case"), Ok(RenameRule::Snake));
    assert_eq!(RenameRule::parse("kebab-case"), Ok(RenameRule::Kebab));
    assert_eq!(
        RenameRule::parse("SCREAMING_SNAKE_CASE"),
        Ok(RenameRule::ScreamingSnake)
    );
    assert_eq!(
        RenameRule::parse("lowercase"),
        Err("unsupported serde rename_all rule `lowercase`".to_owned())
    );
}

#[test]
fn route_params_reads_braces_and_colons() {
    assert_eq!(route_params("/users/{id}/posts/{post_id}"), vec!["id", "post_id"]);
    assert_eq!(route_params("/users/:id/posts"), vec!["id"]);
    assert_eq!(route_params("/a/{unclosed"), Vec::<String>::new());
    assert_eq!(route_params("/x/:a:b"), vec!["a:b", "b"]);
}

#[test]
fn default_ts_path_uses_first_static_segment() {
    assert_eq!(
        default_ts_path("/users/{id}", "get_user"),
        ("users".to_owned(), "getUser".to_owned())
    );
    assert_eq!(
        default_ts_path("/{tenant}/audit_events", "list"),
        ("auditEvents".to_owned(), "list".to_owned())
    );
    assert_eq!(default_ts_path("/", "health"), ("api".to_owned(), "health".to_owned()));
    assert_eq!(default_ts_path("/__/x", "f"), ("api".to_owned(), "f".to_owned()));
}
