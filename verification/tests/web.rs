use typeweld::web::{normalize_route_path, Json};

#[test]
fn json_wraps_and_reads_its_value() {
    let wrapped: Json<u32> = Json::from(7);
    assert_eq!(*wrapped, 7);
    assert_eq!(wrapped.into_inner(), 7);
}

#[test]
fn route_segments_normalize_one_by_one() {
    assert_eq!(normalize_route_path("/users/:id/posts/:post_id"), "/users/{id}/posts/{post_id}");
    let joined = format!("{}/{}", normalize_route_path("/users/:id"), normalize_route_path("posts/:post_id"));
    assert_eq!(normalize_route_path("/users/:id/posts/:post_id"), joined);
    assert_eq!(normalize_route_path("/already/{id}"), "/already/{id}");
}

#[test]
fn normalizing_twice_changes_nothing() {
    for path in ["/missing/:id", "/users/{id}", ":a/:b/", "/", ""] {
        let once = normalize_route_path(path);
        assert_eq!(normalize_route_path(&once), once);
    }
    assert_eq!(normalize_route_path("/missing/:id"), "/missing/{id}");
}
