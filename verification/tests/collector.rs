use typeweld::api::{
    field, ApiRouteNode, ApiRouteTree, ApiType, ContractRegistry, Endpoint, EndpointDescriptor,
    MountedEndpoint,
};
use typeweld::collector::{collect_contract, collect_empty_contract, CollectorInput};
use typeweld::ir::{
    HttpMethod, ResponseShape, SourceRange, StructShape, TypeDef, TypeRef, TypeShape,
};

#[allow(dead_code)]
struct User {
    id: i64,
}

impl ApiType for User {
    const RUST_NAME: &'static str = "User";

    fn type_def() -> TypeDef {
        TypeDef {
            id: Self::type_ref().id,
            rust_path: Self::rust_path(),
            rust_name: Self::RUST_NAME.to_owned(),
            ts_name: Self::TS_NAME.to_owned(),
            shape: TypeShape::Struct(StructShape {
                fields: vec![field::<i64>(Self::RUST_NAME, "id")],
            }),
            source: SourceRange::empty(),
        }
    }
}

struct Unused;

impl ApiType for Unused {
    const RUST_NAME: &'static str = "Unused";
}

struct Profile;

impl ApiType for Profile {
    const RUST_NAME: &'static str = "Profile";

    fn type_def() -> TypeDef {
        TypeDef {
            id: Self::type_ref().id,
            rust_path: Self::rust_path(),
            rust_name: Self::RUST_NAME.to_owned(),
            ts_name: Self::TS_NAME.to_owned(),
            shape: TypeShape::Struct(StructShape {
                fields: vec![field::<User>(Self::RUST_NAME, "owner")],
            }),
            source: SourceRange::empty(),
        }
    }
}

fn noop_register() -> ContractRegistry {
    ContractRegistry::new()
}

fn register_user_and_unused() -> ContractRegistry {
    let mut registry = ContractRegistry::new();
    registry.register_type::<User>();
    registry.register_type::<Unused>();
    registry
}

fn route_tree_with_descriptor(descriptor: EndpointDescriptor) -> ApiRouteTree {
    ApiRouteTree {
        module_name: "users".to_owned(),
        nodes: vec![ApiRouteNode::Endpoint(MountedEndpoint {
            descriptor,
            source: SourceRange::empty(),
            effective_method: HttpMethod::Get,
            effective_path: "/users/{id}".to_owned(),
        })],
    }
}

#[test]
fn collector_exports_reachable_endpoint_and_registered_types() {
    let descriptor = EndpointDescriptor::new(
        Endpoint::new(HttpMethod::Get, "/users/{id}")
            .named(&["crate", "get_user"])
            .response(ResponseShape::Json(User::type_ref())),
        register_user_and_unused(),
    );
    let root = route_tree_with_descriptor(descriptor);

    let contract = collect_contract(CollectorInput::from_root("@workspace/server-api", root));

    assert_eq!(contract.endpoints.len(), 1);
    assert_eq!(contract.types.len(), 1);
    assert_eq!(contract.types[0].rust_name, "User");
}

#[test]
fn collector_filters_registered_types_to_reachable_shapes() {
    let descriptor = EndpointDescriptor::new(
        Endpoint::new(HttpMethod::Get, "/users/{id}")
            .named(&["crate", "get_user"])
            .response(ResponseShape::Json(User::type_ref())),
        register_user_and_unused(),
    );
    let root = route_tree_with_descriptor(descriptor);

    let contract = collect_contract(CollectorInput::from_root("@workspace/server-api", root));

    assert_eq!(contract.types.len(), 1);
    assert_eq!(contract.types[0].rust_name, "User");
}

#[test]
fn collector_input_accepts_route_tree_roots() {
    let descriptor = EndpointDescriptor::new(
        Endpoint::new(HttpMethod::Get, "/users/{id}").named(&["crate", "get_user"]),
        noop_register(),
    );
    let child = ApiRouteTree {
        module_name: "users".to_owned(),
        nodes: vec![ApiRouteNode::Endpoint(MountedEndpoint {
            descriptor,
            source: SourceRange::empty(),
            effective_method: HttpMethod::Get,
            effective_path: "/users/{id}".to_owned(),
        })],
    };
    let root = ApiRouteTree {
        module_name: "server".to_owned(),
        nodes: vec![ApiRouteNode::Nest {
            path: "/api".to_owned(),
            source: SourceRange::empty(),
            child: Box::new(child),
        }],
    };

    let contract = collect_contract(CollectorInput::from_root("@workspace/server-api", root));

    assert_eq!(contract.endpoints.len(), 1);
    assert_eq!(contract.endpoints[0].route.0, "/api/users/{id}");
}

#[test]
fn collector_follows_nested_type_references() {
    let mut register = ContractRegistry::new();
    register.register_type::<Unused>();
    register.register_type::<User>();
    register.register_type::<Profile>();
    let descriptor = EndpointDescriptor::new(
        Endpoint::new(HttpMethod::Get, "/profiles/{id}")
            .named(&["crate", "get_profile"])
            .response(ResponseShape::Json(Profile::type_ref())),
        register,
    );
    let contract = collect_contract(CollectorInput::from_root(
        "p",
        route_tree_with_descriptor(descriptor),
    ));
    let names: Vec<&str> = contract.types.iter().map(|t| t.rust_name.as_str()).collect();
    assert_eq!(names, vec!["Profile", "User"]);
    let empty = collect_empty_contract("p");
    assert_eq!(empty.package_name, "p");
    assert!(empty.endpoints.is_empty() && empty.types.is_empty() && empty.errors.is_empty());
    let _unused = TypeRef { id: Unused::type_ref().id, name: String::new() };
}
