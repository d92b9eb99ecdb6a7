use std::collections::BTreeMap;

use typeweld::api::{
    datetime_utc_type_def, datetime_utc_type_ref, field, integer_policy_for, ApiModule, ApiType, ContractRegistry, Endpoint, EndpointDescriptor,
    IntegerEncodingPolicy, Json, TypeRegistry,
};
use typeweld::ir::{HttpMethod, ResponseShape, SourceRange, StructShape, TypeDef, TypeShape};

#[allow(dead_code)]
struct User {
    id: i64,
}

impl ApiType for User {
    const RUST_NAME: &'static str = "User";

    fn type_def() -> TypeDef {
        TypeDef {
            id: Self::type_ref().id,
            rust_path: Self::rust_path(),
            rust_name: Self::RUST_NAME.to_owned(),
            ts_name: Self::TS_NAME.to_owned(),
            shape: TypeShape::Struct(StructShape {
                fields: vec![field::<i64>(Self::RUST_NAME, "id")],
            }),
            source: SourceRange::empty(),
        }
    }
}

#[test]
fn manual_trait_impl_can_emit_metadata() {
    let type_def = User::type_def();

    assert_eq!(type_def.rust_name, "User");
    assert!(matches!(type_def.shape, TypeShape::Struct(_)));
}

#[test]
fn wrappers_are_framework_neutral() {
    let response = ResponseShape::Json(<Json<User> as ApiType>::type_ref());
    let endpoint = Endpoint::new(HttpMethod::Get, "/users/{id}")
        .named(&["crate", "get_user"])
        .response(response)
        .allow_unused(true);

    assert_eq!(endpoint.method.as_str(), "GET");
    assert_eq!(endpoint.route.0, "/users/{id}");
    assert!(endpoint.allow_unused);
}

#[test]
fn api_module_exports_endpoint_ir() {
    let module = ApiModule::new("users").with_endpoint(Endpoint::new(HttpMethod::Post, "/users"));

    assert_eq!(module.endpoint_irs().len(), 1);
}

fn get_user_descriptor() -> EndpointDescriptor {
    EndpointDescriptor::new(
        Endpoint::new(HttpMethod::Get, "/users/{id}").named(&["crate", "get_user"]),
        ContractRegistry::new(),
    )
}

fn delete_user_descriptor() -> EndpointDescriptor {
    EndpointDescriptor::new(
        Endpoint::new(HttpMethod::Delete, "/users/{id}").named(&["crate", "delete_user"]),
        ContractRegistry::new(),
    )
}

#[test]
fn api_module_macro_exports_only_listed_endpoint_descriptors() {
    let mut module = ApiModule::new("users");
    module = module.with_endpoint_descriptor(get_user_descriptor());
    let graph = module.reachability_graph();

    assert_eq!(module.name, "users");
    assert_eq!(module.endpoints.len(), 1);
    assert_eq!(module.endpoints[0].rust_name, "get_user");
    assert_eq!(graph.endpoint_ids, vec![get_user_descriptor().endpoint.id]);
    assert_ne!(module.endpoints[0].id, delete_user_descriptor().endpoint.id);
}

#[test]
fn api_module_macro_keeps_legacy_endpoint_helper_path_explicit() {
    fn get_user() -> Endpoint {
        Endpoint::new(HttpMethod::Get, "/users/{id}").named(&["crate", "get_user"])
    }

    let mut module = ApiModule::new("users");
    module = module.with_endpoint(get_user());

    assert_eq!(module.endpoints.len(), 1);
    assert_eq!(module.endpoints[0].rust_name, "get_user");
}

#[test]
fn type_registry_preserves_first_registration_and_deduplicates() {
    let mut registry = TypeRegistry::new();

    registry.register::<User>();
    registry.register::<User>();

    let types = registry.type_defs();
    assert_eq!(types.len(), 1);
    assert_eq!(types[0].rust_name, "User");
}

#[test]
fn common_external_mappings_preserve_encoded_and_decoded_names() {
    let TypeShape::External(uuid) = uuid::Uuid::type_def().shape else {
        panic!("expected external uuid mapping");
    };
    let TypeShape::External(decimal) = rust_decimal::Decimal::type_def().shape else {
        panic!("expected external decimal mapping");
    };

    assert_eq!(uuid.encoded_ts_name, "string");
    assert_eq!(uuid.decoded_ts_name, "Uuid");
    assert_eq!(decimal.encoded_ts_name, "string");
    assert_eq!(decimal.decoded_ts_name, "Decimal");
}

#[test]
fn list_map_option_and_integer_policy_are_represented() {
    assert!(matches!(Vec::<String>::type_def().shape, TypeShape::List(_)));
    assert!(matches!(BTreeMap::<String, i64>::type_def().shape, TypeShape::Record { .. }));
    assert!(matches!(Option::<String>::type_def().shape, TypeShape::Option(_)));
    assert_eq!(integer_policy_for("i64"), IntegerEncodingPolicy::StringEncoded);
    assert_eq!(integer_policy_for("i128"), IntegerEncodingPolicy::StringEncoded);
    assert_eq!(integer_policy_for("usize"), IntegerEncodingPolicy::StringEncoded);
    assert_eq!(integer_policy_for("i32"), IntegerEncodingPolicy::SafeNumber);
    assert_eq!(integer_policy_for("u32"), IntegerEncodingPolicy::SafeNumber);
}

#[test]
fn descriptor_registration_is_idempotent_and_ordered() {
    let mut register = ContractRegistry::new();
    register.register_type::<User>();
    register.register_type::<Vec<User>>();
    let descriptor = EndpointDescriptor::new(
        Endpoint::new(HttpMethod::Get, "/users").named(&["crate", "list_users"]),
        register,
    );
    let mut registry = ContractRegistry::new();
    descriptor.register_types_and_errors(&mut registry);
    descriptor.register_types_and_errors(&mut registry);

    let types = registry.type_defs();
    assert_eq!(types.len(), 1);
    assert_eq!(types[0].rust_name, "User");
}

#[test]
fn named_endpoint_defaults_ts_path_and_derives_id_from_rust_path() {
    let a = Endpoint::new(HttpMethod::Get, "/a").named(&["crate", "users", "get_user"]);
    let b = Endpoint::new(HttpMethod::Post, "/b").named(&["crate", "users", "get_user"]);
    assert_eq!(a.ts_path, vec!["get_user".to_owned()]);
    assert_eq!(a.id, b.id);
    assert!(a.id.as_str().starts_with("endpoint:"));
    let c = Endpoint::new(HttpMethod::Get, "/a").ts_path(&["users", "get"]).named(&["crate", "x"]);
    assert_eq!(c.ts_path, vec!["users".to_owned(), "get".to_owned()]);
    let empty = Endpoint::new(HttpMethod::Get, "/a").named(&[]);
    assert_eq!(empty.rust_name, "");
}

#[test]
fn registries_start_empty_by_default() {
    let types = TypeRegistry::default();
    assert!(types.type_defs().is_empty());
    let contract = ContractRegistry::default();
    assert!(contract.type_defs().is_empty());
    assert!(contract.error_defs().is_empty());
}

#[test]
fn registering_a_type_through_the_contract_registry_leaves_errors() {
    let mut registry = ContractRegistry::new();
    registry.register_type::<User>();
    registry.register_type::<User>();
    assert_eq!(registry.type_defs().len(), 1);
    assert_eq!(registry.type_defs()[0].rust_name, "User");
    assert!(registry.error_defs().is_empty());
}

#[test]
fn date_time_mapping_decodes_to_date() {
    let TypeShape::External(date) = datetime_utc_type_def().shape else {
        panic!("expected external date mapping");
    };
    assert_eq!(date.encoded_ts_name, "string");
    assert_eq!(date.decoded_ts_name, "Date");
    assert_eq!(date.rust_path, vec!["chrono", "DateTime", "Utc"]);
    assert_eq!(datetime_utc_type_ref().name, "Date");
    assert_eq!(datetime_utc_type_def().id, datetime_utc_type_ref().id);
    assert_eq!(datetime_utc_type_def().rust_name, "DateTimeUtc");
}
