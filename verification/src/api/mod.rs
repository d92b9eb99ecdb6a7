//! Framework-neutral API primitives: type and error registries, endpoint
//! descriptors and API modules.

pub mod endpoint;
pub mod impls;
pub mod route;

pub use endpoint::{ApiModule, ApiModuleModel, Endpoint, EndpointDescriptor, EndpointReachability};
pub use route::{ApiRouteNode, ApiRouteTree, IntoApiRoot, MountedEndpoint};
pub use impls::{
    datetime_utc_type_def, datetime_utc_type_ref, field, integer_policy_for, Body, Created, IntegerEncodingPolicy,
    Json, NoContent, Path, Query, Sse,
};

use vstd::prelude::*;
use crate::ir::{
    ErrorDef, ErrorDefModel, ErrorRef, ExternalType, HttpStatus, SourceRange, SymbolId, TypeDef, TypeDefModel, TypeRef,
    TypeShape, TypeShapeModel, error_defs_view, spec_empty_source, spec_id_of, type_defs_view,
};

verus! {

/// Whether some definition in `defs` has the id `id`.
pub open spec fn has_type_id(defs: Seq<TypeDefModel>, id: Seq<char>) -> bool {
    exists|i: int| 0 <= i < defs.len() && #[trigger] defs[i].id == id
}

/// Whether the ids of `defs` are pairwise distinct.
pub open spec fn distinct_type_ids(defs: Seq<TypeDefModel>) -> bool {
    forall|i: int, j: int| 0 <= i < j < defs.len() ==> #[trigger] defs[i].id != #[trigger] defs[j].id
}

/// Registering `d` into `defs`: appended unless its id is already present.
pub open spec fn spec_register_type(defs: Seq<TypeDefModel>, d: TypeDefModel) -> Seq<TypeDefModel> {
    if has_type_id(defs, d.id) {
        defs
    } else {
        defs.push(d)
    }
}

/// Ordered registry of exported API type definitions.
#[derive(Debug, PartialEq, Eq)]
pub struct TypeRegistry {
    types: Vec<TypeDef>,
}

impl View for TypeRegistry {
    type V = Seq<TypeDefModel>;

    closed spec fn view(&self) -> Seq<TypeDefModel> {
        type_defs_view(self.types@)
    }
}

impl TypeRegistry {
    /// Definitions are registered at most once per id.
    #[verifier::type_invariant]
    closed spec fn inv(self) -> bool {
        distinct_type_ids(type_defs_view(self.types@))
    }

    /// An empty registry.
    pub fn new() -> (r: Self)
        ensures
            r@ == Seq::<TypeDefModel>::empty(),
    {
        let r = TypeRegistry { types: Vec::new() };
        assert(type_defs_view(r.types@) =~= Seq::<TypeDefModel>::empty());
        r
    }

    fn find(&self, id: &SymbolId) -> (r: Option<usize>)
        ensures
            r matches Some(i) ==> i < self@.len() && self@[i as int].id == id@,
            r is None ==> !has_type_id(self@, id@),
    {
        for i in 0..self.types.len()
            invariant
                forall|j: int| 0 <= j < i ==> #[trigger] self.types@[j]@.id != id@,
        {
            if self.types[i].id.same(id) {
                return Some(i);
            }
        }
        assert forall|j: int| 0 <= j < self@.len() implies #[trigger] self@[j].id != id@ by {
            assert(self@[j] == self.types@[j]@);
        }
        None
    }

    /// Inserts a definition once, preserving first-registration order.
    ///
    /// Returns `true` when the definition was newly inserted.
    pub fn insert(&mut self, type_def: TypeDef) -> (r: bool)
        ensures
            r == !has_type_id(old(self)@, type_def@.id),
            final(self)@ == spec_register_type(old(self)@, type_def@),
            distinct_type_ids(final(self)@),
    {
        proof {
            use_type_invariant(&*self);
        }
        if self.find(&type_def.id).is_some() {
            return false;
        }
        let ghost before = type_defs_view(self.types@);
        let mut types: Vec<TypeDef> = Vec::new();
        std::mem::swap(&mut types, &mut self.types);
        types.push(type_def);
        proof {
            assert(type_defs_view(types@) =~= before.push(type_def@));
            assert forall|i: int, j: int|
                0 <= i < j < type_defs_view(types@).len() implies #[trigger] type_defs_view(types@)[i].id
                != #[trigger] type_defs_view(types@)[j].id by {
                if j == before.len() {
                    assert(before[i].id != type_def@.id);
                }
            }
        }
        self.types = types;
        true
    }

    /// Whether a definition with this id is registered.
    pub fn contains(&self, id: &SymbolId) -> (r: bool)
        ensures
            r == has_type_id(self@, id@),
            distinct_type_ids(self@),
    {
        proof {
            use_type_invariant(self);
        }
        self.find(id).is_some()
    }

    /// The registered definitions in first-registration order.
    pub fn type_defs(&self) -> (r: Vec<TypeDef>)
        ensures
            type_defs_view(r@) == self@,
            distinct_type_ids(self@),
    {
        proof {
            use_type_invariant(self);
        }
        let mut out: Vec<TypeDef> = Vec::new();
        for i in 0..self.types.len()
            invariant
                out@.len() == i,
                forall|j: int| 0 <= j < i ==> #[trigger] out@[j]@ == self.types@[j]@,
        {
            let c = self.types[i].clone();
            out.push(c);
        }
        assert(type_defs_view(out@) =~= type_defs_view(self.types@));
        out
    }

    /// Consumes the registry, returning its definitions in registration order.
    pub fn into_type_defs(self) -> (r: Vec<TypeDef>)
        ensures
            type_defs_view(r@) == self@,
    {
        let TypeRegistry { types } = self;
        types
    }

    /// Registers `T` and every API type reachable from its shape: the
    /// registry changes as `T::register_types` says it does, so for a type
    /// that keeps the default its definition is appended exactly when no
    /// definition with its id is registered yet; a type that keeps every
    /// default has one id, so registering it again changes nothing.
    pub fn register<T: ApiType>(&mut self)
        ensures
            old(self)@.is_prefix_of(final(self)@),
            exists|q: &mut TypeRegistry|
                #[trigger] call_ensures(T::register_types, (q,), ()) && *q == *old(self) && *final(q) == *final(self),
    {
        let f = T::register_types;
        f(self);
    }
}

impl Default for TypeRegistry {
    /// An empty registry.
    fn default() -> (r: Self)
        ensures
            r@ == Seq::<TypeDefModel>::empty(),
    {
        TypeRegistry::new()
    }
}

impl Clone for TypeRegistry {
    fn clone(&self) -> (r: Self)
        ensures
            r@ == self@,
    {
        proof {
            use_type_invariant(self);
        }
        TypeRegistry { types: self.type_defs() }
    }
}

/// Registering a definition only ever appends to the registry.
pub proof fn lemma_register_type_extends(defs: Seq<TypeDefModel>, d: TypeDefModel)
    ensures
        defs.is_prefix_of(spec_register_type(defs, d)),
{
    assert(defs =~= spec_register_type(defs, d).subrange(0, defs.len() as int));
}

/// Whether some error definition in `defs` has the id `id`.
pub open spec fn has_error_id(defs: Seq<ErrorDefModel>, id: Seq<char>) -> bool {
    exists|i: int| 0 <= i < defs.len() && #[trigger] defs[i].id == id
}

/// Whether the ids of `defs` are pairwise distinct.
pub open spec fn distinct_error_ids(defs: Seq<ErrorDefModel>) -> bool {
    forall|i: int, j: int| 0 <= i < j < defs.len() ==> #[trigger] defs[i].id != #[trigger] defs[j].id
}

/// Registering `d` into `defs`: appended unless its id is already present.
pub open spec fn spec_register_error(defs: Seq<ErrorDefModel>, d: ErrorDefModel) -> Seq<ErrorDefModel> {
    if has_error_id(defs, d.id) {
        defs
    } else {
        defs.push(d)
    }
}

/// Ordered registry of exported API error definitions.
#[derive(Debug, PartialEq, Eq)]
pub struct ErrorRegistry {
    errors: Vec<ErrorDef>,
}

impl View for ErrorRegistry {
    type V = Seq<ErrorDefModel>;

    closed spec fn view(&self) -> Seq<ErrorDefModel> {
        error_defs_view(self.errors@)
    }
}

impl ErrorRegistry {
    /// Error definitions are registered at most once per id.
    #[verifier::type_invariant]
    closed spec fn inv(self) -> bool {
        distinct_error_ids(error_defs_view(self.errors@))
    }

    /// An empty registry.
    pub fn new() -> (r: Self)
        ensures
            r@ == Seq::<ErrorDefModel>::empty(),
    {
        let r = ErrorRegistry { errors: Vec::new() };
        assert(error_defs_view(r.errors@) =~= Seq::<ErrorDefModel>::empty());
        r
    }

    fn find(&self, id: &SymbolId) -> (r: Option<usize>)
        ensures
            r matches Some(i) ==> i < self@.len() && self@[i as int].id == id@,
            r is None ==> !has_error_id(self@, id@),
    {
        for i in 0..self.errors.len()
            invariant
                forall|j: int| 0 <= j < i ==> #[trigger] self.errors@[j]@.id != id@,
        {
            if self.errors[i].id.same(id) {
                return Some(i);
            }
        }
        assert forall|j: int| 0 <= j < self@.len() implies #[trigger] self@[j].id != id@ by {
            assert(self@[j] == self.errors@[j]@);
        }
        None
    }

    /// Inserts an error definition once, preserving first-registration order.
    pub fn insert(&mut self, error_def: ErrorDef) -> (r: bool)
        ensures
            r == !has_error_id(old(self)@, error_def@.id),
            final(self)@ == spec_register_error(old(self)@, error_def@),
            distinct_error_ids(final(self)@),
    {
        proof {
            use_type_invariant(&*self);
        }
        if self.find(&error_def.id).is_some() {
            return false;
        }
        let ghost before = error_defs_view(self.errors@);
        let mut errors: Vec<ErrorDef> = Vec::new();
        std::mem::swap(&mut errors, &mut self.errors);
        errors.push(error_def);
        proof {
            assert(error_defs_view(errors@) =~= before.push(error_def@));
            assert forall|i: int, j: int|
                0 <= i < j < error_defs_view(errors@).len() implies #[trigger] error_defs_view(errors@)[i].id
                != #[trigger] error_defs_view(errors@)[j].id by {
                if j == before.len() {
                    assert(before[i].id != error_def@.id);
                }
            }
        }
        self.errors = errors;
        true
    }

    /// Whether an error definition with this id is registered.
    pub fn contains(&self, id: &SymbolId) -> (r: bool)
        ensures
            r == has_error_id(self@, id@),
            distinct_error_ids(self@),
    {
        proof {
            use_type_invariant(self);
        }
        self.find(id).is_some()
    }

    /// The registered error definitions in first-registration order.
    pub fn error_defs(&self) -> (r: Vec<ErrorDef>)
        ensures
            error_defs_view(r@) == self@,
            distinct_error_ids(self@),
    {
        proof {
            use_type_invariant(self);
        }
        let mut out: Vec<ErrorDef> = Vec::new();
        for i in 0..self.errors.len()
            invariant
                out@.len() == i,
                forall|j: int| 0 <= j < i ==> #[trigger] out@[j]@ == self.errors@[j]@,
        {
            let c = self.errors[i].clone();
            out.push(c);
        }
        assert(error_defs_view(out@) =~= error_defs_view(self.errors@));
        out
    }

    /// Consumes the registry, returning its definitions in registration order.
    pub fn into_error_defs(self) -> (r: Vec<ErrorDef>)
        ensures
            error_defs_view(r@) == self@,
    {
        let ErrorRegistry { errors } = self;
        errors
    }
}

impl Default for ErrorRegistry {
    /// An empty registry.
    fn default() -> (r: Self)
        ensures
            r@ == Seq::<ErrorDefModel>::empty(),
    {
        ErrorRegistry::new()
    }
}

impl Clone for ErrorRegistry {
    fn clone(&self) -> (r: Self)
        ensures
            r@ == self@,
    {
        proof {
            use_type_invariant(self);
        }
        ErrorRegistry { errors: self.error_defs() }
    }
}

/// Registering an error definition only ever appends to the registry.
pub proof fn lemma_register_error_extends(defs: Seq<ErrorDefModel>, d: ErrorDefModel)
    ensures
        defs.is_prefix_of(spec_register_error(defs, d)),
{
    assert(defs =~= spec_register_error(defs, d).subrange(0, defs.len() as int));
}

/// Rust type that can cross the generated API boundary.
///
/// Implementations are pure metadata providers: they name the type, describe
/// its shape and register the definitions reachable from it.
pub trait ApiType {
    /// Stable Rust-facing type name.
    const RUST_NAME: &'static str;

    /// Stable TypeScript-facing type name.
    const TS_NAME: &'static str = Self::RUST_NAME;

    /// Fully-qualified Rust path, represented as path segments.
    fn rust_path() -> (r: Vec<String>)
        default_ensures
            crate::ir::strings_view(r@) == seq![Self::RUST_NAME@],
    {
        let mut path: Vec<String> = Vec::new();
        path.push(Self::RUST_NAME.to_owned());
        assert(crate::ir::strings_view(path@) =~= seq![Self::RUST_NAME@]);
        path
    }

    /// Reference used by endpoint and field metadata.
    fn type_ref() -> (r: TypeRef)
        default_ensures
            r@.id == spec_id_of("type"@, seq![Self::RUST_NAME@]),
            r@.name == Self::TS_NAME@,
    {
        let name: [&str; 1] = [Self::RUST_NAME];
        assert(crate::ir::strs_view(name@) =~= seq![Self::RUST_NAME@]);
        TypeRef { id: SymbolId::from_parts("type", name.as_slice()), name: Self::TS_NAME.to_owned() }
    }

    /// Full type definition when this type is exported in a contract.
    fn type_def() -> (r: TypeDef)
        default_ensures
            exists|t: TypeRef| #[trigger] call_ensures(Self::type_ref, (), t) && r@.id == t@.id,
            exists|p: Vec<String>|
                #[trigger] call_ensures(Self::rust_path, (), p) && r@.rust_path == crate::ir::strings_view(p@),
            r@.rust_name == Self::RUST_NAME@,
            r@.ts_name == Self::TS_NAME@,
            r@.shape matches TypeShapeModel::External(x) && x.ts_import == Seq::<char>::empty()
                && x.ts_name == Self::TS_NAME@ && x.encoded_ts_name == Self::TS_NAME@
                && x.decoded_ts_name == Self::TS_NAME@,
            r@.source == spec_empty_source(),
    {
        let type_ref = Self::type_ref;
        let rust_path = Self::rust_path;
        let id = type_ref().id;
        let path = rust_path();
        TypeDef {
            id,
            rust_path: path,
            rust_name: Self::RUST_NAME.to_owned(),
            ts_name: Self::TS_NAME.to_owned(),
            shape: TypeShape::External(
                ExternalType {
                    rust_path: Self::rust_path(),
                    ts_import: String::new(),
                    ts_name: Self::TS_NAME.to_owned(),
                    encoded_ts_name: Self::TS_NAME.to_owned(),
                    decoded_ts_name: Self::TS_NAME.to_owned(),
                },
            ),
            source: SourceRange::empty(),
        }
    }

    /// Registers this type and every API type reachable from its shape.
    ///
    /// Registration never removes or reorders what is already registered;
    /// by default it registers one definition, this type's own, unless a
    /// definition with its id is already there.
    fn register_types(registry: &mut TypeRegistry)
        ensures
            old(registry)@.is_prefix_of(final(registry)@),
        default_ensures
            exists|d: TypeDef|
                #[trigger] call_ensures(Self::type_def, (), d) && final(registry)@ == spec_register_type(
                    old(registry)@,
                    d@,
                ),
    {
        let def = Self::type_def();
        let ghost d = def;
        proof {
            lemma_register_type_extends(registry@, def@);
        }
        registry.insert(def);
        assert(call_ensures(Self::type_def, (), d) && registry@ == spec_register_type(old(registry)@, d@));
    }
}

/// Declared, typed API error.
pub trait ApiError: ApiType {
    /// Reference used by endpoint metadata.
    fn error_ref() -> (r: ErrorRef)
        default_ensures
            r@.id == spec_id_of("error"@, seq![Self::RUST_NAME@]),
            r@.name == Self::TS_NAME@,
    {
        let name: [&str; 1] = [Self::RUST_NAME];
        assert(crate::ir::strs_view(name@) =~= seq![Self::RUST_NAME@]);
        ErrorRef { id: SymbolId::from_parts("error", name.as_slice()), name: Self::TS_NAME.to_owned() }
    }

    /// HTTP status for this concrete domain error value.
    fn status(&self) -> (r: HttpStatus);

    /// Full error definition when this error is exported in a contract.
    fn error_def() -> (r: ErrorDef);

    /// Registers this error and every API type reachable from its payloads.
    ///
    /// Registration never removes or reorders what is already registered;
    /// by default it leaves the types as they are and registers one error
    /// definition, this error's own, unless one with its id is already there.
    fn register_error(registry: &mut ContractRegistry)
        ensures
            old(registry)@.types.is_prefix_of(final(registry)@.types),
            old(registry)@.errors.is_prefix_of(final(registry)@.errors),
        default_ensures
            final(registry)@.types == old(registry)@.types,
            exists|d: ErrorDef|
                #[trigger] call_ensures(Self::error_def, (), d) && final(registry)@.errors == spec_register_error(
                    old(registry)@.errors,
                    d@,
                ),
    {
        let def = Self::error_def();
        let ghost d = def;
        proof {
            lemma_register_error_extends(registry@.errors, def@);
        }
        registry.insert_error(def);
        assert(call_ensures(Self::error_def, (), d) && registry@.errors == spec_register_error(
            old(registry)@.errors,
            d@,
        ));
        proof {
            impls::lemma_prefix_refl(registry@.types);
        }
    }
}

/// Model of a [`ContractRegistry`]: the registered types and errors, in
/// first-registration order.
pub struct RegistryModel {
    pub types: Seq<TypeDefModel>,
    pub errors: Seq<ErrorDefModel>,
}

/// Combined registry used while collecting one API contract.
#[derive(Debug, PartialEq, Eq)]
pub struct ContractRegistry {
    types: TypeRegistry,
    errors: ErrorRegistry,
}

impl View for ContractRegistry {
    type V = RegistryModel;

    closed spec fn view(&self) -> RegistryModel {
        RegistryModel { types: self.types@, errors: self.errors@ }
    }
}

impl Default for ContractRegistry {
    /// An empty registry.
    fn default() -> (r: Self)
        ensures
            r@.types == Seq::<TypeDefModel>::empty(),
            r@.errors == Seq::<ErrorDefModel>::empty(),
    {
        ContractRegistry::new()
    }
}

impl Clone for ContractRegistry {
    fn clone(&self) -> (r: Self)
        ensures
            r@ == self@,
    {
        ContractRegistry { types: self.types.clone(), errors: self.errors.clone() }
    }
}

impl ContractRegistry {
    /// An empty registry.
    pub fn new() -> (r: Self)
        ensures
            r@.types == Seq::<TypeDefModel>::empty(),
            r@.errors == Seq::<ErrorDefModel>::empty(),
    {
        ContractRegistry { types: TypeRegistry::new(), errors: ErrorRegistry::new() }
    }

    /// Registers `T` and every API type reachable from its shape: the types
    /// change as `T::register_types` says they do, and the errors stay.
    pub fn register_type<T: ApiType>(&mut self)
        ensures
            old(self)@.types.is_prefix_of(final(self)@.types),
            final(self)@.errors == old(self)@.errors,
            exists|q: &mut TypeRegistry|
                #[trigger] call_ensures(T::register_types, (q,), ()) && q@ == old(self)@.types && final(q)@
                    == final(self)@.types,
    {
        let f = T::register_types;
        f(&mut self.types);
    }

    /// Registers the error `E` and the types reachable from its payloads:
    /// the registry changes as `E::register_error` says it does, so for an
    /// error that keeps the default the types stay and its definition is
    /// appended exactly when no error with its id is registered yet.
    pub fn register_error<E: ApiError>(&mut self)
        ensures
            old(self)@.types.is_prefix_of(final(self)@.types),
            old(self)@.errors.is_prefix_of(final(self)@.errors),
            exists|q: &mut ContractRegistry|
                #[trigger] call_ensures(E::register_error, (q,), ()) && *q == *old(self) && *final(q) == *final(self),
    {
        let f = E::register_error;
        f(self);
    }

    /// Inserts a type definition once; `true` when it was new.
    pub fn insert_type(&mut self, type_def: TypeDef) -> (r: bool)
        ensures
            r == !has_type_id(old(self)@.types, type_def@.id),
            final(self)@.types == spec_register_type(old(self)@.types, type_def@),
            final(self)@.errors == old(self)@.errors,
    {
        self.types.insert(type_def)
    }

    /// Inserts an error definition once; `true` when it was new.
    pub fn insert_error(&mut self, error_def: ErrorDef) -> (r: bool)
        ensures
            r == !has_error_id(old(self)@.errors, error_def@.id),
            final(self)@.errors == spec_register_error(old(self)@.errors, error_def@),
            final(self)@.types == old(self)@.types,
    {
        self.errors.insert(error_def)
    }

    /// The type registry.
    pub fn types(&self) -> (r: &TypeRegistry)
        ensures
            r@ == self@.types,
    {
        &self.types
    }

    /// The error registry.
    pub fn errors(&self) -> (r: &ErrorRegistry)
        ensures
            r@ == self@.errors,
    {
        &self.errors
    }

    /// The type registry, for in-place registration.
    pub fn types_mut(&mut self) -> (r: &mut TypeRegistry)
        ensures
            r@ == old(self)@.types,
            final(self)@.types == final(r)@,
            final(self)@.errors == old(self)@.errors,
    {
        &mut self.types
    }

    /// The error registry, for in-place registration.
    pub fn errors_mut(&mut self) -> (r: &mut ErrorRegistry)
        ensures
            r@ == old(self)@.errors,
            final(self)@.errors == final(r)@,
            final(self)@.types == old(self)@.types,
    {
        &mut self.errors
    }

    /// The registered type definitions in first-registration order.
    pub fn type_defs(&self) -> (r: Vec<TypeDef>)
        ensures
            type_defs_view(r@) == self@.types,
    {
        self.types.type_defs()
    }

    /// The registered error definitions in first-registration order.
    pub fn error_defs(&self) -> (r: Vec<ErrorDef>)
        ensures
            error_defs_view(r@) == self@.errors,
    {
        self.errors.error_defs()
    }

    /// Consumes the registry, returning its type and error definitions.
    pub fn into_parts(self) -> (r: (Vec<TypeDef>, Vec<ErrorDef>))
        ensures
            type_defs_view(r.0@) == self@.types,
            error_defs_view(r.1@) == self@.errors,
    {
        let ContractRegistry { types, errors } = self;
        (types.into_type_defs(), errors.into_error_defs())
    }
}

/// A registered definition is found afterwards, and the first definition
/// registered under an id is the one kept for it.
pub proof fn lemma_registered_type_found(defs: Seq<TypeDefModel>, d: TypeDefModel)
    ensures
        has_type_id(spec_register_type(defs, d), d.id),
        has_type_id(defs, d.id) ==> spec_register_type(defs, d) == defs,
{
    if !has_type_id(defs, d.id) {
        assert(spec_register_type(defs, d)[defs.len() as int].id == d.id);
    }
}

/// A registered error definition is found afterwards, and the first
/// definition registered under an id is the one kept for it.
pub proof fn lemma_registered_error_found(defs: Seq<ErrorDefModel>, d: ErrorDefModel)
    ensures
        has_error_id(spec_register_error(defs, d), d.id),
        has_error_id(defs, d.id) ==> spec_register_error(defs, d) == defs,
{
    if !has_error_id(defs, d.id) {
        assert(spec_register_error(defs, d)[defs.len() as int].id == d.id);
    }
}

/// Registering a type again, by a definition with the same id, leaves the
/// registry unchanged: the first registration stays.
pub proof fn lemma_register_type_idempotent(defs: Seq<TypeDefModel>, d: TypeDefModel, again: TypeDefModel)
    requires
        again.id == d.id,
    ensures
        spec_register_type(spec_register_type(defs, d), again) == spec_register_type(defs, d),
{
    if !has_type_id(defs, d.id) {
        let e = defs.push(d);
        assert(e[defs.len() as int].id == again.id);
    }
}

/// Registering an error again, by a definition with the same id, leaves
/// the registry unchanged: the first registration stays.
pub proof fn lemma_register_error_idempotent(defs: Seq<ErrorDefModel>, d: ErrorDefModel, again: ErrorDefModel)
    requires
        again.id == d.id,
    ensures
        spec_register_error(spec_register_error(defs, d), again) == spec_register_error(defs, d),
{
    if !has_error_id(defs, d.id) {
        let e = defs.push(d);
        assert(e[defs.len() as int].id == again.id);
    }
}

/// Registering each of `new` in order into `defs`.
pub open spec fn spec_merge_types(defs: Seq<TypeDefModel>, new: Seq<TypeDefModel>) -> Seq<TypeDefModel>
    decreases new.len(),
{
    if new.len() == 0 {
        defs
    } else {
        spec_register_type(spec_merge_types(defs, new.drop_last()), new.last())
    }
}

/// Registering each of `new` in order into `defs`.
pub open spec fn spec_merge_errors(defs: Seq<ErrorDefModel>, new: Seq<ErrorDefModel>) -> Seq<ErrorDefModel>
    decreases new.len(),
{
    if new.len() == 0 {
        defs
    } else {
        spec_register_error(spec_merge_errors(defs, new.drop_last()), new.last())
    }
}

proof fn lemma_merge_types_grows(defs: Seq<TypeDefModel>, new: Seq<TypeDefModel>)
    ensures
        defs.is_prefix_of(spec_merge_types(defs, new)),
        forall|i: int| 0 <= i < new.len() ==> has_type_id(spec_merge_types(defs, new), #[trigger] new[i].id),
    decreases new.len(),
{
    if new.len() > 0 {
        let m = spec_merge_types(defs, new.drop_last());
        lemma_merge_types_grows(defs, new.drop_last());
        lemma_register_type_extends(m, new.last());
        let r = spec_register_type(m, new.last());
        assert forall|i: int| 0 <= i < new.len() implies has_type_id(r, #[trigger] new[i].id) by {
            if i < new.len() - 1 {
                assert(new.drop_last()[i] == new[i]);
                let w = choose|w: int| 0 <= w < m.len() && #[trigger] m[w].id == new[i].id;
                assert(r[w] == m[w]);
            } else if !has_type_id(m, new.last().id) {
                assert(r[m.len() as int].id == new[i].id);
            }
        }
    }
}

proof fn lemma_merge_types_present(defs: Seq<TypeDefModel>, new: Seq<TypeDefModel>)
    requires
        forall|i: int| 0 <= i < new.len() ==> has_type_id(defs, #[trigger] new[i].id),
    ensures
        spec_merge_types(defs, new) == defs,
    decreases new.len(),
{
    if new.len() > 0 {
        assert forall|i: int| 0 <= i < new.drop_last().len() implies has_type_id(
            defs,
            #[trigger] new.drop_last()[i].id,
        ) by {
            assert(new.drop_last()[i] == new[i]);
        }
        lemma_merge_types_present(defs, new.drop_last());
        assert(has_type_id(defs, new[new.len() - 1].id));
    }
}

proof fn lemma_merge_errors_grows(defs: Seq<ErrorDefModel>, new: Seq<ErrorDefModel>)
    ensures
        defs.is_prefix_of(spec_merge_errors(defs, new)),
        forall|i: int| 0 <= i < new.len() ==> has_error_id(spec_merge_errors(defs, new), #[trigger] new[i].id),
    decreases new.len(),
{
    if new.len() > 0 {
        let m = spec_merge_errors(defs, new.drop_last());
        lemma_merge_errors_grows(defs, new.drop_last());
        lemma_register_error_extends(m, new.last());
        let r = spec_register_error(m, new.last());
        assert forall|i: int| 0 <= i < new.len() implies has_error_id(r, #[trigger] new[i].id) by {
            if i < new.len() - 1 {
                assert(new.drop_last()[i] == new[i]);
                let w = choose|w: int| 0 <= w < m.len() && #[trigger] m[w].id == new[i].id;
                assert(r[w] == m[w]);
            } else if !has_error_id(m, new.last().id) {
                assert(r[m.len() as int].id == new[i].id);
            }
        }
    }
}

proof fn lemma_merge_errors_present(defs: Seq<ErrorDefModel>, new: Seq<ErrorDefModel>)
    requires
        forall|i: int| 0 <= i < new.len() ==> has_error_id(defs, #[trigger] new[i].id),
    ensures
        spec_merge_errors(defs, new) == defs,
    decreases new.len(),
{
    if new.len() > 0 {
        assert forall|i: int| 0 <= i < new.drop_last().len() implies has_error_id(
            defs,
            #[trigger] new.drop_last()[i].id,
        ) by {
            assert(new.drop_last()[i] == new[i]);
        }
        lemma_merge_errors_present(defs, new.drop_last());
        assert(has_error_id(defs, new[new.len() - 1].id));
    }
}

/// Merging the same definitions twice is the same as merging them once, and
/// a merge never removes or reorders what was registered before.
pub proof fn lemma_merge_idempotent(
    types: Seq<TypeDefModel>,
    errors: Seq<ErrorDefModel>,
    new_types: Seq<TypeDefModel>,
    new_errors: Seq<ErrorDefModel>,
)
    ensures
        spec_merge_types(spec_merge_types(types, new_types), new_types) == spec_merge_types(
            types,
            new_types,
        ),
        spec_merge_errors(spec_merge_errors(errors, new_errors), new_errors) == spec_merge_errors(
            errors,
            new_errors,
        ),
        types.is_prefix_of(spec_merge_types(types, new_types)),
        errors.is_prefix_of(spec_merge_errors(errors, new_errors)),
{
    lemma_merge_types_grows(types, new_types);
    lemma_merge_types_present(spec_merge_types(types, new_types), new_types);
    lemma_merge_errors_grows(errors, new_errors);
    lemma_merge_errors_present(spec_merge_errors(errors, new_errors), new_errors);
}

} // verus!
