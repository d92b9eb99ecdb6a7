//! Framework-neutral response and extractor wrappers, the integer encoding
//! policy, and `ApiType` implementations for wrappers, primitives,
//! collections and common external types.

use vstd::prelude::*;
use std::collections::{BTreeMap, HashMap};
use crate::api::{ApiType, TypeRegistry};
use crate::ir::{
    ExternalType, Field, FieldModel, Optionality, Primitive, RefModel, SourceRange, StructShape,
    SymbolId, TypeDef, TypeRef, TypeShape, TypeShapeModel, spec_empty_source, spec_id_of,
};
use crate::text::push_str;

verus! {

/// JSON response wrapper.
#[derive(Clone, Copy, Debug, Default, Eq, Hash, Ord, PartialEq, PartialOrd)]
pub struct Json<T>(pub T);

/// `201 Created` JSON response wrapper.
#[derive(Clone, Copy, Debug, Default, Eq, Hash, Ord, PartialEq, PartialOrd)]
pub struct Created<T>(pub T);

/// Empty `204 No Content` response marker.
#[derive(Clone, Copy, Debug, Default, Eq, Hash, Ord, PartialEq, PartialOrd)]
pub struct NoContent;

/// Server-sent event stream response wrapper.
#[derive(Clone, Copy, Debug, Default, Eq, Hash, Ord, PartialEq, PartialOrd)]
pub struct Sse<T>(pub T);

/// Path extractor marker.
#[derive(Clone, Copy, Debug, Default, Eq, Hash, Ord, PartialEq, PartialOrd)]
pub struct Path<T>(pub T);

/// Query extractor marker.
#[derive(Clone, Copy, Debug, Default, Eq, Hash, Ord, PartialEq, PartialOrd)]
pub struct Query<T>(pub T);

/// Body extractor marker.
#[derive(Clone, Copy, Debug, Default, Eq, Hash, Ord, PartialEq, PartialOrd)]
pub struct Body<T>(pub T);

/// Integer encoding policy for generated clients.
#[derive(Clone, Copy, Debug, PartialEq, Eq, Structural)]
pub enum IntegerEncodingPolicy {
    SafeNumber,
    StringEncoded,
}

/// Whether integers of the Rust type `rust_name` exceed the range that a
/// JavaScript number represents exactly.
pub open spec fn spec_is_wide_integer(rust_name: Seq<char>) -> bool {
    rust_name == "i64"@ || rust_name == "u64"@ || rust_name == "i128"@ || rust_name == "u128"@
        || rust_name == "usize"@ || rust_name == "isize"@
}

/// Wide integers are string-encoded; everything else is a safe number.
pub fn integer_policy_for(rust_name: &str) -> (r: IntegerEncodingPolicy)
    ensures
        r == (if spec_is_wide_integer(rust_name@) {
            IntegerEncodingPolicy::StringEncoded
        } else {
            IntegerEncodingPolicy::SafeNumber
        }),
{
    let eq = |a: &str, b: &str| -> (o: bool)
        ensures
            o == (a@ == b@),
        { crate::order::str_eq(a, b) };
    if eq(rust_name, "i64") || eq(rust_name, "u64") || eq(rust_name, "i128") || eq(rust_name, "u128")
        || eq(rust_name, "usize") || eq(rust_name, "isize") {
        IntegerEncodingPolicy::StringEncoded
    } else {
        IntegerEncodingPolicy::SafeNumber
    }
}

/// A required field of `owner` named `rust_name` on every side of the wire,
/// referring to `type_ref`.
pub open spec fn spec_field(owner: Seq<char>, rust_name: Seq<char>, type_ref: RefModel) -> FieldModel {
    FieldModel {
        id: spec_id_of("field"@, seq![owner, rust_name]),
        rust_name,
        wire_name: rust_name,
        ts_name: rust_name,
        type_ref,
        optionality: Optionality::Required,
        source: spec_empty_source(),
    }
}

/// Builds a required field descriptor of type `T`.
pub fn field<T: ApiType>(owner: &str, rust_name: &str) -> (r: Field)
    ensures
        r@.id == spec_id_of("field"@, seq![owner@, rust_name@]),
        r@.rust_name == rust_name@,
        r@.wire_name == rust_name@,
        r@.ts_name == rust_name@,
        r@.optionality == Optionality::Required,
        r@.source == spec_empty_source(),
        call_ensures(T::type_ref, (), r.type_ref),
{
    let parts: [&str; 2] = [owner, rust_name];
    assert(crate::ir::strs_view(parts@) =~= seq![owner@, rust_name@]);
    Field {
        id: SymbolId::from_parts("field", parts.as_slice()),
        rust_name: rust_name.to_owned(),
        wire_name: rust_name.to_owned(),
        ts_name: rust_name.to_owned(),
        type_ref: T::type_ref(),
        optionality: Optionality::Required,
        source: SourceRange::empty(),
    }
}

/// Every sequence is a prefix of itself.
pub proof fn lemma_prefix_refl<A>(s: Seq<A>)
    ensures
        s.is_prefix_of(s),
{
    assert(s =~= s.subrange(0, s.len() as int));
}

impl<T: ApiType> ApiType for Json<T> {
    const RUST_NAME: &'static str = T::RUST_NAME;
    const TS_NAME: &'static str = T::TS_NAME;

    fn rust_path() -> (r: Vec<String>)
        ensures
            call_ensures(T::rust_path, (), r),
    {
        T::rust_path()
    }

    fn type_ref() -> (r: TypeRef)
        ensures
            call_ensures(T::type_ref, (), r),
    {
        T::type_ref()
    }

    fn type_def() -> (r: TypeDef)
        ensures
            call_ensures(T::type_def, (), r),
    {
        T::type_def()
    }

    fn register_types(registry: &mut TypeRegistry) {
        T::register_types(registry);
    }
}

impl<T: ApiType> ApiType for Created<T> {
    const RUST_NAME: &'static str = T::RUST_NAME;
    const TS_NAME: &'static str = T::TS_NAME;

    fn rust_path() -> (r: Vec<String>)
        ensures
            call_ensures(T::rust_path, (), r),
    {
        T::rust_path()
    }

    fn type_ref() -> (r: TypeRef)
        ensures
            call_ensures(T::type_ref, (), r),
    {
        T::type_ref()
    }

    fn type_def() -> (r: TypeDef)
        ensures
            call_ensures(T::type_def, (), r),
    {
        T::type_def()
    }

    fn register_types(registry: &mut TypeRegistry) {
        T::register_types(registry);
    }
}

impl<T: ApiType> ApiType for Sse<T> {
    const RUST_NAME: &'static str = T::RUST_NAME;
    const TS_NAME: &'static str = T::TS_NAME;

    fn rust_path() -> (r: Vec<String>)
        ensures
            call_ensures(T::rust_path, (), r),
    {
        T::rust_path()
    }

    fn type_ref() -> (r: TypeRef)
        ensures
            call_ensures(T::type_ref, (), r),
    {
        T::type_ref()
    }

    fn type_def() -> (r: TypeDef)
        ensures
            call_ensures(T::type_def, (), r),
    {
        T::type_def()
    }

    fn register_types(registry: &mut TypeRegistry) {
        T::register_types(registry);
    }
}

impl<T: ApiType> ApiType for Path<T> {
    const RUST_NAME: &'static str = T::RUST_NAME;
    const TS_NAME: &'static str = T::TS_NAME;

    fn rust_path() -> (r: Vec<String>)
        ensures
            call_ensures(T::rust_path, (), r),
    {
        T::rust_path()
    }

    fn type_ref() -> (r: TypeRef)
        ensures
            call_ensures(T::type_ref, (), r),
    {
        T::type_ref()
    }

    fn type_def() -> (r: TypeDef)
        ensures
            call_ensures(T::type_def, (), r),
    {
        T::type_def()
    }

    fn register_types(registry: &mut TypeRegistry) {
        T::register_types(registry);
    }
}

impl<T: ApiType> ApiType for Query<T> {
    const RUST_NAME: &'static str = T::RUST_NAME;
    const TS_NAME: &'static str = T::TS_NAME;

    fn rust_path() -> (r: Vec<String>)
        ensures
            call_ensures(T::rust_path, (), r),
    {
        T::rust_path()
    }

    fn type_ref() -> (r: TypeRef)
        ensures
            call_ensures(T::type_ref, (), r),
    {
        T::type_ref()
    }

    fn type_def() -> (r: TypeDef)
        ensures
            call_ensures(T::type_def, (), r),
    {
        T::type_def()
    }

    fn register_types(registry: &mut TypeRegistry) {
        T::register_types(registry);
    }
}

impl<T: ApiType> ApiType for Body<T> {
    const RUST_NAME: &'static str = T::RUST_NAME;
    const TS_NAME: &'static str = T::TS_NAME;

    fn rust_path() -> (r: Vec<String>)
        ensures
            call_ensures(T::rust_path, (), r),
    {
        T::rust_path()
    }

    fn type_ref() -> (r: TypeRef)
        ensures
            call_ensures(T::type_ref, (), r),
    {
        T::type_ref()
    }

    fn type_def() -> (r: TypeDef)
        ensures
            call_ensures(T::type_def, (), r),
    {
        T::type_def()
    }

    fn register_types(registry: &mut TypeRegistry) {
        T::register_types(registry);
    }
}

impl ApiType for NoContent {
    const RUST_NAME: &'static str = "NoContent";

    fn type_def() -> (r: TypeDef)
        ensures
            r@.id == spec_id_of("type"@, seq!["NoContent"@]),
            r@.rust_path == seq!["NoContent"@],
            r@.rust_name == "NoContent"@,
            r@.ts_name == "NoContent"@,
            r@.shape == TypeShapeModel::Struct(Seq::empty()),
            r@.source == spec_empty_source(),
    {
        let fields: Vec<Field> = Vec::new();
        assert(crate::ir::fields_view(fields@) =~= Seq::<FieldModel>::empty());
        TypeDef {
            id: Self::type_ref().id,
            rust_path: Self::rust_path(),
            rust_name: Self::RUST_NAME.to_owned(),
            ts_name: Self::TS_NAME.to_owned(),
            shape: TypeShape::Struct(StructShape { fields }),
            source: SourceRange::empty(),
        }
    }

    fn register_types(registry: &mut TypeRegistry) {
        proof {
            lemma_prefix_refl(registry@);
        }
    }
}

/// The reference to a primitive type: intrinsic to the IR, never exported.
pub open spec fn spec_primitive_ref(name: Seq<char>) -> RefModel {
    RefModel { id: spec_id_of("primitive"@, seq![name]), name }
}

fn primitive_type_ref(name: &str) -> (r: TypeRef)
    ensures
        r@ == spec_primitive_ref(name@),
{
    let parts: [&str; 1] = [name];
    assert(crate::ir::strs_view(parts@) =~= seq![name@]);
    TypeRef { id: SymbolId::from_parts("primitive", parts.as_slice()), name: name.to_owned() }
}

fn primitive_type_def(name: &str, primitive: Primitive) -> (r: TypeDef)
    ensures
        r@.id == spec_primitive_ref(name@).id,
        r@.rust_path == seq![name@],
        r@.rust_name == name@,
        r@.ts_name == name@,
        r@.shape == crate::ir::TypeShapeModel::Primitive(primitive),
        r@.source == spec_empty_source(),
{
    let mut rust_path: Vec<String> = Vec::new();
    rust_path.push(name.to_owned());
    assert(crate::ir::strings_view(rust_path@) =~= seq![name@]);
    TypeDef {
        id: primitive_type_ref(name).id,
        rust_path,
        rust_name: name.to_owned(),
        ts_name: name.to_owned(),
        shape: TypeShape::Primitive(primitive),
        source: SourceRange::empty(),
    }
}

impl ApiType for bool {
    const RUST_NAME: &'static str = "bool";

    fn type_ref() -> (r: TypeRef)
        ensures
            r@ == spec_primitive_ref("bool"@),
    {
        primitive_type_ref("bool")
    }

    fn type_def() -> (r: TypeDef)
        ensures
            r@.id == spec_primitive_ref("bool"@).id,
            r@.rust_path == seq!["bool"@],
            r@.rust_name == "bool"@,
            r@.ts_name == "bool"@,
            r@.shape == TypeShapeModel::Primitive(Primitive::Bool),
            r@.source == spec_empty_source(),
    {
        primitive_type_def("bool", Primitive::Bool)
    }

    fn register_types(registry: &mut TypeRegistry) {
        proof {
            lemma_prefix_refl(registry@);
        }
    }
}

impl ApiType for i8 {
    const RUST_NAME: &'static str = "i8";

    fn type_ref() -> (r: TypeRef)
        ensures
            r@ == spec_primitive_ref("i8"@),
    {
        primitive_type_ref("i8")
    }

    fn type_def() -> (r: TypeDef)
        ensures
            r@.id == spec_primitive_ref("i8"@).id,
            r@.rust_path == seq!["i8"@],
            r@.rust_name == "i8"@,
            r@.ts_name == "i8"@,
            r@.shape == TypeShapeModel::Primitive(Primitive::I8),
            r@.source == spec_empty_source(),
    {
        primitive_type_def("i8", Primitive::I8)
    }

    fn register_types(registry: &mut TypeRegistry) {
        proof {
            lemma_prefix_refl(registry@);
        }
    }
}

impl ApiType for u8 {
    const RUST_NAME: &'static str = "u8";

    fn type_ref() -> (r: TypeRef)
        ensures
            r@ == spec_primitive_ref("u8"@),
    {
        primitive_type_ref("u8")
    }

    fn type_def() -> (r: TypeDef)
        ensures
            r@.id == spec_primitive_ref("u8"@).id,
            r@.rust_path == seq!["u8"@],
            r@.rust_name == "u8"@,
            r@.ts_name == "u8"@,
            r@.shape == TypeShapeModel::Primitive(Primitive::U8),
            r@.source == spec_empty_source(),
    {
        primitive_type_def("u8", Primitive::U8)
    }

    fn register_types(registry: &mut TypeRegistry) {
        proof {
            lemma_prefix_refl(registry@);
        }
    }
}

impl ApiType for i16 {
    const RUST_NAME: &'static str = "i16";

    fn type_ref() -> (r: TypeRef)
        ensures
            r@ == spec_primitive_ref("i16"@),
    {
        primitive_type_ref("i16")
    }

    fn type_def() -> (r: TypeDef)
        ensures
            r@.id == spec_primitive_ref("i16"@).id,
            r@.rust_path == seq!["i16"@],
            r@.rust_name == "i16"@,
            r@.ts_name == "i16"@,
            r@.shape == TypeShapeModel::Primitive(Primitive::I16),
            r@.source == spec_empty_source(),
    {
        primitive_type_def("i16", Primitive::I16)
    }

    fn register_types(registry: &mut TypeRegistry) {
        proof {
            lemma_prefix_refl(registry@);
        }
    }
}

impl ApiType for u16 {
    const RUST_NAME: &'static str = "u16";

    fn type_ref() -> (r: TypeRef)
        ensures
            r@ == spec_primitive_ref("u16"@),
    {
        primitive_type_ref("u16")
    }

    fn type_def() -> (r: TypeDef)
        ensures
            r@.id == spec_primitive_ref("u16"@).id,
            r@.rust_path == seq!["u16"@],
            r@.rust_name == "u16"@,
            r@.ts_name == "u16"@,
            r@.shape == TypeShapeModel::Primitive(Primitive::U16),
            r@.source == spec_empty_source(),
    {
        primitive_type_def("u16", Primitive::U16)
    }

    fn register_types(registry: &mut TypeRegistry) {
        proof {
            lemma_prefix_refl(registry@);
        }
    }
}

impl ApiType for i32 {
    const RUST_NAME: &'static str = "i32";

    fn type_ref() -> (r: TypeRef)
        ensures
            r@ == spec_primitive_ref("i32"@),
    {
        primitive_type_ref("i32")
    }

    fn type_def() -> (r: TypeDef)
        ensures
            r@.id == spec_primitive_ref("i32"@).id,
            r@.rust_path == seq!["i32"@],
            r@.rust_name == "i32"@,
            r@.ts_name == "i32"@,
            r@.shape == TypeShapeModel::Primitive(Primitive::I32),
            r@.source == spec_empty_source(),
    {
        primitive_type_def("i32", Primitive::I32)
    }

    fn register_types(registry: &mut TypeRegistry) {
        proof {
            lemma_prefix_refl(registry@);
        }
    }
}

impl ApiType for u32 {
    const RUST_NAME: &'static str = "u32";

    fn type_ref() -> (r: TypeRef)
        ensures
            r@ == spec_primitive_ref("u32"@),
    {
        primitive_type_ref("u32")
    }

    fn type_def() -> (r: TypeDef)
        ensures
            r@.id == spec_primitive_ref("u32"@).id,
            r@.rust_path == seq!["u32"@],
            r@.rust_name == "u32"@,
            r@.ts_name == "u32"@,
            r@.shape == TypeShapeModel::Primitive(Primitive::U32),
            r@.source == spec_empty_source(),
    {
        primitive_type_def("u32", Primitive::U32)
    }

    fn register_types(registry: &mut TypeRegistry) {
        proof {
            lemma_prefix_refl(registry@);
        }
    }
}

impl ApiType for i64 {
    const RUST_NAME: &'static str = "i64";

    fn type_ref() -> (r: TypeRef)
        ensures
            r@ == spec_primitive_ref("i64"@),
    {
        primitive_type_ref("i64")
    }

    fn type_def() -> (r: TypeDef)
        ensures
            r@.id == spec_primitive_ref("i64"@).id,
            r@.rust_path == seq!["i64"@],
            r@.rust_name == "i64"@,
            r@.ts_name == "i64"@,
            r@.shape == TypeShapeModel::Primitive(Primitive::I64),
            r@.source == spec_empty_source(),
    {
        primitive_type_def("i64", Primitive::I64)
    }

    fn register_types(registry: &mut TypeRegistry) {
        proof {
            lemma_prefix_refl(registry@);
        }
    }
}

impl ApiType for u64 {
    const RUST_NAME: &'static str = "u64";

    fn type_ref() -> (r: TypeRef)
        ensures
            r@ == spec_primitive_ref("u64"@),
    {
        primitive_type_ref("u64")
    }

    fn type_def() -> (r: TypeDef)
        ensures
            r@.id == spec_primitive_ref("u64"@).id,
            r@.rust_path == seq!["u64"@],
            r@.rust_name == "u64"@,
            r@.ts_name == "u64"@,
            r@.shape == TypeShapeModel::Primitive(Primitive::U64),
            r@.source == spec_empty_source(),
    {
        primitive_type_def("u64", Primitive::U64)
    }

    fn register_types(registry: &mut TypeRegistry) {
        proof {
            lemma_prefix_refl(registry@);
        }
    }
}

impl ApiType for i128 {
    const RUST_NAME: &'static str = "i128";

    fn type_ref() -> (r: TypeRef)
        ensures
            r@ == spec_primitive_ref("i128"@),
    {
        primitive_type_ref("i128")
    }

    fn type_def() -> (r: TypeDef)
        ensures
            r@.id == spec_primitive_ref("i128"@).id,
            r@.rust_path == seq!["i128"@],
            r@.rust_name == "i128"@,
            r@.ts_name == "i128"@,
            r@.shape == TypeShapeModel::Primitive(Primitive::I128),
            r@.source == spec_empty_source(),
    {
        primitive_type_def("i128", Primitive::I128)
    }

    fn register_types(registry: &mut TypeRegistry) {
        proof {
            lemma_prefix_refl(registry@);
        }
    }
}

impl ApiType for u128 {
    const RUST_NAME: &'static str = "u128";

    fn type_ref() -> (r: TypeRef)
        ensures
            r@ == spec_primitive_ref("u128"@),
    {
        primitive_type_ref("u128")
    }

    fn type_def() -> (r: TypeDef)
        ensures
            r@.id == spec_primitive_ref("u128"@).id,
            r@.rust_path == seq!["u128"@],
            r@.rust_name == "u128"@,
            r@.ts_name == "u128"@,
            r@.shape == TypeShapeModel::Primitive(Primitive::U128),
            r@.source == spec_empty_source(),
    {
        primitive_type_def("u128", Primitive::U128)
    }

    fn register_types(registry: &mut TypeRegistry) {
        proof {
            lemma_prefix_refl(registry@);
        }
    }
}

impl ApiType for usize {
    const RUST_NAME: &'static str = "usize";

    fn type_ref() -> (r: TypeRef)
        ensures
            r@ == spec_primitive_ref("usize"@),
    {
        primitive_type_ref("usize")
    }

    fn type_def() -> (r: TypeDef)
        ensures
            r@.id == spec_primitive_ref("usize"@).id,
            r@.rust_path == seq!["usize"@],
            r@.rust_name == "usize"@,
            r@.ts_name == "usize"@,
            r@.shape == TypeShapeModel::Primitive(Primitive::Usize),
            r@.source == spec_empty_source(),
    {
        primitive_type_def("usize", Primitive::Usize)
    }

    fn register_types(registry: &mut TypeRegistry) {
        proof {
            lemma_prefix_refl(registry@);
        }
    }
}

impl ApiType for isize {
    const RUST_NAME: &'static str = "isize";

    fn type_ref() -> (r: TypeRef)
        ensures
            r@ == spec_primitive_ref("isize"@),
    {
        primitive_type_ref("isize")
    }

    fn type_def() -> (r: TypeDef)
        ensures
            r@.id == spec_primitive_ref("isize"@).id,
            r@.rust_path == seq!["isize"@],
            r@.rust_name == "isize"@,
            r@.ts_name == "isize"@,
            r@.shape == TypeShapeModel::Primitive(Primitive::Isize),
            r@.source == spec_empty_source(),
    {
        primitive_type_def("isize", Primitive::Isize)
    }

    fn register_types(registry: &mut TypeRegistry) {
        proof {
            lemma_prefix_refl(registry@);
        }
    }
}

impl ApiType for String {
    const RUST_NAME: &'static str = "String";

    fn type_ref() -> (r: TypeRef)
        ensures
            r@ == spec_primitive_ref("String"@),
    {
        primitive_type_ref("String")
    }

    fn type_def() -> (r: TypeDef)
        ensures
            r@.id == spec_primitive_ref("String"@).id,
            r@.rust_path == seq!["String"@],
            r@.rust_name == "String"@,
            r@.ts_name == "String"@,
            r@.shape == TypeShapeModel::Primitive(Primitive::String),
            r@.source == spec_empty_source(),
    {
        primitive_type_def("String", Primitive::String)
    }

    fn register_types(registry: &mut TypeRegistry) {
        proof {
            lemma_prefix_refl(registry@);
        }
    }
}

impl ApiType for &str {
    const RUST_NAME: &'static str = "str";
    const TS_NAME: &'static str = "String";

    fn type_ref() -> (r: TypeRef)
        ensures
            r@ == spec_primitive_ref("String"@),
    {
        <String as ApiType>::type_ref()
    }

    fn type_def() -> (r: TypeDef)
        ensures
            r@.id == spec_primitive_ref("String"@).id,
            r@.rust_path == seq!["String"@],
            r@.rust_name == "String"@,
            r@.ts_name == "String"@,
            r@.shape == TypeShapeModel::Primitive(Primitive::String),
            r@.source == spec_empty_source(),
    {
        <String as ApiType>::type_def()
    }

    fn register_types(registry: &mut TypeRegistry) {
        <String as ApiType>::register_types(registry);
    }
}

/// `a` followed by `b`.
fn concat(a: &str, b: &str) -> (r: String)
    ensures
        r@ == a@ + b@,
{
    let mut s = a.to_owned();
    push_str(&mut s, b);
    s
}

/// `a`, `b` and `c` in a row.
fn concat3(a: &str, b: &str, c: &str) -> (r: String)
    ensures
        r@ == a@ + b@ + c@,
{
    let mut s = concat(a, b);
    push_str(&mut s, c);
    s
}

impl<T: ApiType> ApiType for Option<T> {
    const RUST_NAME: &'static str = T::RUST_NAME;
    const TS_NAME: &'static str = T::TS_NAME;

    fn rust_path() -> (r: Vec<String>)
        ensures
            call_ensures(T::rust_path, (), r),
    {
        T::rust_path()
    }

    fn type_ref() -> (r: TypeRef)
        ensures
            r@.id == spec_id_of("option"@, seq![T::RUST_NAME@]),
            r@.name == T::TS_NAME@ + "?"@,
    {
        let parts: [&str; 1] = [T::RUST_NAME];
        assert(crate::ir::strs_view(parts@) =~= seq![T::RUST_NAME@]);
        TypeRef {
            id: SymbolId::from_parts("option", parts.as_slice()),
            name: concat(T::TS_NAME, "?"),
        }
    }

    fn type_def() -> (r: TypeDef)
        ensures
            r@.id == spec_id_of("option"@, seq![T::RUST_NAME@]),
            r@.rust_name == T::RUST_NAME@,
            r@.ts_name == T::TS_NAME@,
            exists|p: Vec<String>| #[trigger] call_ensures(T::rust_path, (), p)
                && crate::ir::strings_view(p@) == r@.rust_path,
            r@.shape matches TypeShapeModel::Option(x)
                && exists|t: TypeRef| #[trigger] call_ensures(T::type_ref, (), t) && t@ == x,
            r@.source == spec_empty_source(),
    {
        let rust_path = T::rust_path();
        let inner = T::type_ref();
        let ghost (p, t) = (rust_path, inner);
        let r = TypeDef {
            id: Self::type_ref().id,
            rust_path,
            rust_name: T::RUST_NAME.to_owned(),
            ts_name: T::TS_NAME.to_owned(),
            shape: TypeShape::Option(Box::new(inner)),
            source: SourceRange::empty(),
        };
        assert(call_ensures(T::rust_path, (), p) && crate::ir::strings_view(p@) == r@.rust_path);
        assert(call_ensures(T::type_ref, (), t) && t@ == r.shape->Option_0@);
        r
    }

    fn register_types(registry: &mut TypeRegistry) {
        T::register_types(registry);
    }
}

impl<T: ApiType> ApiType for Vec<T> {
    const RUST_NAME: &'static str = "Vec";
    const TS_NAME: &'static str = "Array";

    fn type_ref() -> (r: TypeRef)
        ensures
            r@.id == spec_id_of("list"@, seq![T::RUST_NAME@]),
            r@.name == "Array<"@ + T::TS_NAME@ + ">"@,
    {
        let parts: [&str; 1] = [T::RUST_NAME];
        assert(crate::ir::strs_view(parts@) =~= seq![T::RUST_NAME@]);
        TypeRef {
            id: SymbolId::from_parts("list", parts.as_slice()),
            name: concat3("Array<", T::TS_NAME, ">"),
        }
    }

    fn type_def() -> (r: TypeDef)
        ensures
            r@.id == spec_id_of("list"@, seq![T::RUST_NAME@]),
            r@.rust_path == seq!["Vec"@, T::RUST_NAME@],
            r@.rust_name == "Vec"@,
            r@.ts_name == "Array<"@ + T::TS_NAME@ + ">"@,
            r@.shape matches TypeShapeModel::List(x)
                && exists|t: TypeRef| #[trigger] call_ensures(T::type_ref, (), t) && t@ == x,
            r@.source == spec_empty_source(),
    {
        let mut rust_path: Vec<String> = Vec::new();
        rust_path.push("Vec".to_owned());
        rust_path.push(T::RUST_NAME.to_owned());
        assert(crate::ir::strings_view(rust_path@) =~= seq!["Vec"@, T::RUST_NAME@]);
        let inner = T::type_ref();
        let ghost t = inner;
        let r = TypeDef {
            id: Self::type_ref().id,
            rust_path,
            rust_name: "Vec".to_owned(),
            ts_name: Self::type_ref().name,
            shape: TypeShape::List(Box::new(inner)),
            source: SourceRange::empty(),
        };
        assert(call_ensures(T::type_ref, (), t) && t@ == r.shape->List_0@);
        r
    }

    fn register_types(registry: &mut TypeRegistry) {
        T::register_types(registry);
    }
}

/// The reference to a string-keyed map of `value_rust_name` values.
fn record_type_ref(value_rust_name: &str, value_ts_name: &str) -> (r: TypeRef)
    ensures
        r@.id == spec_id_of("map"@, seq!["String"@, value_rust_name@]),
        r@.name == "Record<string, "@ + value_ts_name@ + ">"@,
{
    let parts: [&str; 2] = ["String", value_rust_name];
    assert(crate::ir::strs_view(parts@) =~= seq!["String"@, value_rust_name@]);
    TypeRef {
        id: SymbolId::from_parts("map", parts.as_slice()),
        name: concat3("Record<string, ", value_ts_name, ">"),
    }
}

/// The definition of a string-keyed map type named `map_name`.
fn record_type_def(map_name: &str, value_rust_name: &str, value_ts_name: &str, value: TypeRef) -> (r: TypeDef)
    ensures
        r@.id == spec_id_of("map"@, seq!["String"@, value_rust_name@]),
        r@.rust_path == seq![map_name@, "String"@, value_rust_name@],
        r@.rust_name == map_name@,
        r@.ts_name == "Record<string, "@ + value_ts_name@ + ">"@,
        r@.shape == (TypeShapeModel::Record { key: spec_primitive_ref("String"@), value: value@ }),
        r@.source == spec_empty_source(),
{
    let mut rust_path: Vec<String> = Vec::new();
    rust_path.push(map_name.to_owned());
    rust_path.push("String".to_owned());
    rust_path.push(value_rust_name.to_owned());
    assert(crate::ir::strings_view(rust_path@) =~= seq![map_name@, "String"@, value_rust_name@]);
    let own = record_type_ref(value_rust_name, value_ts_name);
    TypeDef {
        id: own.id,
        rust_path,
        rust_name: map_name.to_owned(),
        ts_name: own.name,
        shape: TypeShape::Record {
            key: Box::new(<String as ApiType>::type_ref()),
            value: Box::new(value),
        },
        source: SourceRange::empty(),
    }
}

impl<T: ApiType> ApiType for BTreeMap<String, T> {
    const RUST_NAME: &'static str = "BTreeMap";
    const TS_NAME: &'static str = "Record";

    fn type_ref() -> (r: TypeRef)
        ensures
            r@.id == spec_id_of("map"@, seq!["String"@, T::RUST_NAME@]),
            r@.name == "Record<string, "@ + T::TS_NAME@ + ">"@,
    {
        record_type_ref(T::RUST_NAME, T::TS_NAME)
    }

    fn type_def() -> (r: TypeDef)
        ensures
            r@.id == spec_id_of("map"@, seq!["String"@, T::RUST_NAME@]),
            r@.rust_path == seq!["BTreeMap"@, "String"@, T::RUST_NAME@],
            r@.rust_name == "BTreeMap"@,
            r@.ts_name == "Record<string, "@ + T::TS_NAME@ + ">"@,
            r@.shape matches TypeShapeModel::Record { key, value } && key == spec_primitive_ref("String"@)
                && exists|t: TypeRef| #[trigger] call_ensures(T::type_ref, (), t) && t@ == value,
            r@.source == spec_empty_source(),
    {
        let value = T::type_ref();
        let ghost t = value;
        let r = record_type_def("BTreeMap", T::RUST_NAME, T::TS_NAME, value);
        assert(call_ensures(T::type_ref, (), t) && t@ == t@);
        r
    }

    fn register_types(registry: &mut TypeRegistry) {
        T::register_types(registry);
    }
}

impl<T: ApiType> ApiType for HashMap<String, T> {
    const RUST_NAME: &'static str = "HashMap";
    const TS_NAME: &'static str = "Record";

    fn type_ref() -> (r: TypeRef)
        ensures
            r@.id == spec_id_of("map"@, seq!["String"@, T::RUST_NAME@]),
            r@.name == "Record<string, "@ + T::TS_NAME@ + ">"@,
    {
        record_type_ref(T::RUST_NAME, T::TS_NAME)
    }

    fn type_def() -> (r: TypeDef)
        ensures
            r@.id == spec_id_of("map"@, seq!["String"@, T::RUST_NAME@]),
            r@.rust_path == seq!["HashMap"@, "String"@, T::RUST_NAME@],
            r@.rust_name == "HashMap"@,
            r@.ts_name == "Record<string, "@ + T::TS_NAME@ + ">"@,
            r@.shape matches TypeShapeModel::Record { key, value } && key == spec_primitive_ref("String"@)
                && exists|t: TypeRef| #[trigger] call_ensures(T::type_ref, (), t) && t@ == value,
            r@.source == spec_empty_source(),
    {
        let value = T::type_ref();
        let ghost t = value;
        let r = record_type_def("HashMap", T::RUST_NAME, T::TS_NAME, value);
        assert(call_ensures(T::type_ref, (), t) && t@ == t@);
        r
    }

    fn register_types(registry: &mut TypeRegistry) {
        T::register_types(registry);
    }
}

/// The definition of an outside type mapped to a TypeScript schema imported
/// from `ts_import`.
fn external_type_def(
    type_ref: TypeRef,
    rust_path: Vec<String>,
    rust_name: &str,
    ts_import: &str,
    ts_name: &str,
    encoded_ts_name: &str,
    decoded_ts_name: &str,
) -> (r: TypeDef)
    ensures
        r@.id == type_ref@.id,
        r@.rust_path == crate::ir::strings_view(rust_path@),
        r@.rust_name == rust_name@,
        r@.ts_name == ts_name@,
        r@.source == spec_empty_source(),
        r@.shape == crate::ir::TypeShapeModel::External(
            crate::ir::ExternalTypeModel {
                rust_path: crate::ir::strings_view(rust_path@),
                ts_import: ts_import@,
                ts_name: ts_name@,
                encoded_ts_name: encoded_ts_name@,
                decoded_ts_name: decoded_ts_name@,
            },
        ),
{
    TypeDef {
        id: type_ref.id,
        rust_path: crate::ir::clone_strings(&rust_path),
        rust_name: rust_name.to_owned(),
        ts_name: ts_name.to_owned(),
        shape: TypeShape::External(
            ExternalType {
                rust_path,
                ts_import: ts_import.to_owned(),
                ts_name: ts_name.to_owned(),
                encoded_ts_name: encoded_ts_name.to_owned(),
                decoded_ts_name: decoded_ts_name.to_owned(),
            },
        ),
        source: SourceRange::empty(),
    }
}

/// A Rust path of owned segments.
fn owned_path(parts: &[&str]) -> (r: Vec<String>)
    ensures
        crate::ir::strings_view(r@) == crate::ir::strs_view(parts@),
{
    let mut out: Vec<String> = Vec::new();
    for i in 0..parts.len()
        invariant
            out@.len() == i,
            forall|j: int| 0 <= j < i ==> #[trigger] out@[j]@ == parts@[j]@,
    {
        out.push(parts[i].to_owned());
    }
    assert(crate::ir::strings_view(out@) =~= crate::ir::strs_view(parts@));
    out
}

/// The reference to an outside type, identified by its Rust path.
fn external_type_ref(rust_path: &[&str], name: &str) -> (r: TypeRef)
    ensures
        r@.id == spec_id_of("external"@, crate::ir::strs_view(rust_path@)),
        r@.name == name@,
{
    TypeRef { id: SymbolId::from_parts("external", rust_path), name: name.to_owned() }
}

impl ApiType for uuid::Uuid {
    const RUST_NAME: &'static str = "Uuid";

    fn rust_path() -> (r: Vec<String>)
        ensures
            crate::ir::strings_view(r@) == seq!["uuid"@, "Uuid"@],
    {
        let parts: [&str; 2] = ["uuid", "Uuid"];
        assert(crate::ir::strs_view(parts@) =~= seq!["uuid"@, "Uuid"@]);
        owned_path(parts.as_slice())
    }

    fn type_ref() -> (r: TypeRef)
        ensures
            r@.id == spec_id_of("external"@, seq!["uuid"@, "Uuid"@]),
            r@.name == "Uuid"@,
    {
        let parts: [&str; 2] = ["uuid", "Uuid"];
        assert(crate::ir::strs_view(parts@) =~= seq!["uuid"@, "Uuid"@]);
        external_type_ref(parts.as_slice(), "Uuid")
    }

    fn type_def() -> (r: TypeDef)
        ensures
            r@.id == spec_id_of("external"@, seq!["uuid"@, "Uuid"@]),
            r@.rust_path == seq!["uuid"@, "Uuid"@],
            r@.rust_name == "Uuid"@,
            r@.ts_name == "Uuid"@,
            r@.source == spec_empty_source(),
            r@.shape == TypeShapeModel::External(
                crate::ir::ExternalTypeModel {
                    rust_path: seq!["uuid"@, "Uuid"@],
                    ts_import: "@api/external"@,
                    ts_name: "Uuid"@,
                    encoded_ts_name: "string"@,
                    decoded_ts_name: "Uuid"@,
                },
            ),
    {
        external_type_def(
            Self::type_ref(),
            Self::rust_path(),
            Self::RUST_NAME,
            "@api/external", "Uuid", "string", "Uuid")
    }
}

/// The reference to `chrono::DateTime<chrono::Utc>`, the TypeScript
/// `Date`.
pub fn datetime_utc_type_ref() -> (r: TypeRef)
    ensures
        r@.id == spec_id_of("external"@, seq!["chrono"@, "DateTime"@, "Utc"@]),
        r@.name == "Date"@,
{
    let parts: [&str; 3] = ["chrono", "DateTime", "Utc"];
    assert(crate::ir::strs_view(parts@) =~= seq!["chrono"@, "DateTime"@, "Utc"@]);
    external_type_ref(parts.as_slice(), "Date")
}

/// The definition of `chrono::DateTime<chrono::Utc>`: an outside type
/// encoded as a string and decoded as a TypeScript `Date`.
pub fn datetime_utc_type_def() -> (r: TypeDef)
    ensures
        r@.id == spec_id_of("external"@, seq!["chrono"@, "DateTime"@, "Utc"@]),
        r@.rust_path == seq!["chrono"@, "DateTime"@, "Utc"@],
        r@.rust_name == "DateTimeUtc"@,
        r@.ts_name == "Date"@,
        r@.source == spec_empty_source(),
        r@.shape == TypeShapeModel::External(
            crate::ir::ExternalTypeModel {
                rust_path: seq!["chrono"@, "DateTime"@, "Utc"@],
                ts_import: "@api/external"@,
                ts_name: "Date"@,
                encoded_ts_name: "string"@,
                decoded_ts_name: "Date"@,
            },
        ),
{
    let parts: [&str; 3] = ["chrono", "DateTime", "Utc"];
    assert(crate::ir::strs_view(parts@) =~= seq!["chrono"@, "DateTime"@, "Utc"@]);
    external_type_def(
        datetime_utc_type_ref(),
        owned_path(parts.as_slice()),
        "DateTimeUtc",
        "@api/external",
        "Date",
        "string",
        "Date",
    )
}

impl ApiType for rust_decimal::Decimal {
    const RUST_NAME: &'static str = "Decimal";

    fn rust_path() -> (r: Vec<String>)
        ensures
            crate::ir::strings_view(r@) == seq!["rust_decimal"@, "Decimal"@],
    {
        let parts: [&str; 2] = ["rust_decimal", "Decimal"];
        assert(crate::ir::strs_view(parts@) =~= seq!["rust_decimal"@, "Decimal"@]);
        owned_path(parts.as_slice())
    }

    fn type_ref() -> (r: TypeRef)
        ensures
            r@.id == spec_id_of("external"@, seq!["rust_decimal"@, "Decimal"@]),
            r@.name == "Decimal"@,
    {
        let parts: [&str; 2] = ["rust_decimal", "Decimal"];
        assert(crate::ir::strs_view(parts@) =~= seq!["rust_decimal"@, "Decimal"@]);
        external_type_ref(parts.as_slice(), "Decimal")
    }

    fn type_def() -> (r: TypeDef)
        ensures
            r@.id == spec_id_of("external"@, seq!["rust_decimal"@, "Decimal"@]),
            r@.rust_path == seq!["rust_decimal"@, "Decimal"@],
            r@.rust_name == "Decimal"@,
            r@.ts_name == "Decimal"@,
            r@.source == spec_empty_source(),
            r@.shape == TypeShapeModel::External(
                crate::ir::ExternalTypeModel {
                    rust_path: seq!["rust_decimal"@, "Decimal"@],
                    ts_import: "@api/external"@,
                    ts_name: "Decimal"@,
                    encoded_ts_name: "string"@,
                    decoded_ts_name: "Decimal"@,
                },
            ),
    {
        external_type_def(
            Self::type_ref(),
            Self::rust_path(),
            Self::RUST_NAME,
            "@api/external", "Decimal", "string", "Decimal")
    }
}

impl ApiType for serde_json::Value {
    const RUST_NAME: &'static str = "JsonValue";
    const TS_NAME: &'static str = "JsonValue";

    fn rust_path() -> (r: Vec<String>)
        ensures
            crate::ir::strings_view(r@) == seq!["serde_json"@, "Value"@],
    {
        let parts: [&str; 2] = ["serde_json", "Value"];
        assert(crate::ir::strs_view(parts@) =~= seq!["serde_json"@, "Value"@]);
        owned_path(parts.as_slice())
    }

    fn type_ref() -> (r: TypeRef)
        ensures
            r@.id == spec_id_of("external"@, seq!["serde_json"@, "Value"@]),
            r@.name == "JsonValue"@,
    {
        let parts: [&str; 2] = ["serde_json", "Value"];
        assert(crate::ir::strs_view(parts@) =~= seq!["serde_json"@, "Value"@]);
        external_type_ref(parts.as_slice(), "JsonValue")
    }

    fn type_def() -> (r: TypeDef)
        ensures
            r@.id == spec_id_of("external"@, seq!["serde_json"@, "Value"@]),
            r@.rust_path == seq!["serde_json"@, "Value"@],
            r@.rust_name == "JsonValue"@,
            r@.ts_name == "JsonValue"@,
            r@.source == spec_empty_source(),
            r@.shape == TypeShapeModel::External(
                crate::ir::ExternalTypeModel {
                    rust_path: seq!["serde_json"@, "Value"@],
                    ts_import: "@api/external"@,
                    ts_name: "JsonValue"@,
                    encoded_ts_name: "unknown"@,
                    decoded_ts_name: "JsonValue"@,
                },
            ),
    {
        external_type_def(
            Self::type_ref(),
            Self::rust_path(),
            Self::RUST_NAME,
            "@api/external", "JsonValue", "unknown", "JsonValue")
    }
}

} // verus!

