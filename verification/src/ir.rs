//! The shared API contract intermediate representation and its models.

use vstd::prelude::*;
use vstd::string::StringSliceAdditionalSpecFns;
use crate::text::{hex_fixed, push_char, push_hex, push_str};

verus! {

/// The model of a list of strings: the characters of each string.
pub open spec fn strings_view(v: Seq<String>) -> Seq<Seq<char>> {
    v.map_values(|s: String| s@)
}

/// Clones a list of strings, element by element.
pub fn clone_strings(v: &Vec<String>) -> (r: Vec<String>)
    ensures
        r@ == v@,
{
    let mut out: Vec<String> = Vec::new();
    for i in 0..v.len()
        invariant
            out@ == v@.take(i as int),
    {
        out.push(v[i].clone());
        assert(out@ =~= v@.take(i + 1));
    }
    assert(v@.take(v@.len() as int) =~= v@);
    out
}

/// Source coordinates without a file, used for the full extent of an item.
#[derive(Clone, Copy, Debug, Default, PartialEq, Eq, Structural)]
pub struct SourceSpan {
    pub start_line: u32,
    pub start_column: u32,
    pub end_line: u32,
    pub end_column: u32,
}

/// Source location for diagnostics and cross-language links.
#[derive(Debug, Default, PartialEq, Eq)]
pub struct SourceRange {
    pub file: String,
    pub start_line: u32,
    pub start_column: u32,
    pub end_line: u32,
    pub end_column: u32,
    pub full_range: Option<SourceSpan>,
}

/// Model of a [`SourceRange`].
pub struct SourceRangeModel {
    pub file: Seq<char>,
    pub start_line: u32,
    pub start_column: u32,
    pub end_line: u32,
    pub end_column: u32,
    pub full_range: Option<SourceSpan>,
}

impl View for SourceRange {
    type V = SourceRangeModel;

    open spec fn view(&self) -> SourceRangeModel {
        SourceRangeModel {
            file: self.file@,
            start_line: self.start_line,
            start_column: self.start_column,
            end_line: self.end_line,
            end_column: self.end_column,
            full_range: self.full_range,
        }
    }
}

impl Clone for SourceRange {
    fn clone(&self) -> (r: Self)
        ensures
            r@ == self@,
    {
        SourceRange {
            file: self.file.clone(),
            start_line: self.start_line,
            start_column: self.start_column,
            end_line: self.end_line,
            end_column: self.end_column,
            full_range: self.full_range,
        }
    }
}

impl SourceRange {
    /// A range with an empty file and all coordinates zero.
    pub fn empty() -> (r: Self)
        ensures
            r@ == spec_empty_source(),
    {
        SourceRange {
            file: String::new(),
            start_line: 0,
            start_column: 0,
            end_line: 0,
            end_column: 0,
            full_range: None,
        }
    }
}

/// The model of the default source range.
pub open spec fn spec_empty_source() -> SourceRangeModel {
    SourceRangeModel {
        file: Seq::empty(),
        start_line: 0,
        start_column: 0,
        end_line: 0,
        end_column: 0,
        full_range: None,
    }
}

/// Stable identity for any Rust API symbol represented in the IR.
#[derive(Debug, PartialEq, Eq, PartialOrd, Ord, Hash)]
pub struct SymbolId(String);

impl View for SymbolId {
    type V = Seq<char>;

    closed spec fn view(&self) -> Seq<char> {
        self.0@
    }
}

impl From<String> for SymbolId {
    /// An already persisted value, kept verbatim.
    fn from(value: String) -> (r: Self)
        ensures
            r@ == value@,
    {
        SymbolId(value)
    }
}

impl vstd::std_specs::convert::FromSpecImpl<String> for SymbolId {
    open spec fn obeys_from_spec() -> bool {
        true
    }

    closed spec fn from_spec(v: String) -> Self {
        SymbolId(v)
    }
}

impl From<&str> for SymbolId {
    /// An already persisted value, kept verbatim.
    fn from(value: &str) -> (r: Self)
        ensures
            r@ == value@,
    {
        SymbolId::new(value.to_owned())
    }
}

impl vstd::std_specs::convert::FromSpecImpl<&str> for SymbolId {
    open spec fn obeys_from_spec() -> bool {
        false
    }

    closed spec fn from_spec(v: &str) -> Self {
        choose|id: SymbolId| id@ == v@
    }
}

impl Clone for SymbolId {
    fn clone(&self) -> (r: Self)
        ensures
            r@ == self@,
    {
        SymbolId(self.0.clone())
    }
}

pub const FNV_OFFSET_BASIS: u64 = 0xcbf2_9ce4_8422_2325;

pub const FNV_PRIME: u64 = 0x0000_0100_0000_01b3;

/// FNV-1a over a byte sequence, starting from `hash`.
pub open spec fn spec_fnv1a(hash: u64, bytes: Seq<u8>) -> u64
    decreases bytes.len(),
{
    if bytes.len() == 0 {
        hash
    } else {
        ((spec_fnv1a(hash, bytes.drop_last()) ^ (bytes.last() as u64)) as u64).wrapping_mul(
            FNV_PRIME,
        )
    }
}

/// The hash of a symbol path: each part is preceded by a zero byte.
pub open spec fn spec_parts_hash(hash: u64, parts: Seq<Seq<u8>>) -> u64
    decreases parts.len(),
{
    if parts.len() == 0 {
        hash
    } else {
        spec_fnv1a(spec_fnv1a(spec_parts_hash(hash, parts.drop_last()), seq![0u8]), parts.last())
    }
}

/// The UTF-8 bytes of each part.
pub open spec fn parts_bytes(parts: Seq<&str>) -> Seq<Seq<u8>> {
    parts.map_values(|p: &str| p.spec_bytes())
}

/// The value of the symbol id built from a namespace and a path.
pub open spec fn spec_symbol_id(namespace: Seq<char>, namespace_bytes: Seq<u8>, parts: Seq<Seq<u8>>) -> Seq<char> {
    namespace + seq![':'] + hex_fixed(
        spec_parts_hash(spec_fnv1a(FNV_OFFSET_BASIS, namespace_bytes), parts) as nat,
        16,
    )
}

/// The views of a list of string slices.
pub open spec fn strs_view(v: Seq<&str>) -> Seq<Seq<char>> {
    v.map_values(|p: &str| p@)
}

/// The stable value of the symbol id of `path` under `namespace`.
pub open spec fn spec_id_of(namespace: Seq<char>, path: Seq<Seq<char>>) -> Seq<char> {
    spec_symbol_id(
        namespace,
        vstd::utf8::encode_utf8(namespace),
        path.map_values(|p: Seq<char>| vstd::utf8::encode_utf8(p)),
    )
}

/// FNV-1a over `bytes`, starting from `hash`.
pub fn fnv1a(hash: u64, bytes: &[u8]) -> (r: u64)
    ensures
        r == spec_fnv1a(hash, bytes@),
{
    let mut h = hash;
    for i in 0..bytes.len()
        invariant
            h == spec_fnv1a(hash, bytes@.take(i as int)),
    {
        assert(bytes@.take(i + 1).drop_last() =~= bytes@.take(i as int));
        h = (h ^ (bytes[i] as u64)).wrapping_mul(FNV_PRIME);
    }
    assert(bytes@.take(bytes@.len() as int) =~= bytes@);
    h
}

impl SymbolId {
    /// Creates a symbol id from an already persisted stable value.
    pub fn new(value: String) -> (r: Self)
        ensures
            r@ == value@,
    {
        SymbolId(value)
    }

    /// Builds a deterministic symbol id from a namespace and symbol path.
    pub fn from_parts(namespace: &str, parts: &[&str]) -> (r: Self)
        ensures
            r@ == spec_id_of(namespace@, strs_view(parts@)),
    {
        let mut hash = fnv1a(FNV_OFFSET_BASIS, namespace.as_bytes());
        let zero: [u8; 1] = [0u8];
        let ghost start = hash;
        for i in 0..parts.len()
            invariant
                hash == spec_parts_hash(start, parts_bytes(parts@).take(i as int)),
                zero@ == seq![0u8],
        {
            assert(parts_bytes(parts@).take(i + 1).drop_last() =~= parts_bytes(parts@).take(i as int));
            hash = fnv1a(hash, zero.as_slice());
            hash = fnv1a(hash, parts[i].as_bytes());
        }
        assert(parts_bytes(parts@).take(parts@.len() as int) =~= parts_bytes(parts@));
        assert(parts_bytes(parts@) =~= strs_view(parts@).map_values(
            |p: Seq<char>| vstd::utf8::encode_utf8(p),
        ));
        let mut value = String::new();
        push_str(&mut value, namespace);
        push_char(&mut value, ':');
        push_hex(&mut value, hash, 16);
        SymbolId(value)
    }

    /// Returns the serialized symbol id value.
    pub fn as_str(&self) -> (r: &str)
        ensures
            r@ == self@,
    {
        self.0.as_str()
    }

    /// Compares two symbol ids by value.
    pub fn same(&self, other: &SymbolId) -> (r: bool)
        ensures
            r == (self@ == other@),
    {
        self.0 == other.0
    }
}

} // verus!

verus! {

/// Reference to a type definition.
#[derive(Debug, PartialEq, Eq)]
pub struct TypeRef {
    pub id: SymbolId,
    pub name: String,
}

/// Model of a reference: the id and name characters.
pub struct RefModel {
    pub id: Seq<char>,
    pub name: Seq<char>,
}

impl View for TypeRef {
    type V = RefModel;

    open spec fn view(&self) -> RefModel {
        RefModel { id: self.id@, name: self.name@ }
    }
}

impl Clone for TypeRef {
    fn clone(&self) -> (r: Self)
        ensures
            r@ == self@,
    {
        TypeRef { id: self.id.clone(), name: self.name.clone() }
    }
}

/// Reference to an error definition.
#[derive(Debug, PartialEq, Eq)]
pub struct ErrorRef {
    pub id: SymbolId,
    pub name: String,
}

impl View for ErrorRef {
    type V = RefModel;

    open spec fn view(&self) -> RefModel {
        RefModel { id: self.id@, name: self.name@ }
    }
}

impl Clone for ErrorRef {
    fn clone(&self) -> (r: Self)
        ensures
            r@ == self@,
    {
        ErrorRef { id: self.id.clone(), name: self.name.clone() }
    }
}

/// Struct field presence semantics.
#[derive(Clone, Copy, Debug, PartialEq, Eq, Structural)]
pub enum Optionality {
    Required,
    Optional,
    Nullable,
    OptionalNullable,
}

/// Primitive scalar shapes.
#[derive(Clone, Copy, Debug, PartialEq, Eq, Structural)]
pub enum Primitive {
    Bool,
    I8,
    U8,
    I16,
    U16,
    I32,
    U32,
    I64,
    U64,
    I128,
    U128,
    Usize,
    Isize,
    F32,
    F64,
    String,
}

/// A field on a struct, enum variant, request, or error.
#[derive(Debug, PartialEq, Eq)]
pub struct Field {
    pub id: SymbolId,
    pub rust_name: String,
    pub wire_name: String,
    pub ts_name: String,
    pub type_ref: TypeRef,
    pub optionality: Optionality,
    pub source: SourceRange,
}

/// Model of a [`Field`].
pub struct FieldModel {
    pub id: Seq<char>,
    pub rust_name: Seq<char>,
    pub wire_name: Seq<char>,
    pub ts_name: Seq<char>,
    pub type_ref: RefModel,
    pub optionality: Optionality,
    pub source: SourceRangeModel,
}

impl View for Field {
    type V = FieldModel;

    open spec fn view(&self) -> FieldModel {
        FieldModel {
            id: self.id@,
            rust_name: self.rust_name@,
            wire_name: self.wire_name@,
            ts_name: self.ts_name@,
            type_ref: self.type_ref@,
            optionality: self.optionality,
            source: self.source@,
        }
    }
}

impl Clone for Field {
    fn clone(&self) -> (r: Self)
        ensures
            r@ == self@,
    {
        Field {
            id: self.id.clone(),
            rust_name: self.rust_name.clone(),
            wire_name: self.wire_name.clone(),
            ts_name: self.ts_name.clone(),
            type_ref: self.type_ref.clone(),
            optionality: self.optionality,
            source: self.source.clone(),
        }
    }
}

/// The models of a list of fields.
pub open spec fn fields_view(v: Seq<Field>) -> Seq<FieldModel> {
    v.map_values(|f: Field| f@)
}

/// The models of a list of references.
pub open spec fn type_refs_view(v: Seq<TypeRef>) -> Seq<RefModel> {
    v.map_values(|t: TypeRef| t@)
}

/// The models of a list of error references.
pub open spec fn error_refs_view(v: Seq<ErrorRef>) -> Seq<RefModel> {
    v.map_values(|t: ErrorRef| t@)
}

/// Clones a list of fields.
pub fn clone_fields(v: &Vec<Field>) -> (r: Vec<Field>)
    ensures
        fields_view(r@) == fields_view(v@),
{
    let mut out: Vec<Field> = Vec::new();
    for i in 0..v.len()
        invariant
            out@.len() == i,
            forall|j: int| 0 <= j < i ==> #[trigger] out@[j]@ == v@[j]@,
    {
        let c = v[i].clone();
        out.push(c);
    }
    assert(fields_view(out@) =~= fields_view(v@));
    out
}

/// Clones a list of type references.
pub fn clone_type_refs(v: &Vec<TypeRef>) -> (r: Vec<TypeRef>)
    ensures
        type_refs_view(r@) == type_refs_view(v@),
{
    let mut out: Vec<TypeRef> = Vec::new();
    for i in 0..v.len()
        invariant
            out@.len() == i,
            forall|j: int| 0 <= j < i ==> #[trigger] out@[j]@ == v@[j]@,
    {
        let c = v[i].clone();
        out.push(c);
    }
    assert(type_refs_view(out@) =~= type_refs_view(v@));
    out
}

/// Clones a list of error references.
pub fn clone_error_refs(v: &Vec<ErrorRef>) -> (r: Vec<ErrorRef>)
    ensures
        error_refs_view(r@) == error_refs_view(v@),
{
    let mut out: Vec<ErrorRef> = Vec::new();
    for i in 0..v.len()
        invariant
            out@.len() == i,
            forall|j: int| 0 <= j < i ==> #[trigger] out@[j]@ == v@[j]@,
    {
        let c = v[i].clone();
        out.push(c);
    }
    assert(error_refs_view(out@) =~= error_refs_view(v@));
    out
}

/// Struct fields.
#[derive(Debug, Default, PartialEq, Eq)]
pub struct StructShape {
    pub fields: Vec<Field>,
}

/// A data enum variant.
#[derive(Debug, PartialEq, Eq)]
pub struct EnumVariant {
    pub id: SymbolId,
    pub rust_name: String,
    pub wire_name: String,
    pub fields: Vec<Field>,
    pub source: SourceRange,
}

/// Model of an [`EnumVariant`].
pub struct EnumVariantModel {
    pub id: Seq<char>,
    pub rust_name: Seq<char>,
    pub wire_name: Seq<char>,
    pub fields: Seq<FieldModel>,
    pub source: SourceRangeModel,
}

impl View for EnumVariant {
    type V = EnumVariantModel;

    open spec fn view(&self) -> EnumVariantModel {
        EnumVariantModel {
            id: self.id@,
            rust_name: self.rust_name@,
            wire_name: self.wire_name@,
            fields: fields_view(self.fields@),
            source: self.source@,
        }
    }
}

impl Clone for EnumVariant {
    fn clone(&self) -> (r: Self)
        ensures
            r@ == self@,
    {
        EnumVariant {
            id: self.id.clone(),
            rust_name: self.rust_name.clone(),
            wire_name: self.wire_name.clone(),
            fields: clone_fields(&self.fields),
            source: self.source.clone(),
        }
    }
}

/// The models of a list of enum variants.
pub open spec fn variants_view(v: Seq<EnumVariant>) -> Seq<EnumVariantModel> {
    v.map_values(|x: EnumVariant| x@)
}

/// Enum variants.
#[derive(Debug, Default, PartialEq, Eq)]
pub struct EnumShape {
    pub variants: Vec<EnumVariant>,
}

/// A type owned outside this workspace.
#[derive(Debug, PartialEq, Eq)]
pub struct ExternalType {
    pub rust_path: Vec<String>,
    pub ts_import: String,
    pub ts_name: String,
    pub encoded_ts_name: String,
    pub decoded_ts_name: String,
}

/// Model of an [`ExternalType`].
pub struct ExternalTypeModel {
    pub rust_path: Seq<Seq<char>>,
    pub ts_import: Seq<char>,
    pub ts_name: Seq<char>,
    pub encoded_ts_name: Seq<char>,
    pub decoded_ts_name: Seq<char>,
}

impl View for ExternalType {
    type V = ExternalTypeModel;

    open spec fn view(&self) -> ExternalTypeModel {
        ExternalTypeModel {
            rust_path: strings_view(self.rust_path@),
            ts_import: self.ts_import@,
            ts_name: self.ts_name@,
            encoded_ts_name: self.encoded_ts_name@,
            decoded_ts_name: self.decoded_ts_name@,
        }
    }
}

/// Shape of a named data type.
#[derive(Debug, PartialEq, Eq)]
pub enum TypeShape {
    Primitive(Primitive),
    Struct(StructShape),
    Enum(EnumShape),
    Newtype(Box<TypeRef>),
    Tuple(Vec<TypeRef>),
    List(Box<TypeRef>),
    Record { key: Box<TypeRef>, value: Box<TypeRef> },
    Option(Box<TypeRef>),
    External(ExternalType),
}

/// Model of a [`TypeShape`].
pub enum TypeShapeModel {
    Primitive(Primitive),
    Struct(Seq<FieldModel>),
    Enum(Seq<EnumVariantModel>),
    Newtype(RefModel),
    Tuple(Seq<RefModel>),
    List(RefModel),
    Record { key: RefModel, value: RefModel },
    Option(RefModel),
    External(ExternalTypeModel),
}

impl View for TypeShape {
    type V = TypeShapeModel;

    open spec fn view(&self) -> TypeShapeModel {
        match self {
            TypeShape::Primitive(p) => TypeShapeModel::Primitive(*p),
            TypeShape::Struct(s) => TypeShapeModel::Struct(fields_view(s.fields@)),
            TypeShape::Enum(e) => TypeShapeModel::Enum(variants_view(e.variants@)),
            TypeShape::Newtype(t) => TypeShapeModel::Newtype(t@),
            TypeShape::Tuple(items) => TypeShapeModel::Tuple(type_refs_view(items@)),
            TypeShape::List(t) => TypeShapeModel::List(t@),
            TypeShape::Record { key, value } => TypeShapeModel::Record { key: key@, value: value@ },
            TypeShape::Option(t) => TypeShapeModel::Option(t@),
            TypeShape::External(x) => TypeShapeModel::External(x@),
        }
    }
}

/// A named data type that can cross the API boundary.
#[derive(Debug, PartialEq, Eq)]
pub struct TypeDef {
    pub id: SymbolId,
    pub rust_path: Vec<String>,
    pub rust_name: String,
    pub ts_name: String,
    pub shape: TypeShape,
    pub source: SourceRange,
}

/// Model of a [`TypeDef`].
pub struct TypeDefModel {
    pub id: Seq<char>,
    pub rust_path: Seq<Seq<char>>,
    pub rust_name: Seq<char>,
    pub ts_name: Seq<char>,
    pub shape: TypeShapeModel,
    pub source: SourceRangeModel,
}

impl View for TypeDef {
    type V = TypeDefModel;

    open spec fn view(&self) -> TypeDefModel {
        TypeDefModel {
            id: self.id@,
            rust_path: strings_view(self.rust_path@),
            rust_name: self.rust_name@,
            ts_name: self.ts_name@,
            shape: self.shape@,
            source: self.source@,
        }
    }
}

/// The models of a list of type definitions.
pub open spec fn type_defs_view(v: Seq<TypeDef>) -> Seq<TypeDefModel> {
    v.map_values(|x: TypeDef| x@)
}

/// HTTP status associated with an API error variant.
#[derive(Clone, Copy, Debug, PartialEq, Eq, Structural)]
pub struct HttpStatus(pub u16);

/// A tagged error variant.
#[derive(Debug, PartialEq, Eq)]
pub struct ErrorVariant {
    pub id: SymbolId,
    pub rust_name: String,
    pub tag: String,
    pub status: HttpStatus,
    pub fields: Vec<Field>,
    pub source: SourceRange,
}

/// Model of an [`ErrorVariant`].
pub struct ErrorVariantModel {
    pub id: Seq<char>,
    pub rust_name: Seq<char>,
    pub tag: Seq<char>,
    pub status: u16,
    pub fields: Seq<FieldModel>,
    pub source: SourceRangeModel,
}

impl View for ErrorVariant {
    type V = ErrorVariantModel;

    open spec fn view(&self) -> ErrorVariantModel {
        ErrorVariantModel {
            id: self.id@,
            rust_name: self.rust_name@,
            tag: self.tag@,
            status: self.status.0,
            fields: fields_view(self.fields@),
            source: self.source@,
        }
    }
}

impl Clone for ErrorVariant {
    fn clone(&self) -> (r: Self)
        ensures
            r@ == self@,
    {
        ErrorVariant {
            id: self.id.clone(),
            rust_name: self.rust_name.clone(),
            tag: self.tag.clone(),
            status: self.status,
            fields: clone_fields(&self.fields),
            source: self.source.clone(),
        }
    }
}

/// The models of a list of error variants.
pub open spec fn error_variants_view(v: Seq<ErrorVariant>) -> Seq<ErrorVariantModel> {
    v.map_values(|x: ErrorVariant| x@)
}

/// A named API error type.
#[derive(Debug, PartialEq, Eq)]
pub struct ErrorDef {
    pub id: SymbolId,
    pub rust_path: Vec<String>,
    pub rust_name: String,
    pub ts_name: String,
    pub variants: Vec<ErrorVariant>,
    pub source: SourceRange,
}

/// Model of an [`ErrorDef`].
pub struct ErrorDefModel {
    pub id: Seq<char>,
    pub rust_path: Seq<Seq<char>>,
    pub rust_name: Seq<char>,
    pub ts_name: Seq<char>,
    pub variants: Seq<ErrorVariantModel>,
    pub source: SourceRangeModel,
}

impl View for ErrorDef {
    type V = ErrorDefModel;

    open spec fn view(&self) -> ErrorDefModel {
        ErrorDefModel {
            id: self.id@,
            rust_path: strings_view(self.rust_path@),
            rust_name: self.rust_name@,
            ts_name: self.ts_name@,
            variants: error_variants_view(self.variants@),
            source: self.source@,
        }
    }
}

/// The models of a list of error definitions.
pub open spec fn error_defs_view(v: Seq<ErrorDef>) -> Seq<ErrorDefModel> {
    v.map_values(|x: ErrorDef| x@)
}

} // verus!

verus! {

/// Clones a list of enum variants.
pub fn clone_variants(v: &Vec<EnumVariant>) -> (r: Vec<EnumVariant>)
    ensures
        variants_view(r@) == variants_view(v@),
{
    let mut out: Vec<EnumVariant> = Vec::new();
    for i in 0..v.len()
        invariant
            out@.len() == i,
            forall|j: int| 0 <= j < i ==> #[trigger] out@[j]@ == v@[j]@,
    {
        let c = v[i].clone();
        out.push(c);
    }
    assert(variants_view(out@) =~= variants_view(v@));
    out
}

/// Clones a list of error variants.
pub fn clone_error_variants(v: &Vec<ErrorVariant>) -> (r: Vec<ErrorVariant>)
    ensures
        error_variants_view(r@) == error_variants_view(v@),
{
    let mut out: Vec<ErrorVariant> = Vec::new();
    for i in 0..v.len()
        invariant
            out@.len() == i,
            forall|j: int| 0 <= j < i ==> #[trigger] out@[j]@ == v@[j]@,
    {
        let c = v[i].clone();
        out.push(c);
    }
    assert(error_variants_view(out@) =~= error_variants_view(v@));
    out
}

impl Clone for ExternalType {
    fn clone(&self) -> (r: Self)
        ensures
            r@ == self@,
    {
        let rust_path = clone_strings(&self.rust_path);
        ExternalType {
            rust_path,
            ts_import: self.ts_import.clone(),
            ts_name: self.ts_name.clone(),
            encoded_ts_name: self.encoded_ts_name.clone(),
            decoded_ts_name: self.decoded_ts_name.clone(),
        }
    }
}

impl Clone for TypeShape {
    fn clone(&self) -> (r: Self)
        ensures
            r@ == self@,
    {
        match self {
            TypeShape::Primitive(p) => TypeShape::Primitive(*p),
            TypeShape::Struct(s) => TypeShape::Struct(StructShape { fields: clone_fields(&s.fields) }),
            TypeShape::Enum(e) => TypeShape::Enum(EnumShape { variants: clone_variants(&e.variants) }),
            TypeShape::Newtype(t) => TypeShape::Newtype(Box::new((**t).clone())),
            TypeShape::Tuple(items) => TypeShape::Tuple(clone_type_refs(items)),
            TypeShape::List(t) => TypeShape::List(Box::new((**t).clone())),
            TypeShape::Record { key, value } => TypeShape::Record {
                key: Box::new((**key).clone()),
                value: Box::new((**value).clone()),
            },
            TypeShape::Option(t) => TypeShape::Option(Box::new((**t).clone())),
            TypeShape::External(x) => TypeShape::External(x.clone()),
        }
    }
}

impl Clone for TypeDef {
    fn clone(&self) -> (r: Self)
        ensures
            r@ == self@,
    {
        let rust_path = clone_strings(&self.rust_path);
        TypeDef {
            id: self.id.clone(),
            rust_path,
            rust_name: self.rust_name.clone(),
            ts_name: self.ts_name.clone(),
            shape: self.shape.clone(),
            source: self.source.clone(),
        }
    }
}

impl Clone for ErrorDef {
    fn clone(&self) -> (r: Self)
        ensures
            r@ == self@,
    {
        let rust_path = clone_strings(&self.rust_path);
        ErrorDef {
            id: self.id.clone(),
            rust_path,
            rust_name: self.rust_name.clone(),
            ts_name: self.ts_name.clone(),
            variants: clone_error_variants(&self.variants),
            source: self.source.clone(),
        }
    }
}

/// Endpoint transport style.
#[derive(Clone, Copy, Debug, PartialEq, Eq, Structural)]
pub enum Transport {
    UnaryHttp,
    ServerSentEvents,
    WebSocketDuplex,
    BinaryDownload,
    BinaryUpload,
}

/// Supported HTTP methods for unary HTTP endpoints.
#[derive(Clone, Copy, Debug, PartialEq, Eq, Structural)]
pub enum HttpMethod {
    Delete,
    Get,
    Patch,
    Post,
    Put,
}

/// The upper-case wire name of an HTTP method.
pub open spec fn spec_method_name(method: HttpMethod) -> Seq<char> {
    match method {
        HttpMethod::Delete => "DELETE"@,
        HttpMethod::Get => "GET"@,
        HttpMethod::Patch => "PATCH"@,
        HttpMethod::Post => "POST"@,
        HttpMethod::Put => "PUT"@,
    }
}

/// Each method has its own wire name, its HTTP name in upper case: distinct
/// methods have distinct names, every name is made of the letters `A` to
/// `Z`, and `PATCH`, `PUT`, `POST`, `GET` and `DELETE` name their methods.
pub proof fn lemma_method_names(a: HttpMethod, b: HttpMethod)
    ensures
        a != b ==> spec_method_name(a) != spec_method_name(b),
        spec_method_name(a).len() > 0,
        forall|i: int| 0 <= i < spec_method_name(a).len() ==> 'A' <= #[trigger] spec_method_name(a)[i] <= 'Z',
        spec_method_name(HttpMethod::Patch) == "PATCH"@,
        spec_method_name(HttpMethod::Put) == "PUT"@,
        spec_method_name(HttpMethod::Post) == "POST"@,
        spec_method_name(HttpMethod::Get) == "GET"@,
        spec_method_name(HttpMethod::Delete) == "DELETE"@,
{
    reveal_strlit("DELETE");
    reveal_strlit("GET");
    reveal_strlit("PATCH");
    reveal_strlit("POST");
    reveal_strlit("PUT");
    let names = seq!["DELETE"@, "GET"@, "PATCH"@, "POST"@, "PUT"@];
    assert(names[0].len() == 6 && names[1].len() == 3 && names[2].len() == 5 && names[3].len() == 4
        && names[4].len() == 3);
    assert("PUT"@ != "GET"@) by { assert("PUT"@[0] != "GET"@[0]); }
    assert("DELETE"@ != "GET"@ && "DELETE"@ != "PATCH"@ && "DELETE"@ != "POST"@ && "DELETE"@ != "PUT"@);
    assert("GET"@ != "PATCH"@ && "GET"@ != "POST"@);
    assert("PATCH"@ != "POST"@ && "PATCH"@ != "PUT"@ && "POST"@ != "PUT"@);
}

impl HttpMethod {
    /// The upper-case wire name of this method.
    pub fn as_str(self) -> (r: &'static str)
        ensures
            r@ == spec_method_name(self),
    {
        match self {
            HttpMethod::Delete => "DELETE",
            HttpMethod::Get => "GET",
            HttpMethod::Patch => "PATCH",
            HttpMethod::Post => "POST",
            HttpMethod::Put => "PUT",
        }
    }
}

/// Route pattern as exposed by the Rust service.
#[derive(Debug, PartialEq, Eq)]
pub struct RoutePattern(pub String);

impl Clone for RoutePattern {
    fn clone(&self) -> (r: Self)
        ensures
            r.0@ == self.0@,
    {
        RoutePattern(self.0.clone())
    }
}

/// Endpoint request body, path, and query shape.
#[derive(Debug, Default, PartialEq, Eq)]
pub struct RequestShape {
    pub path_params: Vec<Field>,
    pub query_params: Vec<Field>,
    pub body: Option<TypeRef>,
}

/// Model of a [`RequestShape`].
pub struct RequestShapeModel {
    pub path_params: Seq<FieldModel>,
    pub query_params: Seq<FieldModel>,
    pub body: Option<RefModel>,
}

/// The model of an optional reference.
pub open spec fn opt_ref_view(o: Option<TypeRef>) -> Option<RefModel> {
    match o {
        Some(t) => Some(t@),
        None => None,
    }
}

impl View for RequestShape {
    type V = RequestShapeModel;

    open spec fn view(&self) -> RequestShapeModel {
        RequestShapeModel {
            path_params: fields_view(self.path_params@),
            query_params: fields_view(self.query_params@),
            body: opt_ref_view(self.body),
        }
    }
}

impl Clone for RequestShape {
    fn clone(&self) -> (r: Self)
        ensures
            r@ == self@,
    {
        let body = match &self.body {
            Some(t) => Some(t.clone()),
            None => None,
        };
        RequestShape {
            path_params: clone_fields(&self.path_params),
            query_params: clone_fields(&self.query_params),
            body,
        }
    }
}

impl RequestShape {
    /// A request without path, query or body parameters.
    pub fn empty() -> (r: Self)
        ensures
            r@.path_params.len() == 0,
            r@.query_params.len() == 0,
            r@.body.is_none(),
    {
        let r = RequestShape { path_params: Vec::new(), query_params: Vec::new(), body: None };
        assert(fields_view(r.path_params@) =~= Seq::empty());
        assert(fields_view(r.query_params@) =~= Seq::empty());
        r
    }
}

/// Endpoint response shape.
#[derive(Debug, PartialEq, Eq)]
pub enum ResponseShape {
    Empty,
    Json(TypeRef),
    Created(TypeRef),
    Stream(TypeRef),
}

/// Model of a [`ResponseShape`].
pub enum ResponseShapeModel {
    Empty,
    Json(RefModel),
    Created(RefModel),
    Stream(RefModel),
}

impl View for ResponseShape {
    type V = ResponseShapeModel;

    open spec fn view(&self) -> ResponseShapeModel {
        match self {
            ResponseShape::Empty => ResponseShapeModel::Empty,
            ResponseShape::Json(t) => ResponseShapeModel::Json(t@),
            ResponseShape::Created(t) => ResponseShapeModel::Created(t@),
            ResponseShape::Stream(t) => ResponseShapeModel::Stream(t@),
        }
    }
}

impl Clone for ResponseShape {
    fn clone(&self) -> (r: Self)
        ensures
            r@ == self@,
    {
        match self {
            ResponseShape::Empty => ResponseShape::Empty,
            ResponseShape::Json(t) => ResponseShape::Json(t.clone()),
            ResponseShape::Created(t) => ResponseShape::Created(t.clone()),
            ResponseShape::Stream(t) => ResponseShape::Stream(t.clone()),
        }
    }
}

/// A callable API endpoint.
#[derive(Debug, PartialEq, Eq)]
pub struct Endpoint {
    pub id: SymbolId,
    pub rust_path: Vec<String>,
    pub rust_name: String,
    pub ts_path: Vec<String>,
    pub route: RoutePattern,
    pub method: HttpMethod,
    pub transport: Transport,
    pub request: RequestShape,
    pub response: ResponseShape,
    pub errors: Vec<ErrorRef>,
    pub source: SourceRange,
    pub allow_unused: bool,
}

/// Model of an [`Endpoint`].
pub struct EndpointModel {
    pub id: Seq<char>,
    pub rust_path: Seq<Seq<char>>,
    pub rust_name: Seq<char>,
    pub ts_path: Seq<Seq<char>>,
    pub route: Seq<char>,
    pub method: HttpMethod,
    pub transport: Transport,
    pub request: RequestShapeModel,
    pub response: ResponseShapeModel,
    pub errors: Seq<RefModel>,
    pub source: SourceRangeModel,
    pub allow_unused: bool,
}

impl View for Endpoint {
    type V = EndpointModel;

    open spec fn view(&self) -> EndpointModel {
        EndpointModel {
            id: self.id@,
            rust_path: strings_view(self.rust_path@),
            rust_name: self.rust_name@,
            ts_path: strings_view(self.ts_path@),
            route: self.route.0@,
            method: self.method,
            transport: self.transport,
            request: self.request@,
            response: self.response@,
            errors: error_refs_view(self.errors@),
            source: self.source@,
            allow_unused: self.allow_unused,
        }
    }
}

impl Clone for Endpoint {
    fn clone(&self) -> (r: Self)
        ensures
            r@ == self@,
    {
        let rust_path = clone_strings(&self.rust_path);
        let ts_path = clone_strings(&self.ts_path);
        Endpoint {
            id: self.id.clone(),
            rust_path,
            rust_name: self.rust_name.clone(),
            ts_path,
            route: self.route.clone(),
            method: self.method,
            transport: self.transport,
            request: self.request.clone(),
            response: self.response.clone(),
            errors: clone_error_refs(&self.errors),
            source: self.source.clone(),
            allow_unused: self.allow_unused,
        }
    }
}

/// The models of a list of endpoints.
pub open spec fn endpoints_view(v: Seq<Endpoint>) -> Seq<EndpointModel> {
    v.map_values(|x: Endpoint| x@)
}

/// Full API contract shared by collectors, generators, and tooling.
#[derive(Debug, Default, PartialEq, Eq)]
pub struct ApiContract {
    pub package_name: String,
    pub endpoints: Vec<Endpoint>,
    pub types: Vec<TypeDef>,
    pub errors: Vec<ErrorDef>,
}

/// Model of an [`ApiContract`].
pub struct ApiContractModel {
    pub package_name: Seq<char>,
    pub endpoints: Seq<EndpointModel>,
    pub types: Seq<TypeDefModel>,
    pub errors: Seq<ErrorDefModel>,
}

impl View for ApiContract {
    type V = ApiContractModel;

    open spec fn view(&self) -> ApiContractModel {
        ApiContractModel {
            package_name: self.package_name@,
            endpoints: endpoints_view(self.endpoints@),
            types: type_defs_view(self.types@),
            errors: error_defs_view(self.errors@),
        }
    }
}

} // verus!
