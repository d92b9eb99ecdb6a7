//! Effect Schema declarations for the exported API types.

use vstd::prelude::*;
use crate::gen::text::{render_indent, spaces};
use crate::gen::writer::{mark_spec, MarkSpec, spec_position, TrackedWriter};
use crate::ir::{
    EnumShape, EnumVariant, EnumVariantModel, ExternalType, ExternalTypeModel, Field, FieldModel,
    Optionality, Primitive, RefModel, StructShape, TypeDef, TypeDefModel, TypeRef, TypeShape,
    TypeShapeModel, fields_view, type_refs_view, variants_view, strings_view,
};
use crate::order::str_eq;
use crate::ir::SymbolId;
use crate::text::{join, join_strings, push_str};

verus! {

/// The primitive a type name denotes, when it names one.
pub open spec fn spec_primitive_from_name(n: Seq<char>) -> Option<Primitive> {
    if n == "bool"@ || n == "Bool"@ || n == "boolean"@ {
        Some(Primitive::Bool)
    } else if n == "i32"@ || n == "I32"@ {
        Some(Primitive::I32)
    } else if n == "i64"@ || n == "I64"@ {
        Some(Primitive::I64)
    } else if n == "f64"@ || n == "F64"@ || n == "number"@ {
        Some(Primitive::F64)
    } else if n == "String"@ || n == "string"@ {
        Some(Primitive::String)
    } else {
        None
    }
}

/// Recognizes references to primitive types by name.
pub fn primitive_from_type_ref(type_ref: &TypeRef) -> (r: Option<Primitive>)
    ensures
        r == spec_primitive_from_name(type_ref.name@),
{
    let n = type_ref.name.as_str();
    if str_eq(n, "bool") || str_eq(n, "Bool") || str_eq(n, "boolean") {
        Some(Primitive::Bool)
    } else if str_eq(n, "i32") || str_eq(n, "I32") {
        Some(Primitive::I32)
    } else if str_eq(n, "i64") || str_eq(n, "I64") {
        Some(Primitive::I64)
    } else if str_eq(n, "f64") || str_eq(n, "F64") || str_eq(n, "number") {
        Some(Primitive::F64)
    } else if str_eq(n, "String") || str_eq(n, "string") {
        Some(Primitive::String)
    } else {
        None
    }
}

/// The Effect schema of a primitive.
pub open spec fn spec_primitive_schema(p: Primitive) -> Seq<char> {
    match p {
        Primitive::Bool => "Schema.Boolean"@,
        Primitive::String => "Schema.String"@,
        _ => "Schema.Number"@,
    }
}

/// Renders the Effect schema of a primitive.
pub fn render_primitive(primitive: Primitive) -> (r: &'static str)
    ensures
        r@ == spec_primitive_schema(primitive),
{
    match primitive {
        Primitive::Bool => "Schema.Boolean",
        Primitive::String => "Schema.String",
        _ => "Schema.Number",
    }
}

/// Each primitive kind has its own schema: a primitive's schema is
/// `Schema.Boolean` exactly when it is `bool`, `Schema.String` exactly when
/// it is a string, and `Schema.Number` otherwise; so a reference to a type
/// named `bool` is a `Schema.Boolean` and one named `String` a
/// `Schema.String`.
pub proof fn lemma_primitive_schemas(p: Primitive, r: RefModel)
    ensures
        (spec_primitive_schema(p) == "Schema.Boolean"@) <==> p == Primitive::Bool,
        (spec_primitive_schema(p) == "Schema.String"@) <==> p == Primitive::String,
        (spec_primitive_schema(p) == "Schema.Number"@) <==> (p != Primitive::Bool && p != Primitive::String),
        r.name == "bool"@ ==> spec_type_ref_schema(r) == "Schema.Boolean"@,
        r.name == "String"@ ==> spec_type_ref_schema(r) == "Schema.String"@,
{
    reveal_strlit("Schema.Boolean");
    reveal_strlit("Schema.String");
    reveal_strlit("Schema.Number");
    reveal_strlit("bool");
    reveal_strlit("Bool");
    reveal_strlit("boolean");
    reveal_strlit("i32");
    reveal_strlit("I32");
    reveal_strlit("i64");
    reveal_strlit("I64");
    reveal_strlit("f64");
    reveal_strlit("F64");
    reveal_strlit("number");
    reveal_strlit("String");
    reveal_strlit("string");
    assert("Schema.Boolean"@ != "Schema.String"@) by {
        assert("Schema.Boolean"@.len() != "Schema.String"@.len());
    }
    assert("Schema.Boolean"@ != "Schema.Number"@) by {
        assert("Schema.Boolean"@.len() != "Schema.Number"@.len());
    }
    assert("Schema.String"@ != "Schema.Number"@) by {
        assert("Schema.String"@[7] != "Schema.Number"@[7]);
    }
    assert("bool"@ != "Bool"@) by { assert("bool"@[0] != "Bool"@[0]); }
    assert("String"@ != "bool"@) by { assert("String"@.len() != "bool"@.len()); }
    assert("String"@ != "Bool"@) by { assert("String"@.len() != "Bool"@.len()); }
    assert("String"@ != "boolean"@) by { assert("String"@.len() != "boolean"@.len()); }
    assert("String"@ != "i32"@) by { assert("String"@.len() != "i32"@.len()); }
    assert("String"@ != "I32"@) by { assert("String"@.len() != "I32"@.len()); }
    assert("String"@ != "i64"@) by { assert("String"@.len() != "i64"@.len()); }
    assert("String"@ != "I64"@) by { assert("String"@.len() != "I64"@.len()); }
    assert("String"@ != "f64"@) by { assert("String"@.len() != "f64"@.len()); }
    assert("String"@ != "F64"@) by { assert("String"@.len() != "F64"@.len()); }
    assert("String"@ != "number"@) by { assert("String"@[0] != "number"@[0]); }
}

/// The schema expression for a referenced type.
pub open spec fn spec_type_ref_schema(t: RefModel) -> Seq<char> {
    match spec_primitive_from_name(t.name) {
        Some(p) => spec_primitive_schema(p),
        None => t.name,
    }
}

/// Renders the schema expression for a referenced type.
pub fn render_type_ref(type_ref: &TypeRef) -> (r: String)
    ensures
        r@ == spec_type_ref_schema(type_ref@),
{
    match primitive_from_type_ref(type_ref) {
        Some(p) => render_primitive(p).to_owned(),
        None => type_ref.name.clone(),
    }
}

/// The schema of a field, wrapped according to its presence semantics.
pub open spec fn spec_field_schema(f: FieldModel) -> Seq<char> {
    let s = spec_type_ref_schema(f.type_ref);
    match f.optionality {
        Optionality::Required => s,
        Optionality::Optional => "Schema.optionalKey("@ + s + ")"@,
        Optionality::Nullable => "Schema.NullOr("@ + s + ")"@,
        Optionality::OptionalNullable => "Schema.optionalKey(Schema.NullOr("@ + s + "))"@,
    }
}

/// Renders the schema of a field.
pub fn render_field_schema(field: &Field) -> (r: String)
    ensures
        r@ == spec_field_schema(field@),
{
    let schema = render_type_ref(&field.type_ref);
    match field.optionality {
        Optionality::Required => schema,
        Optionality::Optional => {
            let mut out = String::new();
            push_str(&mut out, "Schema.optionalKey(");
            push_str(&mut out, schema.as_str());
            push_str(&mut out, ")");
            out
        },
        Optionality::Nullable => {
            let mut out = String::new();
            push_str(&mut out, "Schema.NullOr(");
            push_str(&mut out, schema.as_str());
            push_str(&mut out, ")");
            out
        },
        Optionality::OptionalNullable => {
            let mut out = String::new();
            push_str(&mut out, "Schema.optionalKey(Schema.NullOr(");
            push_str(&mut out, schema.as_str());
            push_str(&mut out, "))");
            out
        },
    }
}

/// One `name: schema,` line of a struct schema.
pub open spec fn spec_field_line(f: FieldModel, indent: nat) -> Seq<char> {
    spaces(indent + 2) + f.ts_name + ": "@ + spec_field_schema(f) + ",\n"@
}

/// The field lines of a struct schema.
pub open spec fn spec_field_lines(fields: Seq<FieldModel>, indent: nat) -> Seq<char>
    decreases fields.len(),
{
    if fields.len() == 0 {
        Seq::empty()
    } else {
        spec_field_lines(fields.drop_last(), indent) + spec_field_line(fields.last(), indent)
    }
}

/// The struct schema for a list of fields.
pub open spec fn spec_struct(fields: Seq<FieldModel>, indent: nat) -> Seq<char> {
    if fields.len() == 0 {
        "Schema.Struct({})"@
    } else {
        "Schema.Struct({\n"@ + spec_field_lines(fields, indent) + spaces(indent) + "})"@
    }
}

/// The schema of one enum variant.
pub open spec fn spec_variant(v: EnumVariantModel, indent: nat) -> Seq<char> {
    if v.fields.len() == 0 {
        "Schema.Struct({ _tag: Schema.Literal(\""@ + v.wire_name + "\") })"@
    } else {
        "Schema.Struct({\n"@ + spaces(indent + 2) + "_tag: Schema.Literal(\""@ + v.wire_name
            + "\"),\n"@ + spec_field_lines(v.fields, indent) + spaces(indent) + "})"@
    }
}

/// The variant schemas of an enum.
pub open spec fn spec_variant_schemas(vs: Seq<EnumVariantModel>, indent: nat) -> Seq<Seq<char>> {
    vs.map_values(|v: EnumVariantModel| spec_variant(v, indent))
}

/// The union schema for an enum.
pub open spec fn spec_enum(vs: Seq<EnumVariantModel>, indent: nat) -> Seq<char> {
    if vs.len() == 0 {
        "Schema.Never"@
    } else {
        "Schema.Union(["@ + join(spec_variant_schemas(vs, indent), ", "@) + "])"@
    }
}

/// The schema declaration for an external type.
pub open spec fn spec_external(x: ExternalTypeModel) -> Seq<char> {
    let n = if x.encoded_ts_name == x.decoded_ts_name {
        x.ts_name
    } else {
        x.decoded_ts_name
    };
    "Schema.declare<"@ + n + ">((value): value is "@ + n + " => true)"@
}

/// The schema expressions of tuple items.
pub open spec fn spec_type_ref_schemas(items: Seq<RefModel>) -> Seq<Seq<char>> {
    items.map_values(|t: RefModel| spec_type_ref_schema(t))
}

/// The schema expression for a type shape owned by `owner`.
pub open spec fn spec_type_shape(shape: TypeShapeModel, owner: TypeDefModel, indent: nat) -> Seq<char> {
    match shape {
        TypeShapeModel::Primitive(p) => spec_primitive_schema(p),
        TypeShapeModel::Struct(fields) => spec_struct(fields, indent),
        TypeShapeModel::Enum(vs) => spec_enum(vs, indent),
        TypeShapeModel::Newtype(inner) => spec_type_ref_schema(inner) + ".pipe(Schema.brand(\""@
            + join(owner.rust_path, "::"@) + "\"))"@,
        TypeShapeModel::Tuple(items) => "Schema.Tuple(["@ + join(spec_type_ref_schemas(items), ", "@)
            + "])"@,
        TypeShapeModel::List(item) => "Schema.Array("@ + spec_type_ref_schema(item) + ")"@,
        TypeShapeModel::Record { key, value } => "Schema.Record("@ + spec_type_ref_schema(key)
            + ", "@ + spec_type_ref_schema(value) + ")"@,
        TypeShapeModel::Option(item) => "Schema.NullOr("@ + spec_type_ref_schema(item) + ")"@,
        TypeShapeModel::External(x) => spec_external(x),
    }
}

fn push_field_lines(out: &mut String, fields: &Vec<Field>, indent: usize)
    requires
        indent + 2 <= usize::MAX,
    ensures
        final(out)@ == old(out)@ + spec_field_lines(fields_view(fields@), indent as nat),
{
    let ghost fs = fields_view(fields@);
    for i in 0..fields.len()
        invariant
            indent + 2 <= usize::MAX,
            fs == fields_view(fields@),
            out@ == old(out)@ + spec_field_lines(fs.take(i as int), indent as nat),
    {
        assert(fs.take(i + 1).drop_last() =~= fs.take(i as int));
        let pad = render_indent(indent + 2);
        push_str(out, pad.as_str());
        push_str(out, fields[i].ts_name.as_str());
        push_str(out, ": ");
        let schema = render_field_schema(&fields[i]);
        push_str(out, schema.as_str());
        push_str(out, ",\n");
    }
    assert(fs.take(fields@.len() as int) =~= fs);
}

/// Renders a struct schema.
pub fn render_struct(shape: &StructShape, indent: usize) -> (r: String)
    requires
        indent + 2 <= usize::MAX,
    ensures
        r@ == spec_struct(fields_view(shape.fields@), indent as nat),
{
    if shape.fields.len() == 0 {
        return "Schema.Struct({})".to_owned();
    }
    let mut output = String::new();
    push_str(&mut output, "Schema.Struct({\n");
    push_field_lines(&mut output, &shape.fields, indent);
    let pad = render_indent(indent);
    push_str(&mut output, pad.as_str());
    push_str(&mut output, "})");
    output
}

/// Renders one enum variant schema.
pub fn render_enum_variant(variant: &EnumVariant, indent: usize) -> (r: String)
    requires
        indent + 2 <= usize::MAX,
    ensures
        r@ == spec_variant(variant@, indent as nat),
{
    let mut output = String::new();
    if variant.fields.len() == 0 {
        push_str(&mut output, "Schema.Struct({ _tag: Schema.Literal(\"");
        push_str(&mut output, variant.wire_name.as_str());
        push_str(&mut output, "\") })");
        return output;
    }
    push_str(&mut output, "Schema.Struct({\n");
    let pad = render_indent(indent + 2);
    push_str(&mut output, pad.as_str());
    push_str(&mut output, "_tag: Schema.Literal(\"");
    push_str(&mut output, variant.wire_name.as_str());
    push_str(&mut output, "\"),\n");
    push_field_lines(&mut output, &variant.fields, indent);
    let pad = render_indent(indent);
    push_str(&mut output, pad.as_str());
    push_str(&mut output, "})");
    output
}

/// Renders an enum as a union of tagged structs.
pub fn render_enum(shape: &EnumShape, indent: usize) -> (r: String)
    requires
        indent + 2 <= usize::MAX,
    ensures
        r@ == spec_enum(variants_view(shape.variants@), indent as nat),
{
    if shape.variants.len() == 0 {
        return "Schema.Never".to_owned();
    }
    let ghost vs = variants_view(shape.variants@);
    let mut parts: Vec<String> = Vec::new();
    for i in 0..shape.variants.len()
        invariant
            indent + 2 <= usize::MAX,
            vs == variants_view(shape.variants@),
            parts@.len() == i,
            forall|j: int| 0 <= j < i ==> #[trigger] parts@[j]@ == spec_variant(vs[j], indent as nat),
    {
        let v = render_enum_variant(&shape.variants[i], indent);
        parts.push(v);
    }
    assert(parts@.map_values(|s: String| s@) =~= spec_variant_schemas(vs, indent as nat));
    let joined = join_strings(&parts, ", ");
    let mut output = String::new();
    push_str(&mut output, "Schema.Union([");
    push_str(&mut output, joined.as_str());
    push_str(&mut output, "])");
    output
}

/// Renders the schema declaration for an external type.
pub fn render_external(external: &ExternalType) -> (r: String)
    ensures
        r@ == spec_external(external@),
{
    let same = str_eq(external.encoded_ts_name.as_str(), external.decoded_ts_name.as_str());
    let n = if same {
        external.ts_name.as_str()
    } else {
        external.decoded_ts_name.as_str()
    };
    let mut out = String::new();
    push_str(&mut out, "Schema.declare<");
    push_str(&mut out, n);
    push_str(&mut out, ">((value): value is ");
    push_str(&mut out, n);
    push_str(&mut out, " => true)");
    out
}

/// Renders the schema expression for a type shape.
pub fn render_type_shape(shape: &TypeShape, owner: &TypeDef) -> (r: String)
    ensures
        r@ == spec_type_shape(shape@, owner@, 0),
{
    match shape {
        TypeShape::Primitive(p) => render_primitive(*p).to_owned(),
        TypeShape::Struct(s) => render_struct(s, 0),
        TypeShape::Enum(e) => render_enum(e, 0),
        TypeShape::Newtype(inner) => {
            let mut out = render_type_ref(inner);
            push_str(&mut out, ".pipe(Schema.brand(\"");
            let brand = join_strings(&owner.rust_path, "::");
            push_str(&mut out, brand.as_str());
            push_str(&mut out, "\"))");
            out
        },
        TypeShape::Tuple(items) => {
            let ghost ts = type_refs_view(items@);
            let mut parts: Vec<String> = Vec::new();
            for i in 0..items.len()
                invariant
                    ts == type_refs_view(items@),
                    parts@.len() == i,
                    forall|j: int| 0 <= j < i ==> #[trigger] parts@[j]@ == spec_type_ref_schema(ts[j]),
            {
                let p = render_type_ref(&items[i]);
                parts.push(p);
            }
            assert(parts@.map_values(|s: String| s@) =~= spec_type_ref_schemas(ts));
            let joined = join_strings(&parts, ", ");
            let mut out = String::new();
            push_str(&mut out, "Schema.Tuple([");
            push_str(&mut out, joined.as_str());
            push_str(&mut out, "])");
            out
        },
        TypeShape::List(item) => {
            let mut out = String::new();
            push_str(&mut out, "Schema.Array(");
            let s = render_type_ref(item);
            push_str(&mut out, s.as_str());
            push_str(&mut out, ")");
            out
        },
        TypeShape::Record { key, value } => {
            let mut out = String::new();
            push_str(&mut out, "Schema.Record(");
            let k = render_type_ref(key);
            push_str(&mut out, k.as_str());
            push_str(&mut out, ", ");
            let v = render_type_ref(value);
            push_str(&mut out, v.as_str());
            push_str(&mut out, ")");
            out
        },
        TypeShape::Option(item) => {
            let mut out = String::new();
            push_str(&mut out, "Schema.NullOr(");
            let s = render_type_ref(item);
            push_str(&mut out, s.as_str());
            push_str(&mut out, ")");
            out
        },
        TypeShape::External(x) => render_external(x),
    }
}

} // verus!

verus! {

/// The package banner comment.
pub open spec fn spec_banner(package_name: Seq<char>) -> Seq<char> {
    "// Generated API package for "@ + package_name + "\n"@
}

/// Renders the package banner comment.
pub fn render_package_banner(contract: &crate::ir::ApiContract) -> (r: String)
    ensures
        r@ == spec_banner(contract.package_name@),
{
    let mut out = String::new();
    push_str(&mut out, "// Generated API package for ");
    push_str(&mut out, contract.package_name.as_str());
    push_str(&mut out, "\n");
    out
}

/// The import of Effect names from the runtime compatibility module.
pub open spec fn spec_compat_import(imports: Seq<char>) -> Seq<char> {
    "import { "@ + imports + " } from \""@ + "@rust-ts-integration/effect-runtime/compat"@ + "\"\n"@
}

/// Writes the import of Effect names from the runtime compatibility module.
#[verifier::rlimit(40)]
pub fn write_effect_compat_import(writer: &mut TrackedWriter, imports: &str)
    requires
        old(writer).wf(),
    ensures
        final(writer).wf(),
        final(writer).path@ == old(writer).path@,
        final(writer).contents@ == old(writer).contents@ + spec_compat_import(imports@),
        final(writer).marked(*old(writer), Seq::empty()),
{
    proof {
        crate::gen::writer::lemma_marked_refl(*writer);
    }
    writer.push("import { ");
    writer.push(imports);
    writer.push(" } from \"");
    writer.push("@rust-ts-integration/effect-runtime/compat");
    writer.push("\"\n");
}

broadcast use crate::gen::writer::lemma_marked_push;

/// The marks of a struct's field lines: each field's TypeScript name.
pub open spec fn spec_field_marks(fs: Seq<FieldModel>) -> Seq<MarkSpec>
    decreases fs.len(),
{
    if fs.len() == 0 {
        Seq::empty()
    } else {
        spec_field_marks(fs.drop_last()).push(mark_spec(fs.last().id, "field"@, fs.last().ts_name))
    }
}

/// The marks of an enum variant: its wire tag, then its fields.
pub open spec fn spec_variant_marks(v: EnumVariantModel) -> Seq<MarkSpec> {
    seq![mark_spec(v.id, "enumVariant"@, v.wire_name)] + spec_field_marks(v.fields)
}

/// The marks of an enum's variants, in order.
pub open spec fn spec_enum_marks(vs: Seq<EnumVariantModel>) -> Seq<MarkSpec>
    decreases vs.len(),
{
    if vs.len() == 0 {
        Seq::empty()
    } else {
        spec_enum_marks(vs.drop_last()) + spec_variant_marks(vs.last())
    }
}

/// The marks of a type shape: struct fields and enum variants.
pub open spec fn spec_shape_marks(shape: TypeShapeModel) -> Seq<MarkSpec> {
    match shape {
        TypeShapeModel::Struct(fs) => spec_field_marks(fs),
        TypeShapeModel::Enum(vs) => spec_enum_marks(vs),
        _ => Seq::empty(),
    }
}

/// The marks of a type's declarations: its name in the `export const`,
/// its shape, then its name in the `Type` and `Encoded` aliases.
pub open spec fn spec_type_def_marks(t: TypeDefModel) -> Seq<MarkSpec> {
    seq![mark_spec(t.id, "type"@, t.ts_name)] + spec_shape_marks(t.shape) + seq![
        mark_spec(t.id, "type"@, t.ts_name),
        mark_spec(t.id, "type"@, t.ts_name + "Encoded"@),
    ]
}

/// The marks of a list of type declarations, in order.
pub open spec fn spec_type_defs_marks(ts: Seq<TypeDefModel>) -> Seq<MarkSpec>
    decreases ts.len(),
{
    if ts.len() == 0 {
        Seq::empty()
    } else {
        spec_type_defs_marks(ts.drop_last()) + spec_type_def_marks(ts.last())
    }
}

/// The marks of `schemas.ts`: the declarations of the types in name order.
pub open spec fn spec_schemas_marks(c: crate::ir::ApiContractModel) -> Seq<MarkSpec> {
    spec_type_defs_marks(crate::order::spec_sort(c.types, type_order()))
}

#[verifier::rlimit(40)]
fn write_tracked_field_lines(writer: &mut TrackedWriter, fields: &Vec<Field>, indent: usize)
    requires
        old(writer).wf(),
        indent + 2 <= usize::MAX,
    ensures
        final(writer).wf(),
        final(writer).path@ == old(writer).path@,
        final(writer).contents@ == old(writer).contents@ + spec_field_lines(
            fields_view(fields@),
            indent as nat,
        ),
        final(writer).marked(*old(writer), spec_field_marks(fields_view(fields@))),
{
    let ghost fs = fields_view(fields@);
    let ghost w0 = *writer;
    proof {
        crate::gen::writer::lemma_marked_refl(w0);
        assert(fs.take(0) =~= Seq::<FieldModel>::empty());
    }
    for i in 0..fields.len()
        invariant
            indent + 2 <= usize::MAX,
            fs == fields_view(fields@),
            w0 == *old(writer),
            writer.wf(),
            writer.path@ == old(writer).path@,
            writer.contents@ == old(writer).contents@ + spec_field_lines(fs.take(i as int), indent as nat),
            writer.marked(w0, spec_field_marks(fs.take(i as int))),
    {
        assert(fs.take(i + 1).drop_last() =~= fs.take(i as int));
        let pad = render_indent(indent + 2);
        writer.push(pad.as_str());
        let ghost wa = *writer;
        writer.mark(&fields[i].id, "field", fields[i].ts_name.as_str());
        proof {
            crate::gen::writer::lemma_marked_trans(w0, spec_field_marks(fs.take(i as int)), wa, seq![
                mark_spec(fields@[i as int]@.id, "field"@, fields@[i as int]@.ts_name),
            ], *writer);
        }
        writer.push(": ");
        let schema = render_field_schema(&fields[i]);
        writer.push(schema.as_str());
        writer.push(",\n");
        assert(spec_field_marks(fs.take(i + 1)) =~= spec_field_marks(fs.take(i as int)) + seq![
            mark_spec(fields@[i as int]@.id, "field"@, fields@[i as int]@.ts_name),
        ]);
    }
    assert(fs.take(fields@.len() as int) =~= fs);
}

/// Writes a struct schema, marking each field name.
#[verifier::rlimit(40)]
pub fn write_tracked_struct(writer: &mut TrackedWriter, shape: &StructShape, indent: usize)
    requires
        old(writer).wf(),
        indent + 2 <= usize::MAX,
    ensures
        final(writer).wf(),
        final(writer).path@ == old(writer).path@,
        final(writer).contents@ == old(writer).contents@ + spec_struct(
            fields_view(shape.fields@),
            indent as nat,
        ),
        final(writer).marked(*old(writer), spec_field_marks(fields_view(shape.fields@))),
{
    proof {
        crate::gen::writer::lemma_marked_refl(*writer);
        assert(Seq::<MarkSpec>::empty() + spec_field_marks(fields_view(shape.fields@)) =~= spec_field_marks(
            fields_view(shape.fields@),
        ));
    }
    if shape.fields.len() == 0 {
        writer.push("Schema.Struct({})");
        assert(fields_view(shape.fields@) =~= Seq::<FieldModel>::empty());
        return;
    }
    writer.push("Schema.Struct({\n");
    let ghost wa = *writer;
    write_tracked_field_lines(writer, &shape.fields, indent);
    proof {
        crate::gen::writer::lemma_marked_trans(*old(writer), Seq::empty(), wa, spec_field_marks(fields_view(shape.fields@)), *writer);
    }
    let pad = render_indent(indent);
    writer.push(pad.as_str());
    writer.push("})");
}

/// Writes one enum variant schema, marking the variant tag and field names.
#[verifier::rlimit(40)]
pub fn write_tracked_enum_variant(writer: &mut TrackedWriter, variant: &EnumVariant, indent: usize)
    requires
        old(writer).wf(),
        indent + 2 <= usize::MAX,
    ensures
        final(writer).wf(),
        final(writer).path@ == old(writer).path@,
        final(writer).contents@ == old(writer).contents@ + spec_variant(variant@, indent as nat),
        final(writer).marked(*old(writer), spec_variant_marks(variant@)),
{
    proof {
        crate::gen::writer::lemma_marked_refl(*writer);
    }
    if variant.fields.len() == 0 {
        writer.push("Schema.Struct({ _tag: Schema.Literal(\"");
        let ghost wa = *writer;
        writer.mark(&variant.id, "enumVariant", variant.wire_name.as_str());
        proof {
            crate::gen::writer::lemma_marked_trans(*old(writer), Seq::empty(), wa, seq![mark_spec(variant@.id, "enumVariant"@, variant@.wire_name)], *writer);
        }
        writer.push("\") })");
        assert(variant@.fields =~= Seq::<FieldModel>::empty());
        assert(spec_variant_marks(variant@) =~= Seq::<MarkSpec>::empty() + seq![
            mark_spec(variant@.id, "enumVariant"@, variant@.wire_name),
        ]);
        return;
    }
    writer.push("Schema.Struct({\n");
    let pad = render_indent(indent + 2);
    writer.push(pad.as_str());
    writer.push("_tag: Schema.Literal(\"");
    let ghost wa = *writer;
    writer.mark(&variant.id, "enumVariant", variant.wire_name.as_str());
    proof {
        crate::gen::writer::lemma_marked_trans(*old(writer), Seq::empty(), wa, seq![mark_spec(variant@.id, "enumVariant"@, variant@.wire_name)], *writer);
    }
    writer.push("\"),\n");
    let ghost wb = *writer;
    write_tracked_field_lines(writer, &variant.fields, indent);
    proof {
        crate::gen::writer::lemma_marked_trans(*old(writer), Seq::<MarkSpec>::empty() + seq![mark_spec(variant@.id, "enumVariant"@, variant@.wire_name)], wb, spec_field_marks(variant@.fields), *writer);
    }
    let pad = render_indent(indent);
    writer.push(pad.as_str());
    writer.push("})");
    assert(spec_variant_marks(variant@) =~= Seq::<MarkSpec>::empty() + seq![
        mark_spec(variant@.id, "enumVariant"@, variant@.wire_name),
    ] + spec_field_marks(variant@.fields));
}

/// Writes an enum union schema.
#[verifier::rlimit(40)]
pub fn write_tracked_enum(writer: &mut TrackedWriter, shape: &EnumShape, indent: usize)
    requires
        old(writer).wf(),
        indent + 2 <= usize::MAX,
    ensures
        final(writer).wf(),
        final(writer).path@ == old(writer).path@,
        final(writer).contents@ == old(writer).contents@ + spec_enum(
            variants_view(shape.variants@),
            indent as nat,
        ),
        final(writer).marked(*old(writer), spec_enum_marks(variants_view(shape.variants@))),
{
    let ghost w0 = *writer;
    proof {
        crate::gen::writer::lemma_marked_refl(w0);
    }
    if shape.variants.len() == 0 {
        writer.push("Schema.Never");
        assert(variants_view(shape.variants@) =~= Seq::<EnumVariantModel>::empty());
        return;
    }
    let ghost vs = variants_view(shape.variants@);
    let ghost items = spec_variant_schemas(vs, indent as nat);
    writer.push("Schema.Union([");
    let ghost base = writer.contents@;
    proof {
        assert(vs.take(0) =~= Seq::<EnumVariantModel>::empty());
    }
    for i in 0..shape.variants.len()
        invariant
            indent + 2 <= usize::MAX,
            vs == variants_view(shape.variants@),
            items == spec_variant_schemas(vs, indent as nat),
            w0 == *old(writer),
            writer.wf(),
            writer.path@ == old(writer).path@,
            writer.contents@ == base + join(items.take(i as int), ", "@),
            writer.marked(w0, spec_enum_marks(vs.take(i as int))),
    {
        assert(items.take(i + 1).drop_last() =~= items.take(i as int));
        assert(vs.take(i + 1).drop_last() =~= vs.take(i as int));
        if i > 0 {
            writer.push(", ");
        }
        let ghost wa = *writer;
        write_tracked_enum_variant(writer, &shape.variants[i], indent);
        proof {
            crate::gen::writer::lemma_marked_trans(w0, spec_enum_marks(vs.take(i as int)), wa, spec_variant_marks(shape.variants@[i as int]@), *writer);
        }
        assert(writer.contents@ =~= base + join(items.take(i + 1), ", "@));
        assert(vs.take(i + 1).last() == shape.variants@[i as int]@);
    }
    assert(items.take(shape.variants@.len() as int) =~= items);
    assert(vs.take(shape.variants@.len() as int) =~= vs);
    writer.push("])");
}

/// Writes the schema expression of a type shape.
#[verifier::rlimit(40)]
pub fn write_tracked_type_shape(writer: &mut TrackedWriter, shape: &TypeShape, owner: &TypeDef, indent: usize)
    requires
        old(writer).wf(),
        indent + 2 <= usize::MAX,
    ensures
        final(writer).wf(),
        final(writer).path@ == old(writer).path@,
        final(writer).contents@ == old(writer).contents@ + spec_type_shape(shape@, owner@, indent as nat),
        final(writer).marked(*old(writer), spec_shape_marks(shape@)),
{
    proof {
        crate::gen::writer::lemma_marked_refl(*writer);
    }
    match shape {
        TypeShape::Struct(s) => {
            write_tracked_struct(writer, s, indent);
        },
        TypeShape::Enum(e) => {
            write_tracked_enum(writer, e, indent);
        },
        _ => {
            let text = render_type_shape(shape, owner);
            writer.push(text.as_str());
        },
    }
}

/// The `export const` declaration of one exported type.
pub open spec fn spec_type_const(t: TypeDefModel) -> Seq<char> {
    "export const "@ + t.ts_name + " = "@ + spec_type_shape(t.shape, t, 0)
}

/// The `Type` and `Encoded` aliases of one exported type.
pub open spec fn spec_type_aliases(t: TypeDefModel) -> Seq<char> {
    "\nexport type "@ + t.ts_name + " = Schema.Schema.Type<typeof "@ + t.ts_name + ">\nexport type "@
        + t.ts_name + "Encoded"@ + " = Schema.Codec.Encoded<typeof "@ + t.ts_name + ">\n"@
}

/// The declarations of one exported type.
pub open spec fn spec_type_def(t: TypeDefModel) -> Seq<char> {
    spec_type_const(t) + spec_type_aliases(t)
}

#[verifier::rlimit(40)]
fn write_tracked_type_const(writer: &mut TrackedWriter, type_def: &TypeDef)
    requires
        old(writer).wf(),
    ensures
        final(writer).wf(),
        final(writer).path@ == old(writer).path@,
        final(writer).contents@ == old(writer).contents@ + spec_type_const(type_def@),
        final(writer).marked(
            *old(writer),
            seq![mark_spec(type_def@.id, "type"@, type_def@.ts_name)] + spec_shape_marks(type_def@.shape),
        ),
{
    let ghost start = writer.contents@;
    proof {
        crate::gen::writer::lemma_marked_refl(*writer);
    }
    writer.push("export const ");
    let ghost wa = *writer;
    writer.push_marked(&type_def.id, "type", type_def.ts_name.as_str());
    proof {
        crate::gen::writer::lemma_marked_trans(*old(writer), Seq::empty(), wa, seq![mark_spec(type_def@.id, "type"@, type_def@.ts_name)], *writer);
    }
    writer.push(" = ");
    assert(writer.contents@ =~= start + ("export const "@ + type_def@.ts_name + " = "@));
    let ghost wb = *writer;
    write_tracked_type_shape(writer, &type_def.shape, type_def, 0);
    proof {
        crate::gen::writer::lemma_marked_trans(*old(writer), Seq::<MarkSpec>::empty() + seq![mark_spec(type_def@.id, "type"@, type_def@.ts_name)], wb, spec_shape_marks(type_def@.shape), *writer);
    }
    assert(writer.contents@ =~= start + spec_type_const(type_def@));
    assert(Seq::<MarkSpec>::empty() + seq![mark_spec(type_def@.id, "type"@, type_def@.ts_name)]
        + spec_shape_marks(type_def@.shape) =~= seq![mark_spec(type_def@.id, "type"@, type_def@.ts_name)]
        + spec_shape_marks(type_def@.shape));
}

#[verifier::rlimit(100)]
fn write_tracked_type_aliases(writer: &mut TrackedWriter, type_def: &TypeDef)
    requires
        old(writer).wf(),
    ensures
        final(writer).wf(),
        final(writer).path@ == old(writer).path@,
        final(writer).contents@ == old(writer).contents@ + spec_type_aliases(type_def@),
        final(writer).marked(
            *old(writer),
            seq![
                mark_spec(type_def@.id, "type"@, type_def@.ts_name),
                mark_spec(type_def@.id, "type"@, type_def@.ts_name + "Encoded"@),
            ],
        ),
{
    let ghost start = writer.contents@;
    let ghost name = type_def@.ts_name;
    proof {
        crate::gen::writer::lemma_marked_refl(*writer);
    }
    writer.push("\nexport type ");
    let ghost wa = *writer;
    writer.push_marked(&type_def.id, "type", type_def.ts_name.as_str());
    proof {
        crate::gen::writer::lemma_marked_trans(*old(writer), Seq::empty(), wa, seq![mark_spec(type_def@.id, "type"@, name)], *writer);
    }
    writer.push(" = Schema.Schema.Type<typeof ");
    writer.push(type_def.ts_name.as_str());
    writer.push(">\nexport type ");
    assert(writer.contents@ =~= start + ("\nexport type "@ + name + " = Schema.Schema.Type<typeof "@
        + name + ">\nexport type "@));
    let ghost mid = writer.contents@;
    let mut encoded = type_def.ts_name.clone();
    push_str(&mut encoded, "Encoded");
    let ghost wb = *writer;
    writer.push_marked(&type_def.id, "type", encoded.as_str());
    proof {
        crate::gen::writer::lemma_marked_trans(*old(writer), Seq::<MarkSpec>::empty() + seq![mark_spec(type_def@.id, "type"@, name)], wb, seq![
            mark_spec(type_def@.id, "type"@, encoded@),
        ], *writer);
    }
    writer.push(" = Schema.Codec.Encoded<typeof ");
    writer.push(type_def.ts_name.as_str());
    writer.push(">\n");
    assert(writer.contents@ =~= mid + (name + "Encoded"@ + " = Schema.Codec.Encoded<typeof "@ + name
        + ">\n"@));
    assert(writer.contents@ =~= start + spec_type_aliases(type_def@));
    assert(encoded@ == name + "Encoded"@);
    assert(Seq::<MarkSpec>::empty() + seq![mark_spec(type_def@.id, "type"@, name)] + seq![
        mark_spec(type_def@.id, "type"@, name + "Encoded"@),
    ] =~= seq![mark_spec(type_def@.id, "type"@, name), mark_spec(type_def@.id, "type"@, name + "Encoded"@)]);
}

/// Writes the declarations of one exported type, marking its names.
#[verifier::rlimit(40)]
pub fn write_tracked_type_def(writer: &mut TrackedWriter, type_def: &TypeDef)
    requires
        old(writer).wf(),
    ensures
        final(writer).wf(),
        final(writer).path@ == old(writer).path@,
        final(writer).contents@ == old(writer).contents@ + spec_type_def(type_def@),
        final(writer).marked(*old(writer), spec_type_def_marks(type_def@)),
{
    let ghost start = writer.contents@;
    write_tracked_type_const(writer, type_def);
    let ghost wa = *writer;
    write_tracked_type_aliases(writer, type_def);
    proof {
        crate::gen::writer::lemma_marked_trans(*old(writer), seq![mark_spec(type_def@.id, "type"@, type_def@.ts_name)] + spec_shape_marks(type_def@.shape), wa, seq![
            mark_spec(type_def@.id, "type"@, type_def@.ts_name),
            mark_spec(type_def@.id, "type"@, type_def@.ts_name + "Encoded"@),
        ], *writer);
    }
    assert(writer.contents@ =~= start + spec_type_def(type_def@));
    assert(spec_type_def_marks(type_def@) =~= seq![mark_spec(type_def@.id, "type"@, type_def@.ts_name)]
        + spec_shape_marks(type_def@.shape) + seq![
        mark_spec(type_def@.id, "type"@, type_def@.ts_name),
        mark_spec(type_def@.id, "type"@, type_def@.ts_name + "Encoded"@),
    ]);
}

} // verus!

verus! {

/// Types are ordered by TypeScript name, then by id.
pub open spec fn type_lt(a: TypeDefModel, b: TypeDefModel) -> bool {
    crate::order::seq_lt(a.ts_name, b.ts_name) || (a.ts_name == b.ts_name && crate::order::seq_lt(
        a.id,
        b.id,
    ))
}

/// The order in which types are rendered.
pub open spec fn type_order() -> spec_fn(TypeDefModel, TypeDefModel) -> bool {
    |a: TypeDefModel, b: TypeDefModel| type_lt(a, b)
}

/// Compares two types by TypeScript name, then id.
pub fn type_key_lt(a: &TypeDef, b: &TypeDef) -> (r: bool)
    ensures
        r == type_lt(a@, b@),
{
    crate::order::str_lt(a.ts_name.as_str(), b.ts_name.as_str()) || (str_eq(
        a.ts_name.as_str(),
        b.ts_name.as_str(),
    ) && crate::order::str_lt(a.id.as_str(), b.id.as_str()))
}

/// The indices of `types` in rendering order.
pub fn sorted_type_indices(types: &Vec<TypeDef>) -> (r: Vec<usize>)
    ensures
        r@.len() == types@.len(),
        forall|i: int| 0 <= i < r@.len() ==> #[trigger] r@[i] < types@.len(),
        r@.map_values(|i: usize| crate::ir::type_defs_view(types@)[i as int]) == crate::order::spec_sort(
            crate::ir::type_defs_view(types@),
            type_order(),
        ),
{
    let ghost models = crate::ir::type_defs_view(types@);
    let ghost slt = |a: usize, b: usize| type_lt(models[a as int], models[b as int]);
    let n = types.len();
    let idx = crate::order::index_vec(n);
    let lt = |a: &usize, b: &usize| -> (o: bool)
        requires
            *a < types@.len(),
            *b < types@.len(),
        ensures
            o == type_lt(types@[*a as int]@, types@[*b as int]@),
        { type_key_lt(&types[*a], &types[*b]) };
    assert forall|a: &usize, b: &usize|
        idx@.contains(*a) && idx@.contains(*b) implies #[trigger] lt.requires((a, b)) by {
        let wa = choose|w: int| 0 <= w < idx@.len() && idx@[w] == *a;
        let wb = choose|w: int| 0 <= w < idx@.len() && idx@[w] == *b;
    }
    let r = crate::order::sort_by(idx, lt, Ghost(slt));
    proof {
        crate::order::lemma_sort_elems(crate::order::indices(n as nat), slt);
        assert forall|i: int| 0 <= i < r@.len() implies #[trigger] r@[i] < types@.len() by {
            let w = choose|w: int| 0 <= w < crate::order::indices(n as nat).len() && crate::order::indices(n as nat)[w] == r@[i];
        }
        let f = |i: usize| models[i as int];
        crate::order::lemma_sort_map(crate::order::indices(n as nat), f, slt, type_order());
        assert(crate::order::indices(n as nat).map_values(f) =~= models);
    }
    r
}

proof fn lemma_type_order_strict_total(types: Seq<TypeDefModel>)
    requires
        distinct_type_keys(types),
    ensures
        crate::order::strict_total_on(types, type_order()),
{
    assert forall|a: TypeDefModel| #[trigger] types.contains(a) implies !type_order()(a, a) by {
        crate::order::lemma_seq_lt_strict_total(a.ts_name, a.ts_name, a.ts_name);
        crate::order::lemma_seq_lt_strict_total(a.id, a.id, a.id);
    }
    assert forall|a: TypeDefModel, b: TypeDefModel, c: TypeDefModel|
        types.contains(a) && types.contains(b) && types.contains(c) && #[trigger] type_order()(a, b)
            && #[trigger] type_order()(b, c) implies type_order()(a, c) by {
        crate::order::lemma_seq_lt_strict_total(a.ts_name, b.ts_name, c.ts_name);
        crate::order::lemma_seq_lt_strict_total(a.id, b.id, c.id);
        crate::order::lemma_seq_lt_strict_total(b.ts_name, c.ts_name, a.ts_name);
        crate::order::lemma_seq_lt_strict_total(c.ts_name, a.ts_name, b.ts_name);
    }
    assert forall|a: TypeDefModel, b: TypeDefModel|
        #[trigger] types.contains(a) && #[trigger] types.contains(b) && a != b implies type_order()(a, b)
            || type_order()(b, a) by {
        let i = choose|i: int| 0 <= i < types.len() && types[i] == a;
        let j = choose|j: int| 0 <= j < types.len() && types[j] == b;
        assert(i != j);
        if i < j {
            assert((types[i].ts_name, types[i].id) != (types[j].ts_name, types[j].id));
        } else {
            assert((types[j].ts_name, types[j].id) != (types[i].ts_name, types[i].id));
        }
        crate::order::lemma_seq_lt_strict_total(a.ts_name, b.ts_name, b.ts_name);
        crate::order::lemma_seq_lt_strict_total(a.id, b.id, b.id);
    }
}

/// Whether no two of `types` share both their TypeScript name and their id.
pub open spec fn distinct_type_keys(types: Seq<TypeDefModel>) -> bool {
    forall|i: int, j: int|
        0 <= i < j < types.len() ==> (#[trigger] types[i].ts_name, types[i].id) != (#[trigger] types[j].ts_name, types[j].id)
}

/// Schemas do not depend on the order in which a contract lists its types:
/// contracts of one package that list the same types (no two sharing both
/// TypeScript name and id), each equally often, in any order, give the same
/// `schemas.ts` with the same marks, whose declarations come sorted by
/// TypeScript name, then id.
pub proof fn lemma_schemas_ignore_type_order(c1: crate::ir::ApiContractModel, c2: crate::ir::ApiContractModel)
    requires
        c1.package_name == c2.package_name,
        c1.types.to_multiset() == c2.types.to_multiset(),
        distinct_type_keys(c1.types),
    ensures
        spec_schemas_text(c1) == spec_schemas_text(c2),
        spec_schemas_marks(c1) == spec_schemas_marks(c2),
        crate::order::sorted_by(crate::order::spec_sort(c1.types, type_order()), type_order()),
{
    lemma_type_order_strict_total(c1.types);
    crate::order::lemma_sort_sorted(c1.types, type_order());
    crate::order::lemma_sort_ignores_order(c1.types, c2.types, type_order());
}

/// The declarations of a list of types, each followed by a blank line.
pub open spec fn spec_type_defs(ts: Seq<TypeDefModel>) -> Seq<char>
    decreases ts.len(),
{
    if ts.len() == 0 {
        Seq::empty()
    } else {
        spec_type_defs(ts.drop_last()) + spec_type_def(ts.last()) + "\n"@
    }
}

/// The unfinished contents of `schemas.ts`.
pub open spec fn spec_schemas_text(c: crate::ir::ApiContractModel) -> Seq<char> {
    spec_banner(c.package_name) + spec_compat_import("Schema"@) + "\n"@ + spec_type_defs(
        crate::order::spec_sort(c.types, type_order()),
    )
}

/// Writes `schemas.ts`: every exported type, in name order.
pub fn render_tracked_schemas(contract: &crate::ir::ApiContract) -> (r: crate::gen::writer::TrackedFile)
    ensures
        r.file.path@ == "schemas.ts"@,
        r.file.contents@ == crate::gen::text::spec_trim_blank_lines(spec_schemas_text(contract@)),
        crate::gen::writer::file_marks(
            crate::gen::writer::marks_view(r.marks@),
            r.file.path@,
            r.file.contents@,
            spec_schemas_marks(contract@),
        ),
{
    let mut writer = TrackedWriter::new("schemas.ts");
    let ghost w0 = writer;
    proof {
        crate::gen::writer::lemma_marked_refl(w0);
    }
    let banner = render_package_banner(contract);
    writer.push(banner.as_str());
    let ghost wi = writer;
    write_effect_compat_import(&mut writer, "Schema");
    proof {
        crate::gen::writer::lemma_marked_trans(w0, Seq::empty(), wi, Seq::empty(), writer);
        assert(Seq::<MarkSpec>::empty() + Seq::<MarkSpec>::empty() =~= Seq::<MarkSpec>::empty());
    }
    writer.push("\n");
    let order = sorted_type_indices(&contract.types);
    let ghost sorted = crate::order::spec_sort(contract@.types, type_order());
    let ghost base = writer.contents@;
    assert(sorted.take(0) =~= Seq::<TypeDefModel>::empty());
    for k in 0..order.len()
        invariant
            order@.len() == contract.types@.len(),
            forall|i: int| 0 <= i < order@.len() ==> #[trigger] order@[i] < contract.types@.len(),
            order@.map_values(|i: usize| crate::ir::type_defs_view(contract.types@)[i as int]) == sorted,
            writer.wf(),
            writer.path@ == "schemas.ts"@,
            writer.contents@ == base + spec_type_defs(sorted.take(k as int)),
            writer.marked(w0, spec_type_defs_marks(sorted.take(k as int))),
            w0.contents@.len() == 0,
            w0.marks@.len() == 0,
    {
        assert(sorted.take(k + 1).drop_last() =~= sorted.take(k as int));
        let i = order[k];
        assert(sorted[k as int] == contract.types@[i as int]@);
        let ghost wa = writer;
        write_tracked_type_def(&mut writer, &contract.types[i]);
        proof {
            crate::gen::writer::lemma_marked_trans(w0, spec_type_defs_marks(sorted.take(k as int)), wa, spec_type_def_marks(sorted[k as int]), writer);
        }
        writer.push("\n");
    }
    assert(sorted.take(order@.len() as int) =~= sorted);
    let ghost wf = writer;
    let r = writer.into_tracked_file();
    proof {
        crate::gen::writer::lemma_file_marks(wf, w0, spec_schemas_marks(contract@), r);
    }
    r
}

/// Renders generated Effect Schema declarations for every exported API type.
pub fn render_schemas(contract: &crate::ir::ApiContract) -> (r: String)
    ensures
        r@ == crate::gen::text::spec_trim_blank_lines(spec_schemas_text(contract@)),
{
    render_tracked_schemas(contract).file.contents
}

} // verus!
