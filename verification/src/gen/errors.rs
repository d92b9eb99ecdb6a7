//! `errors.ts`: the schema-backed domain errors of the contract and the
//! generated client errors.

use vstd::prelude::*;
use crate::gen::schemas::{render_field_schema, spec_field_schema};
use crate::gen::text::{
    render_indent, render_property_key, spaces, spec_property_key, spec_ts_string, ts_string,
};
use crate::ir::{
    ErrorDef, ErrorDefModel, ErrorVariant, ErrorVariantModel, FieldModel, SourceRange,
    SourceRangeModel, SymbolId, spec_id_of,
};
use crate::gen::schemas::{
    primitive_from_type_ref, render_package_banner, spec_banner, spec_compat_import,
    spec_primitive_from_name, write_effect_compat_import,
};
use crate::gen::text::spec_trim_blank_lines;
use crate::gen::writer::{mark_spec, MarkSpec, TrackedFile, TrackedWriter, lemma_marked_refl, lemma_marked_trans};
use crate::ir::{ApiContract, ApiContractModel, error_defs_view, strings_view};
use crate::order::{
    index_vec, indices, lemma_sort_elems, lemma_sort_map, seq_lt, sort_by, sorted_unique_strings,
    spec_sort, spec_sorted_set, str_eq, str_lt,
};
use crate::text::{
    join, join_strings, chars_of, concat_map, decimal, decimal_string, lemma_concat_map_step, lemma_take_all, push_char,
    push_str,
};

verus! {

/// A TypeScript name without a trailing `Error`.
pub open spec fn spec_strip_error_suffix(n: Seq<char>) -> Seq<char> {
    if n.len() >= 5 && n.subrange(n.len() - 5, n.len() as int) == "Error"@ {
        n.subrange(0, n.len() - 5)
    } else {
        n
    }
}

/// The generated class name of an error variant.
pub open spec fn spec_variant_class_name(e: ErrorDefModel, v: ErrorVariantModel) -> Seq<char> {
    spec_strip_error_suffix(e.ts_name) + v.rust_name
}

/// The class name of an error variant: the error's TypeScript name without
/// an `Error` suffix, followed by the variant's Rust name.
pub fn error_variant_class_name(error: &ErrorDef, variant: &ErrorVariant) -> (r: String)
    ensures
        r@ == spec_variant_class_name(error@, variant@),
{
    let chars = chars_of(error.ts_name.as_str());
    let n = chars.len();
    proof {
        reveal_strlit("Error");
    }
    let strip = n >= 5 && chars[n - 5] == 'E' && chars[n - 4] == 'r' && chars[n - 3] == 'r'
        && chars[n - 2] == 'o' && chars[n - 1] == 'r';
    let keep = if strip {
        n - 5
    } else {
        n
    };
    proof {
        if n >= 5 {
            let tail = chars@.subrange(n - 5, n as int);
            if strip {
                assert(tail =~= "Error"@);
            } else {
                assert(tail != "Error"@) by {
                    if tail == "Error"@ {
                        assert(tail[0] == 'E' && tail[1] == 'r' && tail[2] == 'r' && tail[3] == 'o'
                            && tail[4] == 'r');
                    }
                }
            }
        }
    }
    let mut out = String::new();
    for i in 0..keep
        invariant
            keep <= chars@.len(),
            out@ == chars@.subrange(0, i as int),
    {
        push_char(&mut out, chars[i]);
        assert(out@ =~= chars@.subrange(0, i + 1));
    }
    if !strip {
        assert(chars@.subrange(0, n as int) =~= chars@);
    }
    push_str(&mut out, variant.rust_name.as_str());
    out
}

/// The id under which an error variant's tag is marked.
pub open spec fn spec_error_tag_id(v: ErrorVariantModel) -> Seq<char> {
    spec_id_of("error_tag"@, seq![v.id])
}

/// The symbol id of an error variant's tag.
pub fn error_tag_symbol_id(variant: &ErrorVariant) -> (r: String)
    ensures
        r@ == spec_error_tag_id(variant@),
{
    let parts: [&str; 1] = [variant.id.as_str()];
    assert(crate::ir::strs_view(parts@) =~= seq![variant@.id]);
    SymbolId::from_parts("error_tag", parts.as_slice()).as_str().to_owned()
}

/// A source range as a TypeScript object literal indented by `indent`.
pub open spec fn spec_source_range(s: SourceRangeModel, indent: nat) -> Seq<char> {
    let i = spaces(indent);
    "{\n"@ + i + "  file: "@ + spec_ts_string(s.file) + ",\n"@ + i + "  startLine: "@ + decimal(
        s.start_line as nat,
    ) + ",\n"@ + i + "  startColumn: "@ + decimal(s.start_column as nat) + ",\n"@ + i
        + "  endLine: "@ + decimal(s.end_line as nat) + ",\n"@ + i + "  endColumn: "@ + decimal(
        s.end_column as nat,
    ) + ",\n"@ + i + "}"@
}

/// Renders a source range as a TypeScript object literal.
pub fn render_source_range(source: &SourceRange, indent: usize) -> (r: String)
    ensures
        r@ == spec_source_range(source@, indent as nat),
{
    let pad = render_indent(indent);
    let mut out = String::new();
    push_str(&mut out, "{\n");
    push_str(&mut out, pad.as_str());
    push_str(&mut out, "  file: ");
    let file = ts_string(source.file.as_str());
    push_str(&mut out, file.as_str());
    push_str(&mut out, ",\n");
    push_str(&mut out, pad.as_str());
    push_str(&mut out, "  startLine: ");
    push_str(&mut out, decimal_string(source.start_line as u64).as_str());
    push_str(&mut out, ",\n");
    let ghost mid = out@;
    push_str(&mut out, pad.as_str());
    push_str(&mut out, "  startColumn: ");
    push_str(&mut out, decimal_string(source.start_column as u64).as_str());
    push_str(&mut out, ",\n");
    push_str(&mut out, pad.as_str());
    push_str(&mut out, "  endLine: ");
    push_str(&mut out, decimal_string(source.end_line as u64).as_str());
    push_str(&mut out, ",\n");
    push_str(&mut out, pad.as_str());
    push_str(&mut out, "  endColumn: ");
    push_str(&mut out, decimal_string(source.end_column as u64).as_str());
    push_str(&mut out, ",\n");
    push_str(&mut out, pad.as_str());
    push_str(&mut out, "}");
    out
}

/// One `key: schema,` field line of a tagged error class.
pub open spec fn spec_class_field_line(key: Seq<char>, schema: Seq<char>) -> Seq<char> {
    "    "@ + spec_property_key(key) + ": "@ + schema + ",\n"@
}

/// The field block of a tagged error class.
pub open spec fn spec_class_fields(fields: Seq<(Seq<char>, Seq<char>)>) -> Seq<char> {
    if fields.len() == 0 {
        "  {}\n"@
    } else {
        "  {\n"@ + concat_map(
            fields,
            |p: (Seq<char>, Seq<char>)| spec_class_field_line(p.0, p.1),
        ) + "  }\n"@
    }
}

/// A tagged error class declaration.
pub open spec fn spec_tagged_class(
    class_name: Seq<char>,
    tag: Seq<char>,
    fields: Seq<(Seq<char>, Seq<char>)>,
) -> Seq<char> {
    "export class "@ + class_name + " extends Schema.TaggedErrorClass<"@ + class_name + ">()(\n  "@
        + spec_ts_string(tag) + ",\n"@ + spec_class_fields(fields) + ") {}\n"@
}

/// The views of a list of `(name, schema)` pairs.
pub open spec fn pairs_view(fields: Seq<(&str, &str)>) -> Seq<(Seq<char>, Seq<char>)> {
    fields.map_values(|p: (&str, &str)| (p.0@, p.1@))
}

/// Renders a tagged error class with the given `(name, schema)` fields.
pub fn render_tagged_error_class(class_name: &str, tag: &str, fields: &[(&str, &str)]) -> (r: String)
    ensures
        r@ == spec_tagged_class(class_name@, tag@, pairs_view(fields@)),
{
    let ghost fs = pairs_view(fields@);
    let ghost line = |p: (Seq<char>, Seq<char>)| spec_class_field_line(p.0, p.1);
    let mut out = String::new();
    push_str(&mut out, "export class ");
    push_str(&mut out, class_name);
    push_str(&mut out, " extends Schema.TaggedErrorClass<");
    push_str(&mut out, class_name);
    push_str(&mut out, ">()(\n  ");
    let t = ts_string(tag);
    push_str(&mut out, t.as_str());
    push_str(&mut out, ",\n");
    let ghost head = out@;
    if fields.len() == 0 {
        push_str(&mut out, "  {}\n");
    } else {
        push_str(&mut out, "  {\n");
        let ghost base = out@;
        for i in 0..fields.len()
            invariant
                fs == pairs_view(fields@),
                line == (|p: (Seq<char>, Seq<char>)| spec_class_field_line(p.0, p.1)),
                out@ == base + concat_map(fs.take(i as int), line),
        {
            proof {
                crate::text::lemma_concat_map_step(fs, line, i as int);
            }
            let (name, schema) = fields[i];
            push_str(&mut out, "    ");
            let key = render_property_key(name);
            push_str(&mut out, key.as_str());
            push_str(&mut out, ": ");
            push_str(&mut out, schema);
            push_str(&mut out, ",\n");
            assert(out@ =~= base + concat_map(fs.take(i + 1), line));
        }
        proof {
            crate::text::lemma_take_all(fs);
        }
        push_str(&mut out, "  }\n");
    }
    assert(out@ =~= head + spec_class_fields(fs));
    push_str(&mut out, ") {}\n");
    out
}

/// The generated client errors and their union type.
pub open spec fn spec_client_errors() -> Seq<char> {
    spec_tagged_class(
        "NetworkError"@,
        "NetworkError"@,
        seq![("message"@, "Schema.String"@), ("cause"@, "Schema.optionalKey(Schema.Unknown)"@)],
    ) + "\n"@ + spec_tagged_class(
        "TimeoutError"@,
        "TimeoutError"@,
        seq![("message"@, "Schema.String"@), ("timeoutMs"@, "Schema.optionalKey(Schema.Number)"@)],
    ) + "\n"@ + spec_tagged_class(
        "EncodeError"@,
        "EncodeError"@,
        seq![("message"@, "Schema.String"@), ("cause"@, "Schema.optionalKey(Schema.Unknown)"@)],
    ) + "\n"@ + spec_tagged_class(
        "DecodeError"@,
        "DecodeError"@,
        seq![("message"@, "Schema.String"@), ("cause"@, "Schema.optionalKey(Schema.Unknown)"@)],
    ) + "\n"@ + spec_tagged_class(
        "UnexpectedStatusError"@,
        "UnexpectedStatusError"@,
        seq![
            ("message"@, "Schema.String"@),
            ("status"@, "Schema.Number"@),
            ("body"@, "Schema.optionalKey(Schema.Unknown)"@),
        ],
    ) + "\n"@ + spec_tagged_class(
        "RemoteProtocolError"@,
        "RemoteProtocolError"@,
        seq![("message"@, "Schema.String"@), ("body"@, "Schema.optionalKey(Schema.Unknown)"@)],
    ) + "\n"@ + "export type ApiClientError =\n"@
        + "  | NetworkError\n  | TimeoutError\n  | EncodeError\n  | DecodeError\n  | UnexpectedStatusError\n  | RemoteProtocolError"@
        + "\n"@
}

fn push_client_error(out: &mut String, class_name: &str, fields: &[(&str, &str)])
    ensures
        final(out)@ == old(out)@ + spec_tagged_class(class_name@, class_name@, pairs_view(fields@))
            + "\n"@,
{
    let class = render_tagged_error_class(class_name, class_name, fields);
    push_str(out, class.as_str());
    push_str(out, "\n");
}

/// Renders the generated client error classes and their union.
pub fn render_client_errors() -> (r: String)
    ensures
        r@ == spec_client_errors(),
{
    let mut out = String::new();
    let network: [(&str, &str); 2] = [
        ("message", "Schema.String"),
        ("cause", "Schema.optionalKey(Schema.Unknown)"),
    ];
    assert(pairs_view(network@) =~= seq![
        ("message"@, "Schema.String"@),
        ("cause"@, "Schema.optionalKey(Schema.Unknown)"@),
    ]);
    push_client_error(&mut out, "NetworkError", network.as_slice());
    let timeout: [(&str, &str); 2] = [
        ("message", "Schema.String"),
        ("timeoutMs", "Schema.optionalKey(Schema.Number)"),
    ];
    assert(pairs_view(timeout@) =~= seq![
        ("message"@, "Schema.String"@),
        ("timeoutMs"@, "Schema.optionalKey(Schema.Number)"@),
    ]);
    push_client_error(&mut out, "TimeoutError", timeout.as_slice());
    push_client_error(&mut out, "EncodeError", network.as_slice());
    push_client_error(&mut out, "DecodeError", network.as_slice());
    let unexpected: [(&str, &str); 3] = [
        ("message", "Schema.String"),
        ("status", "Schema.Number"),
        ("body", "Schema.optionalKey(Schema.Unknown)"),
    ];
    assert(pairs_view(unexpected@) =~= seq![
        ("message"@, "Schema.String"@),
        ("status"@, "Schema.Number"@),
        ("body"@, "Schema.optionalKey(Schema.Unknown)"@),
    ]);
    push_client_error(&mut out, "UnexpectedStatusError", unexpected.as_slice());
    let protocol: [(&str, &str); 2] = [
        ("message", "Schema.String"),
        ("body", "Schema.optionalKey(Schema.Unknown)"),
    ];
    assert(pairs_view(protocol@) =~= seq![
        ("message"@, "Schema.String"@),
        ("body"@, "Schema.optionalKey(Schema.Unknown)"@),
    ]);
    push_client_error(&mut out, "RemoteProtocolError", protocol.as_slice());
    push_str(&mut out, "export type ApiClientError =\n");
    push_str(
        &mut out,
        "  | NetworkError\n  | TimeoutError\n  | EncodeError\n  | DecodeError\n  | UnexpectedStatusError\n  | RemoteProtocolError",
    );
    push_str(&mut out, "\n");
    out
}

/// One field line of a domain error class.
pub open spec fn spec_error_field_line(f: FieldModel) -> Seq<char> {
    "    "@ + spec_property_key(f.ts_name) + ": "@ + spec_field_schema(f) + ",\n"@
}

/// The field block of a domain error class.
pub open spec fn spec_error_fields(fs: Seq<FieldModel>) -> Seq<char> {
    if fs.len() == 0 {
        "  {}\n"@
    } else {
        "  {\n"@ + concat_map(fs, |f: FieldModel| spec_error_field_line(f)) + "  }\n"@
    }
}

/// The class declaration of one error variant.
pub open spec fn spec_error_variant(e: ErrorDefModel, v: ErrorVariantModel) -> Seq<char> {
    let cls = spec_variant_class_name(e, v);
    "export class "@ + cls + " extends Schema.TaggedErrorClass<"@ + cls + ">()(\n  "@
        + spec_ts_string(v.tag) + ",\n"@ + spec_error_fields(v.fields) + ") {}\n"@
}

broadcast use crate::gen::writer::lemma_marked_push;

/// The marks of an error class's fields: each field's property key.
pub open spec fn spec_error_field_marks(fs: Seq<FieldModel>) -> Seq<MarkSpec>
    decreases fs.len(),
{
    if fs.len() == 0 {
        Seq::empty()
    } else {
        spec_error_field_marks(fs.drop_last()).push(
            mark_spec(fs.last().id, "errorField"@, spec_property_key(fs.last().ts_name)),
        )
    }
}

/// The marks of one variant's class: its class name, its tag, its fields.
pub open spec fn spec_error_variant_marks(e: ErrorDefModel, v: ErrorVariantModel) -> Seq<MarkSpec> {
    seq![
        mark_spec(v.id, "errorVariant"@, spec_variant_class_name(e, v)),
        mark_spec(spec_error_tag_id(v), "errorTag"@, spec_ts_string(v.tag)),
    ] + spec_error_field_marks(v.fields)
}

/// The mark of one variant's line in a metadata object.
pub open spec fn spec_metadata_line_marks(kind: nat, e: ErrorDefModel, v: ErrorVariantModel) -> Seq<MarkSpec> {
    if kind == 1 {
        seq![mark_spec(spec_error_tag_id(v), "errorTag"@, spec_ts_string(v.tag))]
    } else if kind == 2 {
        seq![mark_spec(v.id, "errorVariant"@, spec_variant_class_name(e, v))]
    } else {
        seq![mark_spec(spec_error_tag_id(v), "errorTag"@, spec_property_key(v.tag))]
    }
}

/// The marks of the variant lines of a metadata object, in order.
pub open spec fn spec_metadata_lines_marks(kind: nat, e: ErrorDefModel, vs: Seq<ErrorVariantModel>) -> Seq<MarkSpec>
    decreases vs.len(),
{
    if vs.len() == 0 {
        Seq::empty()
    } else {
        spec_metadata_lines_marks(kind, e, vs.drop_last()) + spec_metadata_line_marks(kind, e, vs.last())
    }
}

/// The marks of a metadata object: its name, then its variant lines.
pub open spec fn spec_metadata_marks(kind: nat, e: ErrorDefModel) -> Seq<MarkSpec> {
    seq![mark_spec(e.id, "error"@, e.ts_name + spec_metadata_suffix(kind))] + spec_metadata_lines_marks(
        kind,
        e,
        e.variants,
    )
}

/// The marks of an error's variant classes, in order.
pub open spec fn spec_error_classes_marks(e: ErrorDefModel, vs: Seq<ErrorVariantModel>) -> Seq<MarkSpec>
    decreases vs.len(),
{
    if vs.len() == 0 {
        Seq::empty()
    } else {
        spec_error_classes_marks(e, vs.drop_last()) + spec_error_variant_marks(e, vs.last())
    }
}

/// The marks of an error's union members, in order.
pub open spec fn spec_error_union_marks(e: ErrorDefModel, vs: Seq<ErrorVariantModel>) -> Seq<MarkSpec>
    decreases vs.len(),
{
    if vs.len() == 0 {
        Seq::empty()
    } else {
        spec_error_union_marks(e, vs.drop_last()).push(
            mark_spec(vs.last().id, "errorVariant"@, spec_variant_class_name(e, vs.last())),
        )
    }
}

/// The marks of an error's classes and union type.
pub open spec fn spec_error_head_marks(e: ErrorDefModel) -> Seq<MarkSpec> {
    spec_error_classes_marks(e, e.variants) + seq![mark_spec(e.id, "error"@, e.ts_name)]
        + spec_error_union_marks(e, e.variants)
}

/// The marks of an error's four metadata objects.
pub open spec fn spec_error_metadata_marks(e: ErrorDefModel) -> Seq<MarkSpec> {
    spec_metadata_marks(0, e) + spec_metadata_marks(1, e) + spec_metadata_marks(2, e) + spec_metadata_marks(
        3,
        e,
    )
}

/// The marks of everything generated for one domain error.
pub open spec fn spec_error_def_marks(e: ErrorDefModel) -> Seq<MarkSpec> {
    spec_error_head_marks(e) + spec_error_metadata_marks(e)
}

/// The marks of a list of domain errors, in order.
pub open spec fn spec_error_list_marks(es: Seq<ErrorDefModel>) -> Seq<MarkSpec>
    decreases es.len(),
{
    if es.len() == 0 {
        Seq::empty()
    } else {
        spec_error_list_marks(es.drop_last()) + spec_error_def_marks(es.last())
    }
}

/// The marks of `errors.ts`: the domain errors in name order.
pub open spec fn spec_errors_marks(c: ApiContractModel) -> Seq<MarkSpec> {
    spec_error_list_marks(spec_sort(c.errors, error_order()))
}

#[verifier::rlimit(40)]
fn write_error_fields(writer: &mut TrackedWriter, fields: &Vec<crate::ir::Field>)
    requires
        old(writer).wf(),
    ensures
        final(writer).grew(old(writer), spec_error_fields(crate::ir::fields_view(fields@))),
        final(writer).marked(*old(writer), spec_error_field_marks(crate::ir::fields_view(fields@))),
{
    let ghost fs = crate::ir::fields_view(fields@);
    let ghost line = |f: FieldModel| spec_error_field_line(f);
    let ghost w0 = *writer;
    proof {
        lemma_marked_refl(w0);
        assert(fs.take(0) =~= Seq::<FieldModel>::empty());
    }
    if fields.len() == 0 {
        writer.push("  {}\n");
        assert(fs =~= Seq::<FieldModel>::empty());
        return;
    }
    let ghost start = writer.contents@;
    writer.push("  {\n");
    let ghost base = writer.contents@;
    for i in 0..fields.len()
        invariant
            fs == crate::ir::fields_view(fields@),
            line == (|f: FieldModel| spec_error_field_line(f)),
            writer.wf(),
            writer.path@ == old(writer).path@,
            writer.contents@ == base + concat_map(fs.take(i as int), line),
            w0 == *old(writer),
            writer.marked(w0, spec_error_field_marks(fs.take(i as int))),
    {
        proof {
            lemma_concat_map_step(fs, line, i as int);
        }
        let field = &fields[i];
        let schema = render_field_schema(field);
        let ghost before = writer.contents@;
        writer.push("    ");
        let key = render_property_key(field.ts_name.as_str());
        let ghost wa = *writer;
        writer.push_marked(&field.id, "errorField", key.as_str());
        proof {
            lemma_marked_trans(w0, spec_error_field_marks(fs.take(i as int)), wa, seq![
                mark_spec(field@.id, "errorField"@, spec_property_key(field@.ts_name)),
            ], *writer);
            assert(fs.take(i + 1).drop_last() =~= fs.take(i as int));
            assert(fs.take(i + 1).last() == field@);
            assert(spec_error_field_marks(fs.take(i + 1)) =~= spec_error_field_marks(fs.take(i as int)) + seq![
                mark_spec(field@.id, "errorField"@, spec_property_key(field@.ts_name)),
            ]);
        }
        writer.push(": ");
        writer.push(schema.as_str());
        writer.push(",\n");
        assert(writer.contents@ =~= before + spec_error_field_line(fs[i as int]));
    }
    proof {
        lemma_take_all(fs);
    }
    assert(fs.take(fields@.len() as int) =~= fs);
    writer.push("  }\n");
    assert(writer.contents@ =~= start + spec_error_fields(fs));
}

/// Writes the class declaration of one error variant, marking its name,
/// tag and fields.
#[verifier::rlimit(40)]
pub fn write_tracked_error_variant(writer: &mut TrackedWriter, error: &ErrorDef, variant: &ErrorVariant)
    requires
        old(writer).wf(),
    ensures
        final(writer).grew(old(writer), spec_error_variant(error@, variant@)),
        final(writer).marked(*old(writer), spec_error_variant_marks(error@, variant@)),
{
    let ghost start = writer.contents@;
    proof {
        lemma_marked_refl(*writer);
    }
    let class_name = error_variant_class_name(error, variant);
    writer.push("export class ");
    let ghost wa = *writer;
    writer.push_marked(&variant.id, "errorVariant", class_name.as_str());
    let ghost m1 = seq![mark_spec(variant@.id, "errorVariant"@, spec_variant_class_name(error@, variant@))];
    proof {
        lemma_marked_trans(*old(writer), Seq::empty(), wa, m1, *writer);
    }
    writer.push(" extends Schema.TaggedErrorClass<");
    writer.push(class_name.as_str());
    writer.push(">()(\n  ");
    let tag = ts_string(variant.tag.as_str());
    let ghost wb = *writer;
    writer.push_marked_synthetic(error_tag_symbol_id(variant), "errorTag", tag.as_str());
    let ghost m2 = seq![mark_spec(spec_error_tag_id(variant@), "errorTag"@, spec_ts_string(variant@.tag))];
    proof {
        lemma_marked_trans(*old(writer), Seq::<MarkSpec>::empty() + m1, wb, m2, *writer);
    }
    writer.push(",\n");
    let ghost mid = writer.contents@;
    let ghost wc = *writer;
    write_error_fields(writer, &variant.fields);
    proof {
        lemma_marked_trans(*old(writer), Seq::<MarkSpec>::empty() + m1 + m2, wc, spec_error_field_marks(variant@.fields), *writer);
        assert(Seq::<MarkSpec>::empty() + m1 + m2 + spec_error_field_marks(variant@.fields) =~= spec_error_variant_marks(error@, variant@));
    }
    writer.push(") {}\n");
    assert(writer.contents@ =~= start + spec_error_variant(error@, variant@));
}

/// `tag: status,` for one variant.
pub open spec fn spec_status_line(v: ErrorVariantModel) -> Seq<char> {
    "  "@ + spec_property_key(v.tag) + ": "@ + decimal(v.status as nat) + ",\n"@
}

/// `status: "tag",` for one variant.
pub open spec fn spec_status_code_line(v: ErrorVariantModel) -> Seq<char> {
    "  "@ + decimal(v.status as nat) + ": "@ + spec_ts_string(v.tag) + ",\n"@
}

/// `status: Class,` for one variant.
pub open spec fn spec_schema_status_line(e: ErrorDefModel, v: ErrorVariantModel) -> Seq<char> {
    "  "@ + decimal(v.status as nat) + ": "@ + spec_variant_class_name(e, v) + ",\n"@
}

/// The symbol metadata entry of one variant.
pub open spec fn spec_symbol_line(v: ErrorVariantModel) -> Seq<char> {
    "  "@ + spec_property_key(v.tag) + ": {\n"@ + "    symbolId: "@ + spec_ts_string(v.id)
        + ",\n    rustName: "@ + spec_ts_string(v.rust_name) + ",\n    source: "@
        + spec_source_range(v.source, 4) + ",\n  },\n"@
}

/// The metadata line of each kind for one variant.
pub open spec fn spec_metadata_line(kind: nat, e: ErrorDefModel, v: ErrorVariantModel) -> Seq<char> {
    if kind == 0 {
        spec_status_line(v)
    } else if kind == 1 {
        spec_status_code_line(v)
    } else if kind == 2 {
        spec_schema_status_line(e, v)
    } else {
        spec_symbol_line(v)
    }
}

/// The name suffix of each metadata object.
pub open spec fn spec_metadata_suffix(kind: nat) -> Seq<char> {
    if kind == 0 {
        "Status"@
    } else if kind == 1 {
        "StatusByCode"@
    } else if kind == 2 {
        "SchemaByStatus"@
    } else {
        "Symbols"@
    }
}

/// A metadata object of an error: status by tag, tag by status, class by
/// status, or the symbol metadata of each tag.
#[verifier::opaque]
pub open spec fn spec_metadata(kind: nat, e: ErrorDefModel) -> Seq<char> {
    "export const "@ + e.ts_name + spec_metadata_suffix(kind) + " = {\n"@ + concat_map(
        e.variants,
        |v: ErrorVariantModel| spec_metadata_line(kind, e, v),
    ) + "} as const\n"@
}

#[verifier::rlimit(40)]
fn write_status_line(writer: &mut TrackedWriter, variant: &ErrorVariant)
    requires
        old(writer).wf(),
    ensures
        final(writer).grew(old(writer), spec_status_line(variant@)),
        final(writer).marked(
            *old(writer),
            seq![mark_spec(spec_error_tag_id(variant@), "errorTag"@, spec_property_key(variant@.tag))],
        ),
{
    let ghost start = writer.contents@;
    proof {
        lemma_marked_refl(*writer);
    }
    let status = decimal_string(variant.status.0 as u64);
    let key = render_property_key(variant.tag.as_str());
    let tag_id = SymbolId::new(error_tag_symbol_id(variant));
    writer.push("  ");
    let ghost wa = *writer;
    writer.push_marked(&tag_id, "errorTag", key.as_str());
    proof {
        lemma_marked_trans(*old(writer), Seq::empty(), wa, seq![mark_spec(tag_id@, "errorTag"@, key@)], *writer);
        assert(Seq::<MarkSpec>::empty() + seq![mark_spec(tag_id@, "errorTag"@, key@)] =~= seq![
            mark_spec(spec_error_tag_id(variant@), "errorTag"@, spec_property_key(variant@.tag)),
        ]);
    }
    writer.push(": ");
    writer.push(status.as_str());
    writer.push(",\n");
    assert(writer.contents@ =~= start + spec_status_line(variant@));
}

#[verifier::rlimit(40)]
fn write_status_code_line(writer: &mut TrackedWriter, variant: &ErrorVariant)
    requires
        old(writer).wf(),
    ensures
        final(writer).grew(old(writer), spec_status_code_line(variant@)),
        final(writer).marked(
            *old(writer),
            seq![mark_spec(spec_error_tag_id(variant@), "errorTag"@, spec_ts_string(variant@.tag))],
        ),
{
    let ghost start = writer.contents@;
    proof {
        lemma_marked_refl(*writer);
    }
    let status = decimal_string(variant.status.0 as u64);
    let tag = ts_string(variant.tag.as_str());
    writer.push("  ");
    writer.push(status.as_str());
    writer.push(": ");
    let ghost wa = *writer;
    writer.push_marked_synthetic(error_tag_symbol_id(variant), "errorTag", tag.as_str());
    proof {
        lemma_marked_trans(*old(writer), Seq::empty(), wa, seq![
            mark_spec(spec_error_tag_id(variant@), "errorTag"@, spec_ts_string(variant@.tag)),
        ], *writer);
        assert(Seq::<MarkSpec>::empty() + seq![
            mark_spec(spec_error_tag_id(variant@), "errorTag"@, spec_ts_string(variant@.tag)),
        ] =~= seq![mark_spec(spec_error_tag_id(variant@), "errorTag"@, spec_ts_string(variant@.tag))]);
    }
    writer.push(",\n");
    assert(writer.contents@ =~= start + spec_status_code_line(variant@));
}

#[verifier::rlimit(40)]
fn write_schema_status_line(writer: &mut TrackedWriter, error: &ErrorDef, variant: &ErrorVariant)
    requires
        old(writer).wf(),
    ensures
        final(writer).grew(old(writer), spec_schema_status_line(error@, variant@)),
        final(writer).marked(
            *old(writer),
            seq![mark_spec(variant@.id, "errorVariant"@, spec_variant_class_name(error@, variant@))],
        ),
{
    let ghost start = writer.contents@;
    proof {
        lemma_marked_refl(*writer);
    }
    let status = decimal_string(variant.status.0 as u64);
    let class_name = error_variant_class_name(error, variant);
    writer.push("  ");
    writer.push(status.as_str());
    writer.push(": ");
    let ghost wa = *writer;
    writer.push_marked(&variant.id, "errorVariant", class_name.as_str());
    proof {
        lemma_marked_trans(*old(writer), Seq::empty(), wa, seq![
            mark_spec(variant@.id, "errorVariant"@, spec_variant_class_name(error@, variant@)),
        ], *writer);
        assert(Seq::<MarkSpec>::empty() + seq![
            mark_spec(variant@.id, "errorVariant"@, spec_variant_class_name(error@, variant@)),
        ] =~= seq![mark_spec(variant@.id, "errorVariant"@, spec_variant_class_name(error@, variant@))]);
    }
    writer.push(",\n");
    assert(writer.contents@ =~= start + spec_schema_status_line(error@, variant@));
}

#[verifier::rlimit(40)]
fn write_symbol_line(writer: &mut TrackedWriter, variant: &ErrorVariant)
    requires
        old(writer).wf(),
    ensures
        final(writer).grew(old(writer), spec_symbol_line(variant@)),
        final(writer).marked(
            *old(writer),
            seq![mark_spec(spec_error_tag_id(variant@), "errorTag"@, spec_property_key(variant@.tag))],
        ),
{
    let ghost start = writer.contents@;
    proof {
        lemma_marked_refl(*writer);
    }
    let key = render_property_key(variant.tag.as_str());
    let tag_id = SymbolId::new(error_tag_symbol_id(variant));
    let id = ts_string(variant.id.as_str());
    let rust_name = ts_string(variant.rust_name.as_str());
    let source = render_source_range(&variant.source, 4);
    writer.push("  ");
    let ghost wa = *writer;
    writer.push_marked(&tag_id, "errorTag", key.as_str());
    proof {
        lemma_marked_trans(*old(writer), Seq::empty(), wa, seq![mark_spec(tag_id@, "errorTag"@, key@)], *writer);
        assert(Seq::<MarkSpec>::empty() + seq![mark_spec(tag_id@, "errorTag"@, key@)] =~= seq![
            mark_spec(spec_error_tag_id(variant@), "errorTag"@, spec_property_key(variant@.tag)),
        ]);
    }
    let mut tail = String::new();
    push_str(&mut tail, ": {\n");
    push_str(&mut tail, "    symbolId: ");
    push_str(&mut tail, id.as_str());
    push_str(&mut tail, ",\n    rustName: ");
    push_str(&mut tail, rust_name.as_str());
    push_str(&mut tail, ",\n    source: ");
    push_str(&mut tail, source.as_str());
    push_str(&mut tail, ",\n  },\n");
    writer.push(tail.as_str());
    assert(writer.contents@ =~= start + spec_symbol_line(variant@));
}

#[verifier::rlimit(40)]
fn write_metadata_line(writer: &mut TrackedWriter, kind: u8, error: &ErrorDef, variant: &ErrorVariant)
    requires
        old(writer).wf(),
        kind <= 3,
    ensures
        final(writer).grew(old(writer), spec_metadata_line(kind as nat, error@, variant@)),
        final(writer).marked(*old(writer), spec_metadata_line_marks(kind as nat, error@, variant@)),
{
    if kind == 0 {
        write_status_line(writer, variant);
    } else if kind == 1 {
        write_status_code_line(writer, variant);
    } else if kind == 2 {
        write_schema_status_line(writer, error, variant);
    } else {
        write_symbol_line(writer, variant);
    }
}

/// Writes one metadata object of an error, marking its name.
#[verifier::rlimit(30)]
pub fn write_tracked_error_metadata(writer: &mut TrackedWriter, kind: u8, error: &ErrorDef)
    requires
        old(writer).wf(),
        kind <= 3,
    ensures
        final(writer).grew(old(writer), spec_metadata(kind as nat, error@)),
        final(writer).marked(*old(writer), spec_metadata_marks(kind as nat, error@)),
{
    let ghost start = writer.contents@;
    let ghost vs = error@.variants;
    proof {
        lemma_marked_refl(*writer);
        assert(vs.take(0) =~= Seq::<ErrorVariantModel>::empty());
    }
    let ghost line = |v: ErrorVariantModel| spec_metadata_line(kind as nat, error@, v);
    let suffix = if kind == 0 {
        "Status"
    } else if kind == 1 {
        "StatusByCode"
    } else if kind == 2 {
        "SchemaByStatus"
    } else {
        "Symbols"
    };
    let mut name = error.ts_name.clone();
    push_str(&mut name, suffix);
    assert(name@ == error@.ts_name + spec_metadata_suffix(kind as nat));
    writer.push("export const ");
    let ghost wa = *writer;
    writer.push_marked(&error.id, "error", name.as_str());
    let ghost head = seq![mark_spec(error@.id, "error"@, error@.ts_name + spec_metadata_suffix(kind as nat))];
    proof {
        lemma_marked_trans(*old(writer), Seq::empty(), wa, head, *writer);
        assert(Seq::<MarkSpec>::empty() + head =~= head);
    }
    writer.push(" = {\n");
    let ghost base = writer.contents@;
    let ghost w0 = *old(writer);
    for i in 0..error.variants.len()
        invariant
            kind <= 3,
            vs == error@.variants,
            line == (|v: ErrorVariantModel| spec_metadata_line(kind as nat, error@, v)),
            writer.wf(),
            writer.path@ == old(writer).path@,
            writer.contents@ == base + concat_map(vs.take(i as int), line),
            w0 == *old(writer),
            head == seq![mark_spec(error@.id, "error"@, error@.ts_name + spec_metadata_suffix(kind as nat))],
            writer.marked(w0, head + spec_metadata_lines_marks(kind as nat, error@, vs.take(i as int))),
    {
        proof {
            lemma_concat_map_step(vs, line, i as int);
        }
        let ghost wb = *writer;
        write_metadata_line(writer, kind, error, &error.variants[i]);
        proof {
            lemma_marked_trans(w0, head + spec_metadata_lines_marks(kind as nat, error@, vs.take(i as int)), wb, spec_metadata_line_marks(kind as nat, error@, vs[i as int]), *writer);
            assert(vs.take(i + 1).drop_last() =~= vs.take(i as int));
            assert(head + spec_metadata_lines_marks(kind as nat, error@, vs.take(i as int)) + spec_metadata_line_marks(kind as nat, error@, vs[i as int]) =~= head + spec_metadata_lines_marks(kind as nat, error@, vs.take(i + 1)));
        }
    }
    proof {
        lemma_take_all(vs);
        assert(vs.take(vs.len() as int) =~= vs);
    }
    writer.push("} as const\n");
    proof {
        reveal(spec_metadata);
    }
    assert(writer.contents@ =~= start + spec_metadata(kind as nat, error@));
}

#[verifier::rlimit(40)]
fn write_tracked_error_status_metadata(writer: &mut TrackedWriter, error: &ErrorDef)
    requires
        old(writer).wf(),
    ensures
        final(writer).grew(old(writer), spec_metadata(0, error@)),
        final(writer).marked(*old(writer), spec_metadata_marks(0, error@)),
{
    write_tracked_error_metadata(writer, 0, error);
}

#[verifier::rlimit(40)]
fn write_tracked_error_status_by_code_metadata(writer: &mut TrackedWriter, error: &ErrorDef)
    requires
        old(writer).wf(),
    ensures
        final(writer).grew(old(writer), spec_metadata(1, error@)),
        final(writer).marked(*old(writer), spec_metadata_marks(1, error@)),
{
    write_tracked_error_metadata(writer, 1, error);
}

#[verifier::rlimit(40)]
fn write_tracked_error_schema_by_status_metadata(writer: &mut TrackedWriter, error: &ErrorDef)
    requires
        old(writer).wf(),
    ensures
        final(writer).grew(old(writer), spec_metadata(2, error@)),
        final(writer).marked(*old(writer), spec_metadata_marks(2, error@)),
{
    write_tracked_error_metadata(writer, 2, error);
}

#[verifier::rlimit(40)]
fn write_tracked_error_symbol_metadata(writer: &mut TrackedWriter, error: &ErrorDef)
    requires
        old(writer).wf(),
    ensures
        final(writer).grew(old(writer), spec_metadata(3, error@)),
        final(writer).marked(*old(writer), spec_metadata_marks(3, error@)),
{
    write_tracked_error_metadata(writer, 3, error);
}

/// The union members of an error type, or `never` when it has no variants.
pub open spec fn spec_error_union(e: ErrorDefModel) -> Seq<char> {
    if e.variants.len() == 0 {
        "  never\n"@
    } else {
        concat_map(e.variants, |v: ErrorVariantModel| "  | "@ + spec_variant_class_name(e, v) + "\n"@)
    }
}

/// The classes and union type of one domain error.
pub open spec fn spec_error_head(e: ErrorDefModel) -> Seq<char> {
    concat_map(e.variants, |v: ErrorVariantModel| spec_error_variant(e, v) + "\n"@)
        + "export type "@ + e.ts_name + " =\n"@ + spec_error_union(e) + "\n"@
}

/// The metadata objects of one domain error.
pub open spec fn spec_error_metadata(e: ErrorDefModel) -> Seq<char> {
    spec_metadata(0, e) + "\n"@ + spec_metadata(1, e) + "\n"@ + spec_metadata(2, e) + "\n"@
        + spec_metadata(3, e)
}

/// Everything generated for one domain error.
#[verifier::opaque]
pub open spec fn spec_error_def(e: ErrorDefModel) -> Seq<char> {
    spec_error_head(e) + spec_error_metadata(e)
}

#[verifier::rlimit(40)]
fn write_error_classes(writer: &mut TrackedWriter, error: &ErrorDef)
    requires
        old(writer).wf(),
    ensures
        final(writer).grew(
            old(writer),
            concat_map(error@.variants, |v: ErrorVariantModel| spec_error_variant(error@, v) + "\n"@),
        ),
        final(writer).marked(*old(writer), spec_error_classes_marks(error@, error@.variants)),
{
    let ghost vs = error@.variants;
    let ghost line = |v: ErrorVariantModel| spec_error_variant(error@, v) + "\n"@;
    let ghost base = writer.contents@;
    let ghost w0 = *old(writer);
    proof {
        lemma_marked_refl(*writer);
        assert(vs.take(0) =~= Seq::<ErrorVariantModel>::empty());
    }
    for i in 0..error.variants.len()
        invariant
            vs == error@.variants,
            line == (|v: ErrorVariantModel| spec_error_variant(error@, v) + "\n"@),
            writer.wf(),
            writer.path@ == old(writer).path@,
            writer.contents@ == base + concat_map(vs.take(i as int), line),
            w0 == *old(writer),
            writer.marked(w0, spec_error_classes_marks(error@, vs.take(i as int))),
    {
        proof {
            lemma_concat_map_step(vs, line, i as int);
        }
        let ghost wb = *writer;
        write_tracked_error_variant(writer, error, &error.variants[i]);
        proof {
            lemma_marked_trans(w0, spec_error_classes_marks(error@, vs.take(i as int)), wb, spec_error_variant_marks(error@, vs[i as int]), *writer);
            assert(vs.take(i + 1).drop_last() =~= vs.take(i as int));
        }
        writer.push("\n");
    }
    proof {
        lemma_take_all(vs);
        assert(vs.take(vs.len() as int) =~= vs);
    }
}

#[verifier::rlimit(40)]
fn write_error_union(writer: &mut TrackedWriter, error: &ErrorDef)
    requires
        old(writer).wf(),
    ensures
        final(writer).grew(old(writer), spec_error_union(error@)),
        final(writer).marked(*old(writer), spec_error_union_marks(error@, error@.variants)),
{
    proof {
        lemma_marked_refl(*writer);
    }
    if error.variants.len() == 0 {
        writer.push("  never\n");
        return;
    }
    let ghost vs = error@.variants;
    let ghost line = |v: ErrorVariantModel| "  | "@ + spec_variant_class_name(error@, v) + "\n"@;
    let ghost base = writer.contents@;
    let ghost w0 = *old(writer);
    proof {
        assert(vs.take(0) =~= Seq::<ErrorVariantModel>::empty());
    }
    for i in 0..error.variants.len()
        invariant
            vs == error@.variants,
            line == (|v: ErrorVariantModel| "  | "@ + spec_variant_class_name(error@, v) + "\n"@),
            writer.wf(),
            writer.path@ == old(writer).path@,
            writer.contents@ == base + concat_map(vs.take(i as int), line),
            w0 == *old(writer),
            writer.marked(w0, spec_error_union_marks(error@, vs.take(i as int))),
    {
        proof {
            lemma_concat_map_step(vs, line, i as int);
        }
        let variant = &error.variants[i];
        let ghost before = writer.contents@;
        writer.push("  | ");
        let class_name = error_variant_class_name(error, variant);
        let ghost wb = *writer;
        writer.push_marked(&variant.id, "errorVariant", class_name.as_str());
        proof {
            lemma_marked_trans(w0, spec_error_union_marks(error@, vs.take(i as int)), wb, seq![mark_spec(vs[i as int].id, "errorVariant"@, spec_variant_class_name(error@, vs[i as int]))], *writer);
            assert(vs.take(i + 1).drop_last() =~= vs.take(i as int));
            assert(spec_error_union_marks(error@, vs.take(i as int)) + seq![mark_spec(vs[i as int].id, "errorVariant"@, spec_variant_class_name(error@, vs[i as int]))] =~= spec_error_union_marks(error@, vs.take(i + 1)));
        }
        writer.push("\n");
        assert(writer.contents@ =~= before + line(vs[i as int]));
    }
    proof {
        lemma_take_all(vs);
        assert(vs.take(vs.len() as int) =~= vs);
    }
}

#[verifier::rlimit(40)]
fn write_error_head(writer: &mut TrackedWriter, error: &ErrorDef)
    requires
        old(writer).wf(),
    ensures
        final(writer).grew(old(writer), spec_error_head(error@)),
        final(writer).marked(*old(writer), spec_error_head_marks(error@)),
{
    let ghost start = writer.contents@;
    write_error_classes(writer, error);
    let ghost classes = writer.contents@;
    let ghost s1 = spec_error_classes_marks(error@, error@.variants);
    writer.push("export type ");
    let ghost wa = *writer;
    writer.push_marked(&error.id, "error", error.ts_name.as_str());
    let ghost m = seq![mark_spec(error@.id, "error"@, error@.ts_name)];
    proof {
        lemma_marked_trans(*old(writer), s1, wa, m, *writer);
    }
    writer.push(" =\n");
    let ghost wb = *writer;
    write_error_union(writer, error);
    proof {
        lemma_marked_trans(*old(writer), s1 + m, wb, spec_error_union_marks(error@, error@.variants), *writer);
    }
    writer.push("\n");
    assert(writer.contents@ =~= classes + ("export type "@ + error@.ts_name + " =\n"@
        + spec_error_union(error@) + "\n"@));
    assert(writer.contents@ =~= start + spec_error_head(error@));
}

#[verifier::rlimit(40)]
fn write_error_metadata(writer: &mut TrackedWriter, error: &ErrorDef)
    requires
        old(writer).wf(),
    ensures
        final(writer).grew(old(writer), spec_error_metadata(error@)),
        final(writer).marked(*old(writer), spec_error_metadata_marks(error@)),
{
    let ghost start = writer.contents@;
    write_tracked_error_status_metadata(writer, error);
    writer.push("\n");
    let ghost a = writer.contents@;
    let ghost wa = *writer;
    write_tracked_error_status_by_code_metadata(writer, error);
    proof {
        lemma_marked_trans(*old(writer), spec_metadata_marks(0, error@), wa, spec_metadata_marks(1, error@), *writer);
    }
    writer.push("\n");
    let ghost b = writer.contents@;
    let ghost wb = *writer;
    write_tracked_error_schema_by_status_metadata(writer, error);
    proof {
        lemma_marked_trans(*old(writer), spec_metadata_marks(0, error@) + spec_metadata_marks(1, error@), wb, spec_metadata_marks(2, error@), *writer);
    }
    writer.push("\n");
    let ghost c = writer.contents@;
    let ghost wc = *writer;
    write_tracked_error_symbol_metadata(writer, error);
    proof {
        lemma_marked_trans(*old(writer), spec_metadata_marks(0, error@) + spec_metadata_marks(1, error@) + spec_metadata_marks(2, error@), wc, spec_metadata_marks(3, error@), *writer);
    }
    assert(writer.contents@ =~= start + spec_error_metadata(error@));
}

/// Writes the classes, union type and metadata objects of one domain error.
#[verifier::rlimit(40)]
pub fn write_tracked_error_def(writer: &mut TrackedWriter, error: &ErrorDef)
    requires
        old(writer).wf(),
    ensures
        final(writer).grew(old(writer), spec_error_def(error@)),
        final(writer).marked(*old(writer), spec_error_def_marks(error@)),
{
    let ghost start = writer.contents@;
    write_error_head(writer, error);
    let ghost wa = *writer;
    write_error_metadata(writer, error);
    proof {
        reveal(spec_error_def);
        lemma_marked_trans(*old(writer), spec_error_head_marks(error@), wa, spec_error_metadata_marks(error@), *writer);
    }
    assert(writer.contents@ =~= start + spec_error_def(error@));
}

/// The names of the non-primitive field types of `fs`, in order.
pub open spec fn spec_field_imports(fs: Seq<FieldModel>) -> Seq<Seq<char>>
    decreases fs.len(),
{
    if fs.len() == 0 {
        Seq::empty()
    } else {
        spec_field_imports(fs.drop_last()) + if spec_primitive_from_name(fs.last().type_ref.name) is None {
            seq![fs.last().type_ref.name]
        } else {
            Seq::empty()
        }
    }
}

/// The names of the non-primitive field types of the variants `vs`.
pub open spec fn spec_variant_imports(vs: Seq<ErrorVariantModel>) -> Seq<Seq<char>>
    decreases vs.len(),
{
    if vs.len() == 0 {
        Seq::empty()
    } else {
        spec_variant_imports(vs.drop_last()) + spec_field_imports(vs.last().fields)
    }
}

/// The names of the non-primitive field types of the errors `es`.
pub open spec fn spec_error_imports(es: Seq<ErrorDefModel>) -> Seq<Seq<char>>
    decreases es.len(),
{
    if es.len() == 0 {
        Seq::empty()
    } else {
        spec_error_imports(es.drop_last()) + spec_variant_imports(es.last().variants)
    }
}

/// Appends the names of the non-primitive field types of `fields`.
pub fn push_field_imports(names: &mut Vec<String>, fields: &Vec<crate::ir::Field>)
    ensures
        strings_view(final(names)@) == strings_view(old(names)@) + spec_field_imports(
            crate::ir::fields_view(fields@),
        ),
{
    let ghost fs = crate::ir::fields_view(fields@);
    let ghost base = strings_view(names@);
    for i in 0..fields.len()
        invariant
            fs == crate::ir::fields_view(fields@),
            strings_view(names@) == base + spec_field_imports(fs.take(i as int)),
    {
        assert(fs.take(i + 1).drop_last() =~= fs.take(i as int));
        let ghost before = names@;
        if primitive_from_type_ref(&fields[i].type_ref).is_none() {
            names.push(fields[i].type_ref.name.clone());
            assert(strings_view(names@) =~= strings_view(before).push(fs[i as int].type_ref.name));
        } else {
            assert(strings_view(names@) =~= strings_view(before));
        }
        assert(fs.take(i + 1).last() == fs[i as int]);
        assert(strings_view(names@) =~= base + spec_field_imports(fs.take(i + 1)));
    }
    assert(fs.take(fields@.len() as int) =~= fs);
}

fn push_variant_imports(names: &mut Vec<String>, variants: &Vec<ErrorVariant>)
    ensures
        strings_view(final(names)@) == strings_view(old(names)@) + spec_variant_imports(
            crate::ir::error_variants_view(variants@),
        ),
{
    let ghost vs = crate::ir::error_variants_view(variants@);
    let ghost base = strings_view(names@);
    for i in 0..variants.len()
        invariant
            vs == crate::ir::error_variants_view(variants@),
            strings_view(names@) == base + spec_variant_imports(vs.take(i as int)),
    {
        assert(vs.take(i + 1).drop_last() =~= vs.take(i as int));
        push_field_imports(names, &variants[i].fields);
        assert(strings_view(names@) =~= base + spec_variant_imports(vs.take(i + 1)));
    }
    assert(vs.take(variants@.len() as int) =~= vs);
}

/// The schema names that `errors.ts` imports: each non-primitive field type
/// of every error variant, once, in name order.
pub fn collect_error_schema_imports(contract: &ApiContract) -> (r: Vec<String>)
    ensures
        strings_view(r@) == spec_sorted_set(spec_error_imports(contract@.errors)),
{
    let ghost es = contract@.errors;
    let mut names: Vec<String> = Vec::new();
    for i in 0..contract.errors.len()
        invariant
            es == contract@.errors,
            strings_view(names@) == spec_error_imports(es.take(i as int)),
    {
        assert(es.take(i + 1).drop_last() =~= es.take(i as int));
        push_variant_imports(&mut names, &contract.errors[i].variants);
        assert(strings_view(names@) =~= spec_error_imports(es.take(i + 1)));
    }
    assert(es.take(contract.errors@.len() as int) =~= es);
    sorted_unique_strings(names)
}

/// The import of schema names, when there are any.
pub open spec fn spec_schema_import_line(names: Seq<Seq<char>>) -> Seq<char> {
    if names.len() == 0 {
        Seq::empty()
    } else {
        "import { "@ + join(names, ", "@) + " } from \"./schemas\"\n"@
    }
}

/// Errors are ordered by TypeScript name, then by id.
pub open spec fn error_lt(a: ErrorDefModel, b: ErrorDefModel) -> bool {
    seq_lt(a.ts_name, b.ts_name) || (a.ts_name == b.ts_name && seq_lt(a.id, b.id))
}

/// The order in which errors are rendered.
pub open spec fn error_order() -> spec_fn(ErrorDefModel, ErrorDefModel) -> bool {
    |a: ErrorDefModel, b: ErrorDefModel| error_lt(a, b)
}

/// Compares two errors by TypeScript name, then id.
pub fn error_key_lt(a: &ErrorDef, b: &ErrorDef) -> (r: bool)
    ensures
        r == error_lt(a@, b@),
{
    str_lt(a.ts_name.as_str(), b.ts_name.as_str()) || (str_eq(a.ts_name.as_str(), b.ts_name.as_str())
        && str_lt(a.id.as_str(), b.id.as_str()))
}

/// The indices of `errors` in rendering order.
pub fn sorted_error_indices(errors: &Vec<ErrorDef>) -> (r: Vec<usize>)
    ensures
        r@.len() == errors@.len(),
        forall|i: int| 0 <= i < r@.len() ==> #[trigger] r@[i] < errors@.len(),
        r@.map_values(|i: usize| error_defs_view(errors@)[i as int]) == spec_sort(
            error_defs_view(errors@),
            error_order(),
        ),
{
    let ghost models = error_defs_view(errors@);
    let ghost slt = |a: usize, b: usize| error_lt(models[a as int], models[b as int]);
    let n = errors.len();
    let idx = index_vec(n);
    let lt = |a: &usize, b: &usize| -> (o: bool)
        requires
            *a < errors@.len(),
            *b < errors@.len(),
        ensures
            o == error_lt(errors@[*a as int]@, errors@[*b as int]@),
        { error_key_lt(&errors[*a], &errors[*b]) };
    assert forall|a: &usize, b: &usize|
        idx@.contains(*a) && idx@.contains(*b) implies #[trigger] lt.requires((a, b)) by {
        let wa = choose|w: int| 0 <= w < idx@.len() && idx@[w] == *a;
        let wb = choose|w: int| 0 <= w < idx@.len() && idx@[w] == *b;
    }
    let r = sort_by(idx, lt, Ghost(slt));
    proof {
        lemma_sort_elems(indices(n as nat), slt);
        assert forall|i: int| 0 <= i < r@.len() implies #[trigger] r@[i] < errors@.len() by {
            let w = choose|w: int| 0 <= w < indices(n as nat).len() && indices(n as nat)[w] == r@[i];
        }
        let f = |i: usize| models[i as int];
        lemma_sort_map(indices(n as nat), f, slt, error_order());
        assert(indices(n as nat).map_values(f) =~= models);
    }
    r
}

/// The unfinished contents of `errors.ts`.
pub open spec fn spec_errors_text(c: ApiContractModel) -> Seq<char> {
    spec_banner(c.package_name) + spec_compat_import("Schema"@) + spec_schema_import_line(
        spec_sorted_set(spec_error_imports(c.errors)),
    ) + "\n"@ + spec_client_errors() + concat_map(
        spec_sort(c.errors, error_order()),
        |e: ErrorDefModel| "\n"@ + spec_error_def(e),
    )
}

#[verifier::rlimit(40)]
fn write_schema_import_line(writer: &mut TrackedWriter, names: &Vec<String>)
    requires
        old(writer).wf(),
    ensures
        final(writer).grew(old(writer), spec_schema_import_line(strings_view(names@))),
        final(writer).marked(*old(writer), Seq::empty()),
{
    proof {
        lemma_marked_refl(*writer);
    }
    if names.len() > 0 {
        let ghost start = writer.contents@;
        writer.push("import { ");
        let joined = join_strings(names, ", ");
        assert(names@.map_values(|s: String| s@) =~= strings_view(names@));
        writer.push(joined.as_str());
        writer.push(" } from \"./schemas\"\n");
        assert(writer.contents@ =~= start + spec_schema_import_line(strings_view(names@)));
    } else {
        assert(spec_schema_import_line(strings_view(names@)) =~= Seq::<char>::empty());
        assert(writer.contents@ =~= old(writer).contents@ + spec_schema_import_line(strings_view(names@)));
    }
}

#[verifier::rlimit(50)]
/// Writes `errors.ts`: the client errors, then every domain error in name
/// order.
pub fn render_tracked_errors(contract: &ApiContract) -> (r: TrackedFile)
    ensures
        r.file.path@ == "errors.ts"@,
        r.file.contents@ == spec_trim_blank_lines(spec_errors_text(contract@)),
        crate::gen::writer::file_marks(
            crate::gen::writer::marks_view(r.marks@),
            r.file.path@,
            r.file.contents@,
            spec_errors_marks(contract@),
        ),
{
    let mut writer = TrackedWriter::new("errors.ts");
    let ghost w0 = writer;
    proof {
        lemma_marked_refl(w0);
    }
    let banner = render_package_banner(contract);
    writer.push(banner.as_str());
    let ghost wi = writer;
    write_effect_compat_import(&mut writer, "Schema");
    proof {
        lemma_marked_trans(w0, Seq::empty(), wi, Seq::empty(), writer);
        assert(Seq::<MarkSpec>::empty() + Seq::<MarkSpec>::empty() =~= Seq::<MarkSpec>::empty());
    }
    let imports = collect_error_schema_imports(contract);
    let ghost wj = writer;
    write_schema_import_line(&mut writer, &imports);
    proof {
        lemma_marked_trans(w0, Seq::empty(), wj, Seq::empty(), writer);
    }
    writer.push("\n");
    let client = render_client_errors();
    writer.push(client.as_str());
    let order = sorted_error_indices(&contract.errors);
    let ghost sorted = spec_sort(contract@.errors, error_order());
    let ghost line = |e: ErrorDefModel| "\n"@ + spec_error_def(e);
    let ghost base = writer.contents@;
    assert(sorted.take(0) =~= Seq::<ErrorDefModel>::empty());
    for k in 0..order.len()
        invariant
            order@.len() == contract.errors@.len(),
            forall|i: int| 0 <= i < order@.len() ==> #[trigger] order@[i] < contract.errors@.len(),
            order@.map_values(|i: usize| error_defs_view(contract.errors@)[i as int]) == sorted,
            line == (|e: ErrorDefModel| "\n"@ + spec_error_def(e)),
            writer.wf(),
            writer.path@ == "errors.ts"@,
            writer.contents@ == base + concat_map(sorted.take(k as int), line),
            writer.marked(w0, spec_error_list_marks(sorted.take(k as int))),
            w0.contents@.len() == 0,
            w0.marks@.len() == 0,
    {
        proof {
            lemma_concat_map_step(sorted, line, k as int);
        }
        let i = order[k];
        assert(sorted[k as int] == contract.errors@[i as int]@);
        writer.push("\n");
        let ghost wa = writer;
        write_tracked_error_def(&mut writer, &contract.errors[i]);
        proof {
            lemma_marked_trans(w0, spec_error_list_marks(sorted.take(k as int)), wa, spec_error_def_marks(sorted[k as int]), writer);
            assert(sorted.take(k + 1).drop_last() =~= sorted.take(k as int));
        }
        assert(writer.contents@ =~= base + concat_map(sorted.take(k + 1), line));
    }
    proof {
        lemma_take_all(sorted);
        assert(sorted.take(order@.len() as int) =~= sorted);
    }
    let ghost wf = writer;
    let r = writer.into_tracked_file();
    proof {
        crate::gen::writer::lemma_file_marks(wf, w0, spec_errors_marks(contract@), r);
    }
    r
}

/// Renders schema-backed domain and generated client errors.
pub fn render_errors(contract: &ApiContract) -> (r: String)
    ensures
        r@ == spec_trim_blank_lines(spec_errors_text(contract@)),
{
    render_tracked_errors(contract).file.contents
}

} // verus!
