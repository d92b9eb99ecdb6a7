//! Every symbol of a generated package's graph has a generated TypeScript
//! location: the renderers mark each symbol's name at least once.

use vstd::prelude::*;
use crate::gen::endpoints::{
    endpoint_order, spec_accessor_marks, spec_arg_marks, spec_args_marks, spec_endpoint_list_marks,
    spec_endpoint_marks, spec_endpoints_marks,
};
use crate::gen::errors::{
    error_order, spec_error_classes_marks, spec_error_def_marks, spec_error_field_marks, spec_error_head_marks,
    spec_error_list_marks, spec_error_variant_marks, spec_errors_marks,
};
use crate::gen::schemas::{
    spec_enum_marks, spec_field_marks, spec_schemas_marks, spec_shape_marks, spec_type_def_marks,
    spec_type_defs_marks, spec_variant_marks, type_order,
};
use crate::gen::package::{mark_order, package_marks};
use crate::gen::symbols::{
    spec_endpoint_symbol, spec_endpoint_symbols, spec_enum_variant_symbol, spec_enum_variant_symbols,
    spec_error_symbols, spec_error_variant_symbols, spec_field_symbols, spec_generated_location,
    spec_generated_locations, spec_symbol_graph, spec_type_symbols, spec_unordered_symbols, symbol_order,
};
use crate::gen::layer::spec_layer_marks;
use crate::gen::writer::{file_marks, mark_spec, MarkModel, MarkSpec};
use crate::ir::{ApiContractModel, TypeShapeModel};
use crate::ir::{EndpointModel, EnumVariantModel, ErrorDefModel, ErrorVariantModel, FieldModel, TypeDefModel};
use crate::order::{flat_map, spec_sort};

verus! {

/// Whether the marks `specs` hold a mark of the symbol `id` of kind `kind`.
pub open spec fn names_symbol(specs: Seq<MarkSpec>, id: Seq<char>, kind: Seq<char>) -> bool {
    exists|i: int| 0 <= i < specs.len() && (#[trigger] specs[i]).symbol_id == id && specs[i].kind == kind
}

proof fn lemma_names_at(specs: Seq<MarkSpec>, i: int, id: Seq<char>, kind: Seq<char>)
    requires
        0 <= i < specs.len(),
        specs[i].symbol_id == id,
        specs[i].kind == kind,
    ensures
        names_symbol(specs, id, kind),
{
}

proof fn lemma_names_left(a: Seq<MarkSpec>, b: Seq<MarkSpec>, id: Seq<char>, kind: Seq<char>)
    requires
        names_symbol(a, id, kind),
    ensures
        names_symbol(a + b, id, kind),
{
    let i = choose|i: int| 0 <= i < a.len() && (#[trigger] a[i]).symbol_id == id && a[i].kind == kind;
    assert((a + b)[i] == a[i]);
}

proof fn lemma_names_right(a: Seq<MarkSpec>, b: Seq<MarkSpec>, id: Seq<char>, kind: Seq<char>)
    requires
        names_symbol(b, id, kind),
    ensures
        names_symbol(a + b, id, kind),
{
    let i = choose|i: int| 0 <= i < b.len() && (#[trigger] b[i]).symbol_id == id && b[i].kind == kind;
    assert((a + b)[a.len() + i] == b[i]);
}

proof fn lemma_names_push(a: Seq<MarkSpec>, m: MarkSpec, id: Seq<char>, kind: Seq<char>)
    requires
        names_symbol(a, id, kind) || (m.symbol_id == id && m.kind == kind),
    ensures
        names_symbol(a.push(m), id, kind),
{
    if names_symbol(a, id, kind) {
        let i = choose|i: int| 0 <= i < a.len() && (#[trigger] a[i]).symbol_id == id && a[i].kind == kind;
        assert(a.push(m)[i] == a[i]);
    } else {
        assert(a.push(m)[a.len() as int] == m);
    }
}

proof fn lemma_field_marks_names(fs: Seq<FieldModel>, i: int)
    requires
        0 <= i < fs.len(),
    ensures
        names_symbol(spec_field_marks(fs), fs[i].id, "field"@),
    decreases fs.len(),
{
    if i < fs.len() - 1 {
        lemma_field_marks_names(fs.drop_last(), i);
    }
    lemma_names_push(
        spec_field_marks(fs.drop_last()),
        crate::gen::writer::mark_spec(fs.last().id, "field"@, fs.last().ts_name),
        fs[i].id,
        "field"@,
    );
}

proof fn lemma_arg_marks_names(fs: Seq<FieldModel>, kind: Seq<char>, i: int)
    requires
        0 <= i < fs.len(),
    ensures
        names_symbol(spec_arg_marks(fs, kind), fs[i].id, kind),
    decreases fs.len(),
{
    if i < fs.len() - 1 {
        lemma_arg_marks_names(fs.drop_last(), kind, i);
    }
    lemma_names_push(
        spec_arg_marks(fs.drop_last(), kind),
        crate::gen::writer::mark_spec(
            fs.last().id,
            kind,
            crate::gen::text::spec_property_key(fs.last().ts_name),
        ),
        fs[i].id,
        kind,
    );
}

proof fn lemma_error_field_marks_names(fs: Seq<FieldModel>, i: int)
    requires
        0 <= i < fs.len(),
    ensures
        names_symbol(spec_error_field_marks(fs), fs[i].id, "errorField"@),
    decreases fs.len(),
{
    if i < fs.len() - 1 {
        lemma_error_field_marks_names(fs.drop_last(), i);
    }
    lemma_names_push(
        spec_error_field_marks(fs.drop_last()),
        crate::gen::writer::mark_spec(
            fs.last().id,
            "errorField"@,
            crate::gen::text::spec_property_key(fs.last().ts_name),
        ),
        fs[i].id,
        "errorField"@,
    );
}

proof fn lemma_enum_marks_names(vs: Seq<EnumVariantModel>, i: int, id: Seq<char>, kind: Seq<char>)
    requires
        0 <= i < vs.len(),
        names_symbol(spec_variant_marks(vs[i]), id, kind),
    ensures
        names_symbol(spec_enum_marks(vs), id, kind),
    decreases vs.len(),
{
    if i < vs.len() - 1 {
        lemma_enum_marks_names(vs.drop_last(), i, id, kind);
        lemma_names_left(spec_enum_marks(vs.drop_last()), spec_variant_marks(vs.last()), id, kind);
    } else {
        lemma_names_right(spec_enum_marks(vs.drop_last()), spec_variant_marks(vs.last()), id, kind);
    }
}

proof fn lemma_type_defs_marks_names(ts: Seq<TypeDefModel>, i: int, id: Seq<char>, kind: Seq<char>)
    requires
        0 <= i < ts.len(),
        names_symbol(spec_type_def_marks(ts[i]), id, kind),
    ensures
        names_symbol(spec_type_defs_marks(ts), id, kind),
    decreases ts.len(),
{
    if i < ts.len() - 1 {
        lemma_type_defs_marks_names(ts.drop_last(), i, id, kind);
        lemma_names_left(spec_type_defs_marks(ts.drop_last()), spec_type_def_marks(ts.last()), id, kind);
    } else {
        lemma_names_right(spec_type_defs_marks(ts.drop_last()), spec_type_def_marks(ts.last()), id, kind);
    }
}

proof fn lemma_error_classes_marks_names(
    e: ErrorDefModel,
    vs: Seq<ErrorVariantModel>,
    i: int,
    id: Seq<char>,
    kind: Seq<char>,
)
    requires
        0 <= i < vs.len(),
        names_symbol(spec_error_variant_marks(e, vs[i]), id, kind),
    ensures
        names_symbol(spec_error_classes_marks(e, vs), id, kind),
    decreases vs.len(),
{
    if i < vs.len() - 1 {
        lemma_error_classes_marks_names(e, vs.drop_last(), i, id, kind);
        lemma_names_left(spec_error_classes_marks(e, vs.drop_last()), spec_error_variant_marks(e, vs.last()), id, kind);
    } else {
        lemma_names_right(spec_error_classes_marks(e, vs.drop_last()), spec_error_variant_marks(e, vs.last()), id, kind);
    }
}

proof fn lemma_error_list_marks_names(es: Seq<ErrorDefModel>, i: int, id: Seq<char>, kind: Seq<char>)
    requires
        0 <= i < es.len(),
        names_symbol(spec_error_def_marks(es[i]), id, kind),
    ensures
        names_symbol(spec_error_list_marks(es), id, kind),
    decreases es.len(),
{
    if i < es.len() - 1 {
        lemma_error_list_marks_names(es.drop_last(), i, id, kind);
        lemma_names_left(spec_error_list_marks(es.drop_last()), spec_error_def_marks(es.last()), id, kind);
    } else {
        lemma_names_right(spec_error_list_marks(es.drop_last()), spec_error_def_marks(es.last()), id, kind);
    }
}

proof fn lemma_endpoint_list_marks_names(es: Seq<EndpointModel>, i: int, id: Seq<char>, kind: Seq<char>)
    requires
        0 <= i < es.len(),
        names_symbol(spec_endpoint_marks(es[i]), id, kind),
    ensures
        names_symbol(spec_endpoint_list_marks(es), id, kind),
    decreases es.len(),
{
    if i < es.len() - 1 {
        lemma_endpoint_list_marks_names(es.drop_last(), i, id, kind);
        lemma_names_left(spec_endpoint_list_marks(es.drop_last()), spec_endpoint_marks(es.last()), id, kind);
    } else {
        lemma_names_right(spec_endpoint_list_marks(es.drop_last()), spec_endpoint_marks(es.last()), id, kind);
    }
}

/// An item of a list is an item of the list sorted.
proof fn lemma_sorted_has<T>(s: Seq<T>, lt: spec_fn(T, T) -> bool, k: int) -> (i: int)
    requires
        0 <= k < s.len(),
    ensures
        0 <= i < spec_sort(s, lt).len(),
        spec_sort(s, lt)[i] == s[k],
{
    broadcast use vstd::seq_lib::group_to_multiset_ensures;
    crate::order::lemma_sort_permutes(s, lt);
    assert(s.to_multiset().count(s[k]) > 0);
    assert(spec_sort(s, lt).contains(s[k]));
    choose|i: int| 0 <= i < spec_sort(s, lt).len() && spec_sort(s, lt)[i] == s[k]
}

/// An item of a sorted list is an item of the list.
proof fn lemma_sorted_from<T>(s: Seq<T>, lt: spec_fn(T, T) -> bool, k: int) -> (i: int)
    requires
        0 <= k < spec_sort(s, lt).len(),
    ensures
        0 <= i < s.len(),
        s[i] == spec_sort(s, lt)[k],
{
    broadcast use vstd::seq_lib::group_to_multiset_ensures;
    crate::order::lemma_sort_permutes(s, lt);
    let x = spec_sort(s, lt)[k];
    assert(spec_sort(s, lt).to_multiset().count(x) > 0);
    assert(s.contains(x));
    choose|i: int| 0 <= i < s.len() && s[i] == x
}

/// An item of a flattened list comes from one of the lists flattened.
proof fn lemma_flat_map_from<T, U>(s: Seq<T>, f: spec_fn(T) -> Seq<U>, k: int) -> (r: (int, int))
    requires
        0 <= k < flat_map(s, f).len(),
    ensures
        0 <= r.0 < s.len(),
        0 <= r.1 < f(s[r.0]).len(),
        f(s[r.0])[r.1] == flat_map(s, f)[k],
    decreases s.len(),
{
    let p = flat_map(s.drop_last(), f);
    if k < p.len() {
        let (i, j) = lemma_flat_map_from(s.drop_last(), f, k);
        assert(s[i] == s.drop_last()[i]);
        (i, j)
    } else {
        (s.len() - 1, k - p.len())
    }
}

proof fn lemma_endpoint_symbols_named(
    c: ApiContractModel,
    dir: Seq<char>,
    ms: Seq<MarkModel>,
    k: int,
    j: int,
)
    requires
        0 <= k < c.endpoints.len(),
        0 <= j < spec_endpoint_symbols(c, dir, ms, c.endpoints[k]).len(),
    ensures
        ({
            let x = spec_endpoint_symbols(c, dir, ms, c.endpoints[k])[j];
            &&& names_symbol(spec_endpoints_marks(c), x.id, x.kind)
            &&& x.typescript == spec_generated_locations(dir, ms, x.id, x.kind)
        }),
{
    let e = c.endpoints[k];
    let sorted = spec_sort(c.endpoints, endpoint_order());
    let i = lemma_sorted_has(c.endpoints, endpoint_order(), k);
    let head = seq![spec_endpoint_symbol(c, dir, ms, e)];
    let rp = spec_field_symbols("routeParam"@, dir, ms, e.request.path_params, e.rust_path, e.ts_path);
    let qp = spec_field_symbols("queryParam"@, dir, ms, e.request.query_params, e.rust_path, e.ts_path);
    let syms = spec_endpoint_symbols(c, dir, ms, e);
    assert(syms == head + rp + qp);
    let x = syms[j];
    let rm = spec_arg_marks(e.request.path_params, "routeParam"@);
    let qm = spec_arg_marks(e.request.query_params, "queryParam"@);
    if j == 0 {
        assert(x == head[0]);
        lemma_names_at(spec_accessor_marks(e), 1, e.id, "endpoint"@);
        lemma_names_right(spec_args_marks(e.request), spec_accessor_marks(e), x.id, x.kind);
    } else if j < 1 + rp.len() {
        let m = j - 1;
        assert(x == rp[m]);
        lemma_arg_marks_names(e.request.path_params, "routeParam"@, m);
        lemma_names_left(rm, qm, x.id, x.kind);
        lemma_names_left(spec_args_marks(e.request), spec_accessor_marks(e), x.id, x.kind);
    } else {
        let m = j - 1 - rp.len();
        assert(x == qp[m]);
        lemma_arg_marks_names(e.request.query_params, "queryParam"@, m);
        lemma_names_right(rm, qm, x.id, x.kind);
        lemma_names_left(spec_args_marks(e.request), spec_accessor_marks(e), x.id, x.kind);
    }
    assert(sorted[i] == e);
    lemma_endpoint_list_marks_names(sorted, i, x.id, x.kind);
}

proof fn lemma_type_def_marks_shape(t: TypeDefModel, id: Seq<char>, kind: Seq<char>)
    requires
        names_symbol(spec_shape_marks(t.shape), id, kind),
    ensures
        names_symbol(spec_type_def_marks(t), id, kind),
{
    let a = seq![mark_spec(t.id, "type"@, t.ts_name)];
    let b = seq![mark_spec(t.id, "type"@, t.ts_name), mark_spec(t.id, "type"@, t.ts_name + "Encoded"@)];
    lemma_names_right(a, spec_shape_marks(t.shape), id, kind);
    lemma_names_left(a + spec_shape_marks(t.shape), b, id, kind);
}

proof fn lemma_type_symbols_named(c: ApiContractModel, dir: Seq<char>, ms: Seq<MarkModel>, k: int, j: int)
    requires
        0 <= k < c.types.len(),
        0 <= j < spec_type_symbols(dir, ms, c.types[k]).len(),
    ensures
        ({
            let x = spec_type_symbols(dir, ms, c.types[k])[j];
            &&& names_symbol(spec_schemas_marks(c), x.id, x.kind)
            &&& x.typescript == spec_generated_locations(dir, ms, x.id, x.kind)
        }),
{
    let t = c.types[k];
    let sorted = spec_sort(c.types, type_order());
    let i = lemma_sorted_has(c.types, type_order(), k);
    let x = spec_type_symbols(dir, ms, t)[j];
    if j == 0 {
        lemma_names_at(spec_type_def_marks(t), 0, t.id, "type"@);
    } else {
        let m = j - 1;
        match t.shape {
            TypeShapeModel::Struct(fs) => {
                let tail = spec_field_symbols("field"@, dir, ms, fs, t.rust_path, seq![t.ts_name]);
                assert(x == tail[m]);
                lemma_field_marks_names(fs, m);
                lemma_type_def_marks_shape(t, x.id, x.kind);
            },
            TypeShapeModel::Enum(vs) => {
                let g = |v: EnumVariantModel| spec_enum_variant_symbols(dir, ms, t, v);
                assert(x == flat_map(vs, g)[m]);
                let (vi, vj) = lemma_flat_map_from(vs, g, m);
                let v = vs[vi];
                let fsyms = spec_field_symbols("field"@, dir, ms, v.fields, t.rust_path.push(v.rust_name), seq![t.ts_name, v.wire_name]);
                assert(g(v) == seq![spec_enum_variant_symbol(dir, ms, t, v)] + fsyms);
                if vj == 0 {
                    lemma_names_at(spec_variant_marks(v), 0, v.id, "enumVariant"@);
                } else {
                    assert(x == fsyms[vj - 1]);
                    lemma_field_marks_names(v.fields, vj - 1);
                    lemma_names_right(seq![mark_spec(v.id, "enumVariant"@, v.wire_name)], spec_field_marks(v.fields), x.id, x.kind);
                }
                lemma_enum_marks_names(vs, vi, x.id, x.kind);
                lemma_type_def_marks_shape(t, x.id, x.kind);
            },
            _ => {
                assert(false);
            },
        }
    }
    assert(sorted[i] == t);
    lemma_type_defs_marks_names(sorted, i, x.id, x.kind);
}

proof fn lemma_error_symbols_named(c: ApiContractModel, dir: Seq<char>, ms: Seq<MarkModel>, k: int, j: int)
    requires
        0 <= k < c.errors.len(),
        0 <= j < spec_error_symbols(dir, ms, c.errors[k]).len(),
    ensures
        ({
            let x = spec_error_symbols(dir, ms, c.errors[k])[j];
            &&& names_symbol(spec_errors_marks(c), x.id, x.kind)
            &&& x.typescript == spec_generated_locations(dir, ms, x.id, x.kind)
        }),
{
    let e = c.errors[k];
    let sorted = spec_sort(c.errors, error_order());
    let i = lemma_sorted_has(c.errors, error_order(), k);
    let x = spec_error_symbols(dir, ms, e)[j];
    let classes = spec_error_classes_marks(e, e.variants);
    let union_head = seq![mark_spec(e.id, "error"@, e.ts_name)];
    let unions = crate::gen::errors::spec_error_union_marks(e, e.variants);
    if j == 0 {
        lemma_names_at(union_head, 0, e.id, "error"@);
        lemma_names_right(classes, union_head, x.id, x.kind);
        lemma_names_left(classes + union_head, unions, x.id, x.kind);
    } else {
        let m = j - 1;
        let g = |v: ErrorVariantModel| spec_error_variant_symbols(dir, ms, e, v);
        assert(x == flat_map(e.variants, g)[m]);
        let (vi, vj) = lemma_flat_map_from(e.variants, g, m);
        let v = e.variants[vi];
        let vm = spec_error_variant_marks(e, v);
        let two = seq![
            mark_spec(v.id, "errorVariant"@, crate::gen::errors::spec_variant_class_name(e, v)),
            mark_spec(crate::gen::errors::spec_error_tag_id(v), "errorTag"@, crate::gen::text::spec_ts_string(v.tag)),
        ];
        let rust_path = e.rust_path.push(v.rust_name);
        let fsyms = spec_field_symbols("errorField"@, dir, ms, v.fields, rust_path, seq![crate::gen::errors::spec_variant_class_name(e, v)]);
        if vj == 0 {
            lemma_names_at(two, 0, x.id, x.kind);
            lemma_names_left(two, spec_error_field_marks(v.fields), x.id, x.kind);
        } else if vj == 1 {
            lemma_names_at(two, 1, x.id, x.kind);
            lemma_names_left(two, spec_error_field_marks(v.fields), x.id, x.kind);
        } else {
            assert(x == fsyms[vj - 2]);
            lemma_error_field_marks_names(v.fields, vj - 2);
            lemma_names_right(two, spec_error_field_marks(v.fields), x.id, x.kind);
        }
        lemma_error_classes_marks_names(e, e.variants, vi, x.id, x.kind);
        lemma_names_left(classes, union_head, x.id, x.kind);
        lemma_names_left(classes + union_head, unions, x.id, x.kind);
    }
    lemma_names_left(spec_error_head_marks(e), crate::gen::errors::spec_error_metadata_marks(e), x.id, x.kind);
    assert(sorted[i] == e);
    lemma_error_list_marks_names(sorted, i, x.id, x.kind);
}

proof fn lemma_file_marks_names(
    a: Seq<MarkModel>,
    path: Seq<char>,
    text: Seq<char>,
    specs: Seq<MarkSpec>,
    id: Seq<char>,
    kind: Seq<char>,
) -> (i: int)
    requires
        file_marks(a, path, text, specs),
        names_symbol(specs, id, kind),
    ensures
        0 <= i < a.len(),
        a[i].symbol_id == id,
        a[i].kind == kind,
{
    let i = choose|i: int| 0 <= i < specs.len() && (#[trigger] specs[i]).symbol_id == id && specs[i].kind == kind;
    assert(a[i].path == path);
    i
}

/// A symbol that one of the generated modules marks has a mark among the
/// package's marks.
proof fn lemma_package_names(
    ms: Seq<MarkModel>,
    c: ApiContractModel,
    schemas: Seq<char>,
    errors: Seq<char>,
    endpoints: Seq<char>,
    layer: Seq<char>,
    id: Seq<char>,
    kind: Seq<char>,
) -> (j: int)
    requires
        package_marks(ms, c, schemas, errors, endpoints, layer),
        names_symbol(spec_schemas_marks(c), id, kind) || names_symbol(spec_errors_marks(c), id, kind)
            || names_symbol(spec_endpoints_marks(c), id, kind),
    ensures
        0 <= j < ms.len(),
        ms[j].symbol_id == id,
        ms[j].kind == kind,
{
    let (a, b, d, e) = choose|a: Seq<MarkModel>, b: Seq<MarkModel>, d: Seq<MarkModel>, e: Seq<MarkModel>|
        {
            &&& file_marks(a, "schemas.ts"@, schemas, spec_schemas_marks(c))
            &&& file_marks(b, "errors.ts"@, errors, spec_errors_marks(c))
            &&& file_marks(d, "endpoints.ts"@, endpoints, spec_endpoints_marks(c))
            &&& file_marks(e, "layer.ts"@, layer, spec_layer_marks(c))
            &&& ms == spec_sort(a + b + d + e, mark_order())
        };
    let all = a + b + d + e;
    let k: int = if names_symbol(spec_schemas_marks(c), id, kind) {
        let i = lemma_file_marks_names(a, "schemas.ts"@, schemas, spec_schemas_marks(c), id, kind);
        assert(all[i] == a[i]);
        i
    } else if names_symbol(spec_errors_marks(c), id, kind) {
        let i = lemma_file_marks_names(b, "errors.ts"@, errors, spec_errors_marks(c), id, kind);
        assert(all[a.len() + i] == b[i]);
        a.len() + i
    } else {
        let i = lemma_file_marks_names(d, "endpoints.ts"@, endpoints, spec_endpoints_marks(c), id, kind);
        assert(all[a.len() + b.len() + i] == d[i]);
        a.len() + b.len() + i
    };
    lemma_sorted_has(all, mark_order(), k)
}

/// A list whose items include one with a nonempty image flattens to a
/// nonempty list.
proof fn lemma_flat_map_nonempty<T, U>(s: Seq<T>, f: spec_fn(T) -> Seq<U>, j: int)
    requires
        0 <= j < s.len(),
        f(s[j]).len() > 0,
    ensures
        flat_map(s, f).len() > 0,
    decreases s.len(),
{
    if j < s.len() - 1 {
        lemma_flat_map_nonempty(s.drop_last(), f, j);
    }
}

/// Every symbol of the graph of a generated package has at least one
/// generated TypeScript location: the package's marks, as
/// `render_generated_package` states them, name every endpoint, route and
/// query parameter, type, field, enum variant, error, error variant, error
/// tag and error field of the contract.
pub proof fn lemma_every_symbol_located(
    c: ApiContractModel,
    dir: Seq<char>,
    ms: Seq<MarkModel>,
    schemas: Seq<char>,
    errors: Seq<char>,
    endpoints: Seq<char>,
    layer: Seq<char>,
)
    requires
        package_marks(ms, c, schemas, errors, endpoints, layer),
    ensures
        forall|k: int|
            0 <= k < spec_symbol_graph(c, dir, ms).len() ==> (#[trigger] spec_symbol_graph(c, dir, ms)[k]).typescript.len()
                > 0,
{
    assert forall|k: int| 0 <= k < spec_symbol_graph(c, dir, ms).len() implies (#[trigger] spec_symbol_graph(
        c,
        dir,
        ms,
    )[k]).typescript.len() > 0 by {
        let u = spec_unordered_symbols(c, dir, ms);
        let i = lemma_sorted_from(u, symbol_order(), k);
        let x = u[i];
        let fe = |e: EndpointModel| spec_endpoint_symbols(c, dir, ms, e);
        let ft = |t: TypeDefModel| spec_type_symbols(dir, ms, t);
        let fr = |e: ErrorDefModel| spec_error_symbols(dir, ms, e);
        let a = flat_map(c.endpoints, fe);
        let b = flat_map(c.types, ft);
        let d = flat_map(c.errors, fr);
        assert(u == a + b + d);
        if i < a.len() {
            assert(x == a[i]);
            let (p, q) = lemma_flat_map_from(c.endpoints, fe, i);
            lemma_endpoint_symbols_named(c, dir, ms, p, q);
        } else if i < a.len() + b.len() {
            assert(x == b[i - a.len()]);
            let (p, q) = lemma_flat_map_from(c.types, ft, i - a.len());
            lemma_type_symbols_named(c, dir, ms, p, q);
        } else {
            assert(x == d[i - a.len() - b.len()]);
            let (p, q) = lemma_flat_map_from(c.errors, fr, i - a.len() - b.len());
            lemma_error_symbols_named(c, dir, ms, p, q);
        }
        let j = lemma_package_names(ms, c, schemas, errors, endpoints, layer, x.id, x.kind);
        let g = |m: MarkModel|
            if m.symbol_id == x.id && m.kind == x.kind {
                seq![spec_generated_location(dir, m)]
            } else {
                Seq::empty()
            };
        assert(g(ms[j]).len() == 1);
        lemma_flat_map_nonempty(ms, g, j);
        assert(spec_generated_locations(dir, ms, x.id, x.kind) == flat_map(ms, g));
    }
}

} // verus!
