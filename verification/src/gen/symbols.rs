//! The Rust/TypeScript symbol graph of a generated package: for every
//! endpoint, type, error and field of a contract, its Rust location, the
//! generated TypeScript ranges that name it, and metadata for tooling.

use vstd::prelude::*;
use crate::gen::endpoints::{
    endpoint_function_name, endpoint_namespace, render_endpoint_return_type, spec_function_name,
    spec_namespace, spec_return_type,
};
use crate::gen::errors::{error_tag_symbol_id, error_variant_class_name, spec_error_tag_id, spec_variant_class_name};
use crate::gen::package::{join_path, spec_join_path, GeneratedPackage};
use crate::gen::writer::{marks_view, GeneratedMark, GeneratedRange, MarkModel};
use crate::ir::{
    ApiContract, ApiContractModel, Endpoint, EndpointModel, EnumVariant, EnumVariantModel, ErrorDef,
    ErrorDefModel, ErrorVariant, ErrorVariantModel, Field, FieldModel, RefModel, SourceRange,
    SourceRangeModel, SourceSpan, TypeDef, TypeDefModel, TypeShape, TypeShapeModel, spec_method_name,
    strings_view,
};
use crate::order::{flat_map, lemma_flat_map_step, seq_lt, sort_by, sorted_unique_strings, spec_sort, spec_sorted_set, str_eq, str_lt};

verus! {

/// Zero-based line and UTF-16 character of a symbol graph position.
#[derive(Clone, Copy, Debug, PartialEq, Eq, Structural)]
pub struct GraphPosition {
    pub line: u32,
    pub character: u32,
}

/// A zero-based range of a symbol graph location.
#[derive(Clone, Copy, Debug, PartialEq, Eq, Structural)]
pub struct GraphRange {
    pub start: GraphPosition,
    pub end: GraphPosition,
}

impl View for GraphRange {
    type V = GraphRange;

    open spec fn view(&self) -> GraphRange {
        *self
    }
}

/// Where a symbol appears, in Rust or in generated TypeScript.
#[derive(Debug, PartialEq, Eq)]
pub struct GraphLocation {
    pub file: Option<String>,
    pub range: GraphRange,
    pub name_range: Option<GraphRange>,
    pub full_range: Option<GraphRange>,
    pub generated: bool,
    pub renamable: Option<bool>,
}

/// Model of a [`GraphLocation`].
pub struct LocationModel {
    pub file: Option<Seq<char>>,
    pub range: GraphRange,
    pub name_range: Option<GraphRange>,
    pub full_range: Option<GraphRange>,
    pub generated: bool,
    pub renamable: Option<bool>,
}

/// The view of an optional string.
pub open spec fn opt_string_view(o: Option<String>) -> Option<Seq<char>> {
    match o {
        Some(s) => Some(s@),
        None => None,
    }
}

impl View for GraphLocation {
    type V = LocationModel;

    open spec fn view(&self) -> LocationModel {
        LocationModel {
            file: opt_string_view(self.file),
            range: self.range,
            name_range: self.name_range,
            full_range: self.full_range,
            generated: self.generated,
            renamable: self.renamable,
        }
    }
}

/// The models of a list of locations.
pub open spec fn locations_view(v: Seq<GraphLocation>) -> Seq<LocationModel> {
    v.map_values(|l: GraphLocation| l@)
}

/// One less, stopping at zero.
pub open spec fn spec_pred(x: u32) -> u32 {
    if x == 0 {
        0
    } else {
        (x - 1) as u32
    }
}

/// The zero-based range of a one-based source range.
pub open spec fn spec_range_from_source(s: SourceRangeModel) -> GraphRange {
    GraphRange {
        start: GraphPosition { line: spec_pred(s.start_line), character: spec_pred(s.start_column) },
        end: GraphPosition { line: spec_pred(s.end_line), character: spec_pred(s.end_column) },
    }
}

/// The zero-based range of a one-based source span.
pub open spec fn spec_range_from_span(s: SourceSpan) -> GraphRange {
    GraphRange {
        start: GraphPosition { line: spec_pred(s.start_line), character: spec_pred(s.start_column) },
        end: GraphPosition { line: spec_pred(s.end_line), character: spec_pred(s.end_column) },
    }
}

/// The Rust location of a symbol: its file unless unknown, its range as
/// the name range, and the full item range when recorded.
pub open spec fn spec_rust_location(s: SourceRangeModel, renamable: Option<bool>) -> LocationModel {
    let range = spec_range_from_source(s);
    LocationModel {
        file: if s.file.len() == 0 {
            None
        } else {
            Some(s.file)
        },
        range,
        name_range: Some(range),
        full_range: Some(
            match s.full_range {
                Some(span) => spec_range_from_span(span),
                None => range,
            },
        ),
        generated: false,
        renamable,
    }
}

/// The graph range of a generated range.
pub open spec fn spec_graph_range(r: GeneratedRange) -> GraphRange {
    GraphRange {
        start: GraphPosition { line: r.start.line, character: r.start.character },
        end: GraphPosition { line: r.end.line, character: r.end.character },
    }
}

/// The generated location of a mark in the package at `dir`.
pub open spec fn spec_generated_location(dir: Seq<char>, m: MarkModel) -> LocationModel {
    let range = spec_graph_range(m.range);
    LocationModel {
        file: Some(spec_join_path(dir, m.path)),
        range,
        name_range: Some(range),
        full_range: Some(range),
        generated: true,
        renamable: Some(true),
    }
}

/// The generated locations of the marks of a symbol of a kind, in order.
pub open spec fn spec_generated_locations(
    dir: Seq<char>,
    marks: Seq<MarkModel>,
    symbol_id: Seq<char>,
    kind: Seq<char>,
) -> Seq<LocationModel> {
    flat_map(
        marks,
        |m: MarkModel|
            if m.symbol_id == symbol_id && m.kind == kind {
                seq![spec_generated_location(dir, m)]
            } else {
                Seq::empty()
            },
    )
}

fn pred(x: u32) -> (r: u32)
    ensures
        r == spec_pred(x),
{
    if x == 0 {
        0
    } else {
        x - 1
    }
}

/// The zero-based range of a one-based source range.
pub fn graph_range_from_source(s: &SourceRange) -> (r: GraphRange)
    ensures
        r == spec_range_from_source(s@),
{
    GraphRange {
        start: GraphPosition { line: pred(s.start_line), character: pred(s.start_column) },
        end: GraphPosition { line: pred(s.end_line), character: pred(s.end_column) },
    }
}

fn range_from_span(s: &SourceSpan) -> (r: GraphRange)
    ensures
        r == spec_range_from_span(*s),
{
    GraphRange {
        start: GraphPosition { line: pred(s.start_line), character: pred(s.start_column) },
        end: GraphPosition { line: pred(s.end_line), character: pred(s.end_column) },
    }
}

/// The Rust location of a symbol with the given source range.
pub fn rust_location(source: &SourceRange, renamable: Option<bool>) -> (r: GraphLocation)
    ensures
        r@ == spec_rust_location(source@, renamable),
{
    let range = graph_range_from_source(source);
    let full_range = match &source.full_range {
        Some(span) => range_from_span(span),
        None => range,
    };
    let file = if source.file.as_str().unicode_len() == 0 {
        None
    } else {
        Some(source.file.clone())
    };
    GraphLocation {
        file,
        range,
        name_range: Some(range),
        full_range: Some(full_range),
        generated: false,
        renamable,
    }
}

fn generated_location(dir: &str, m: &GeneratedMark) -> (r: GraphLocation)
    ensures
        r@ == spec_generated_location(dir@, m@),
{
    let range = GraphRange {
        start: GraphPosition { line: m.range.start.line, character: m.range.start.character },
        end: GraphPosition { line: m.range.end.line, character: m.range.end.character },
    };
    GraphLocation {
        file: Some(join_path(dir, m.path.as_str())),
        range,
        name_range: Some(range),
        full_range: Some(range),
        generated: true,
        renamable: Some(true),
    }
}

/// The generated TypeScript locations of a symbol of a kind.
pub fn generated_locations(package: &GeneratedPackage, symbol_id: &str, kind: &str) -> (r: Vec<GraphLocation>)
    ensures
        locations_view(r@) == spec_generated_locations(
            package.package_dir@,
            marks_view(package.marks@),
            symbol_id@,
            kind@,
        ),
{
    let ghost ms = marks_view(package.marks@);
    let ghost f = |m: MarkModel|
        if m.symbol_id == symbol_id@ && m.kind == kind@ {
            seq![spec_generated_location(package.package_dir@, m)]
        } else {
            Seq::empty()
        };
    let mut out: Vec<GraphLocation> = Vec::new();
    for i in 0..package.marks.len()
        invariant
            ms == marks_view(package.marks@),
            f == (|m: MarkModel|
                if m.symbol_id == symbol_id@ && m.kind == kind@ {
                    seq![spec_generated_location(package.package_dir@, m)]
                } else {
                    Seq::<LocationModel>::empty()
                }),
            locations_view(out@) == flat_map(ms.take(i as int), f),
    {
        proof {
            lemma_flat_map_step(ms, f, i as int);
        }
        let m = &package.marks[i];
        assert(ms[i as int] == m@);
        let ghost before = locations_view(out@);
        if str_eq(m.symbol_id.as_str(), symbol_id) && str_eq(m.kind.as_str(), kind) {
            let loc = generated_location(package.package_dir.as_str(), m);
            out.push(loc);
            assert(locations_view(out@) =~= before + f(ms[i as int]));
        } else {
            assert(locations_view(out@) =~= before + f(ms[i as int]));
        }
    }
    assert(ms.take(package.marks@.len() as int) =~= ms);
    out
}

} // verus!

verus! {

/// Tooling metadata of a symbol.
#[derive(Debug, Default, PartialEq, Eq)]
pub struct SymbolMetadata {
    pub method: Option<String>,
    pub route: Option<String>,
    pub effect_signature: Option<String>,
    pub errors: Vec<String>,
    pub rust_path: Vec<String>,
    pub ts_path: Vec<String>,
    pub usage_count: Option<u64>,
    pub allow_unused: bool,
    pub rename_placeholder: Option<String>,
    pub reserved_names: Vec<String>,
}

/// Model of a [`SymbolMetadata`].
pub struct MetadataModel {
    pub method: Option<Seq<char>>,
    pub route: Option<Seq<char>>,
    pub effect_signature: Option<Seq<char>>,
    pub errors: Seq<Seq<char>>,
    pub rust_path: Seq<Seq<char>>,
    pub ts_path: Seq<Seq<char>>,
    pub usage_count: Option<u64>,
    pub allow_unused: bool,
    pub rename_placeholder: Option<Seq<char>>,
    pub reserved_names: Seq<Seq<char>>,
}

impl View for SymbolMetadata {
    type V = MetadataModel;

    open spec fn view(&self) -> MetadataModel {
        MetadataModel {
            method: opt_string_view(self.method),
            route: opt_string_view(self.route),
            effect_signature: opt_string_view(self.effect_signature),
            errors: strings_view(self.errors@),
            rust_path: strings_view(self.rust_path@),
            ts_path: strings_view(self.ts_path@),
            usage_count: self.usage_count,
            allow_unused: self.allow_unused,
            rename_placeholder: opt_string_view(self.rename_placeholder),
            reserved_names: strings_view(self.reserved_names@),
        }
    }
}

/// A linked symbol of the graph.
#[derive(Debug, PartialEq, Eq)]
pub struct LinkedSymbol {
    pub id: String,
    pub kind: String,
    pub rust: GraphLocation,
    pub typescript: Vec<GraphLocation>,
    pub metadata: SymbolMetadata,
}

/// Model of a [`LinkedSymbol`].
pub struct SymbolModel {
    pub id: Seq<char>,
    pub kind: Seq<char>,
    pub rust: LocationModel,
    pub typescript: Seq<LocationModel>,
    pub metadata: MetadataModel,
}

impl View for LinkedSymbol {
    type V = SymbolModel;

    open spec fn view(&self) -> SymbolModel {
        SymbolModel {
            id: self.id@,
            kind: self.kind@,
            rust: self.rust@,
            typescript: locations_view(self.typescript@),
            metadata: self.metadata@,
        }
    }
}

/// The models of a list of symbols.
pub open spec fn symbols_view(v: Seq<LinkedSymbol>) -> Seq<SymbolModel> {
    v.map_values(|s: LinkedSymbol| s@)
}

/// The symbol graph of a generated package.
#[derive(Debug, PartialEq, Eq)]
pub struct SymbolGraph {
    pub symbols: Vec<LinkedSymbol>,
}

/// Metadata with only the paths and the rename placeholder set.
pub open spec fn spec_plain_metadata(
    rust_path: Seq<Seq<char>>,
    ts_path: Seq<Seq<char>>,
    placeholder: Seq<char>,
) -> MetadataModel {
    MetadataModel {
        method: None,
        route: None,
        effect_signature: None,
        errors: Seq::empty(),
        rust_path,
        ts_path,
        usage_count: None,
        allow_unused: false,
        rename_placeholder: Some(placeholder),
        reserved_names: Seq::empty(),
    }
}

/// A symbol whose metadata holds only paths and a rename placeholder.
pub open spec fn spec_plain_symbol(
    id: Seq<char>,
    kind: Seq<char>,
    source: SourceRangeModel,
    dir: Seq<char>,
    marks: Seq<MarkModel>,
    rust_path: Seq<Seq<char>>,
    ts_path: Seq<Seq<char>>,
    placeholder: Seq<char>,
) -> SymbolModel {
    SymbolModel {
        id,
        kind,
        rust: spec_rust_location(source, Some(true)),
        typescript: spec_generated_locations(dir, marks, id, kind),
        metadata: spec_plain_metadata(rust_path, ts_path, placeholder),
    }
}

fn plain_symbol(
    id: String,
    kind: &str,
    source: &SourceRange,
    package: &GeneratedPackage,
    rust_path: Vec<String>,
    ts_path: Vec<String>,
    placeholder: String,
) -> (r: LinkedSymbol)
    ensures
        r@ == spec_plain_symbol(
            id@,
            kind@,
            source@,
            package.package_dir@,
            marks_view(package.marks@),
            strings_view(rust_path@),
            strings_view(ts_path@),
            placeholder@,
        ),
{
    let typescript = generated_locations(package, id.as_str(), kind);
    let metadata = SymbolMetadata {
        method: None,
        route: None,
        effect_signature: None,
        errors: Vec::new(),
        rust_path,
        ts_path,
        usage_count: None,
        allow_unused: false,
        rename_placeholder: Some(placeholder),
        reserved_names: Vec::new(),
    };
    assert(strings_view(metadata.errors@) =~= Seq::<Seq<char>>::empty());
    assert(strings_view(metadata.reserved_names@) =~= Seq::<Seq<char>>::empty());
    LinkedSymbol {
        id,
        kind: kind.to_owned(),
        rust: rust_location(source, Some(true)),
        typescript,
        metadata,
    }
}

fn path_with(base: &Vec<String>, addition: &str) -> (r: Vec<String>)
    ensures
        strings_view(r@) == strings_view(base@).push(addition@),
{
    let mut out = crate::ir::clone_strings(base);
    out.push(addition.to_owned());
    assert(strings_view(out@) =~= strings_view(base@).push(addition@));
    out
}

fn path_of_two(a: &str, b: &str) -> (r: Vec<String>)
    ensures
        strings_view(r@) == seq![a@, b@],
{
    let mut out: Vec<String> = Vec::new();
    out.push(a.to_owned());
    out.push(b.to_owned());
    assert(strings_view(out@) =~= seq![a@, b@]);
    out
}

fn path_of_three(a: &str, b: &str, c: &str) -> (r: Vec<String>)
    ensures
        strings_view(r@) == seq![a@, b@, c@],
{
    let mut out: Vec<String> = Vec::new();
    out.push(a.to_owned());
    out.push(b.to_owned());
    out.push(c.to_owned());
    assert(strings_view(out@) =~= seq![a@, b@, c@]);
    out
}

/// The symbol of a field, of the given kind, with its paths.
pub open spec fn spec_field_symbol(
    kind: Seq<char>,
    dir: Seq<char>,
    marks: Seq<MarkModel>,
    f: FieldModel,
    rust_path: Seq<Seq<char>>,
    ts_path: Seq<Seq<char>>,
) -> SymbolModel {
    spec_plain_symbol(f.id, kind, f.source, dir, marks, rust_path, ts_path, f.ts_name)
}

fn field_symbol(
    kind: &str,
    package: &GeneratedPackage,
    field: &Field,
    rust_path: Vec<String>,
    ts_path: Vec<String>,
) -> (r: LinkedSymbol)
    ensures
        r@ == spec_field_symbol(
            kind@,
            package.package_dir@,
            marks_view(package.marks@),
            field@,
            strings_view(rust_path@),
            strings_view(ts_path@),
        ),
{
    plain_symbol(
        field.id.as_str().to_owned(),
        kind,
        &field.source,
        package,
        rust_path,
        ts_path,
        field.ts_name.clone(),
    )
}

} // verus!

verus! {

/// The function names of the other endpoints in an endpoint's namespace:
/// the names TypeScript code can no longer use when renaming it, in
/// increasing text order and each once.
pub open spec fn spec_sibling_names(endpoints: Seq<EndpointModel>, e: EndpointModel) -> Seq<Seq<char>> {
    spec_sorted_set(
        flat_map(
            endpoints,
            |x: EndpointModel|
                if x.id != e.id && spec_namespace(x) == spec_namespace(e) {
                    seq![spec_function_name(x)]
                } else {
                    Seq::empty()
                },
        ),
    )
}

/// The symbol of an endpoint.
pub open spec fn spec_endpoint_symbol(
    c: ApiContractModel,
    dir: Seq<char>,
    marks: Seq<MarkModel>,
    e: EndpointModel,
) -> SymbolModel {
    SymbolModel {
        id: e.id,
        kind: "endpoint"@,
        rust: spec_rust_location(e.source, Some(true)),
        typescript: spec_generated_locations(dir, marks, e.id, "endpoint"@),
        metadata: MetadataModel {
            method: Some(spec_method_name(e.method)),
            route: Some(e.route),
            effect_signature: Some(spec_return_type(e, "ServerApi"@)),
            errors: e.errors.map_values(|r: RefModel| r.name),
            rust_path: e.rust_path,
            ts_path: e.ts_path,
            usage_count: Some(0),
            allow_unused: e.allow_unused,
            rename_placeholder: Some(spec_function_name(e)),
            reserved_names: spec_sibling_names(c.endpoints, e),
        },
    }
}

/// Sibling endpoint names, as [`spec_sibling_names`] states them.
pub fn sibling_endpoint_names(contract: &ApiContract, endpoint: &Endpoint) -> (r: Vec<String>)
    ensures
        strings_view(r@) == spec_sibling_names(contract@.endpoints, endpoint@),
{
    let ghost es = contract@.endpoints;
    let ghost e = endpoint@;
    let ghost f = |x: EndpointModel|
        if x.id != e.id && spec_namespace(x) == spec_namespace(e) {
            seq![spec_function_name(x)]
        } else {
            Seq::<Seq<char>>::empty()
        };
    let namespace = endpoint_namespace(endpoint);
    let mut names: Vec<String> = Vec::new();
    for i in 0..contract.endpoints.len()
        invariant
            es == contract@.endpoints,
            e == endpoint@,
            namespace@ == spec_namespace(e),
            f == (|x: EndpointModel|
                if x.id != e.id && spec_namespace(x) == spec_namespace(e) {
                    seq![spec_function_name(x)]
                } else {
                    Seq::<Seq<char>>::empty()
                }),
            strings_view(names@) == flat_map(es.take(i as int), f),
    {
        proof {
            lemma_flat_map_step(es, f, i as int);
        }
        let candidate = &contract.endpoints[i];
        assert(es[i as int] == candidate@);
        let ghost before = strings_view(names@);
        let other_namespace = endpoint_namespace(candidate);
        if !candidate.id.same(&endpoint.id) && str_eq(other_namespace.as_str(), namespace.as_str()) {
            let name = endpoint_function_name(candidate);
            names.push(name);
            assert(strings_view(names@) =~= before + f(es[i as int]));
        } else {
            assert(strings_view(names@) =~= before + f(es[i as int]));
        }
    }
    assert(es.take(contract.endpoints@.len() as int) =~= es);
    sorted_unique_strings(names)
}

fn error_names(refs: &Vec<crate::ir::ErrorRef>) -> (r: Vec<String>)
    ensures
        strings_view(r@) == crate::ir::error_refs_view(refs@).map_values(|x: RefModel| x.name),
{
    let mut out: Vec<String> = Vec::new();
    for i in 0..refs.len()
        invariant
            out@.len() == i,
            forall|j: int| 0 <= j < i ==> #[trigger] out@[j]@ == refs@[j]@.name,
    {
        out.push(refs[i].name.clone());
    }
    assert(strings_view(out@) =~= crate::ir::error_refs_view(refs@).map_values(|x: RefModel| x.name));
    out
}

/// The symbol of an endpoint.
pub fn endpoint_symbol(contract: &ApiContract, package: &GeneratedPackage, endpoint: &Endpoint) -> (r: LinkedSymbol)
    ensures
        r@ == spec_endpoint_symbol(contract@, package.package_dir@, marks_view(package.marks@), endpoint@),
{
    let function_name = endpoint_function_name(endpoint);
    let metadata = SymbolMetadata {
        method: Some(endpoint.method.as_str().to_owned()),
        route: Some(endpoint.route.0.clone()),
        effect_signature: Some(render_endpoint_return_type(endpoint, "ServerApi")),
        errors: error_names(&endpoint.errors),
        rust_path: crate::ir::clone_strings(&endpoint.rust_path),
        ts_path: crate::ir::clone_strings(&endpoint.ts_path),
        usage_count: Some(0),
        allow_unused: endpoint.allow_unused,
        rename_placeholder: Some(function_name),
        reserved_names: sibling_endpoint_names(contract, endpoint),
    };
    LinkedSymbol {
        id: endpoint.id.as_str().to_owned(),
        kind: "endpoint".to_owned(),
        rust: rust_location(&endpoint.source, Some(true)),
        typescript: generated_locations(package, endpoint.id.as_str(), "endpoint"),
        metadata,
    }
}

/// The symbols of fields of a kind: each field's Rust path and TypeScript
/// path extend the given bases with its names.
pub open spec fn spec_field_symbols(
    kind: Seq<char>,
    dir: Seq<char>,
    marks: Seq<MarkModel>,
    fields: Seq<FieldModel>,
    rust_base: Seq<Seq<char>>,
    ts_base: Seq<Seq<char>>,
) -> Seq<SymbolModel> {
    fields.map_values(
        |f: FieldModel| spec_field_symbol(kind, dir, marks, f, rust_base.push(f.rust_name), ts_base.push(f.ts_name)),
    )
}

/// The symbols of an endpoint and of its route and query parameters.
pub open spec fn spec_endpoint_symbols(
    c: ApiContractModel,
    dir: Seq<char>,
    marks: Seq<MarkModel>,
    e: EndpointModel,
) -> Seq<SymbolModel> {
    seq![spec_endpoint_symbol(c, dir, marks, e)] + spec_field_symbols(
        "routeParam"@,
        dir,
        marks,
        e.request.path_params,
        e.rust_path,
        e.ts_path,
    ) + spec_field_symbols("queryParam"@, dir, marks, e.request.query_params, e.rust_path, e.ts_path)
}

fn push_field_symbols(
    out: &mut Vec<LinkedSymbol>,
    kind: &str,
    package: &GeneratedPackage,
    fields: &Vec<Field>,
    rust_base: &Vec<String>,
    ts_base: &Vec<String>,
)
    ensures
        symbols_view(final(out)@) == symbols_view(old(out)@) + spec_field_symbols(
            kind@,
            package.package_dir@,
            marks_view(package.marks@),
            crate::ir::fields_view(fields@),
            strings_view(rust_base@),
            strings_view(ts_base@),
        ),
{
    let ghost start = symbols_view(out@);
    let ghost rb = strings_view(rust_base@);
    let ghost tb = strings_view(ts_base@);
    let ghost g = |f: FieldModel|
        spec_field_symbol(kind@, package.package_dir@, marks_view(package.marks@), f, rb.push(f.rust_name), tb.push(f.ts_name));
    let ghost fs = crate::ir::fields_view(fields@);
    for i in 0..fields.len()
        invariant
            fs == crate::ir::fields_view(fields@),
            rb == strings_view(rust_base@),
            tb == strings_view(ts_base@),
            g == (|f: FieldModel|
                spec_field_symbol(kind@, package.package_dir@, marks_view(package.marks@), f, rb.push(f.rust_name), tb.push(f.ts_name))),
            symbols_view(out@) == start + fs.take(i as int).map_values(g),
    {
        let field = &fields[i];
        assert(fs[i as int] == field@);
        let ghost before = symbols_view(out@);
        let s = field_symbol(
            kind,
            package,
            field,
            path_with(rust_base, field.rust_name.as_str()),
            path_with(ts_base, field.ts_name.as_str()),
        );
        out.push(s);
        assert(symbols_view(out@) =~= before.push(s@));
        assert(fs.take(i + 1).map_values(g) =~= fs.take(i as int).map_values(g).push(g(fs[i as int])));
    }
    assert(fs.take(fields@.len() as int) =~= fs);
}

/// Appends the symbols of an endpoint and its parameters.
pub fn push_endpoint_symbols(
    out: &mut Vec<LinkedSymbol>,
    contract: &ApiContract,
    package: &GeneratedPackage,
    endpoint: &Endpoint,
)
    ensures
        symbols_view(final(out)@) == symbols_view(old(out)@) + spec_endpoint_symbols(
            contract@,
            package.package_dir@,
            marks_view(package.marks@),
            endpoint@,
        ),
{
    let ghost start = symbols_view(out@);
    let s = endpoint_symbol(contract, package, endpoint);
    out.push(s);
    assert(symbols_view(out@) =~= start.push(s@));
    push_field_symbols(
        out,
        "routeParam",
        package,
        &endpoint.request.path_params,
        &endpoint.rust_path,
        &endpoint.ts_path,
    );
    push_field_symbols(
        out,
        "queryParam",
        package,
        &endpoint.request.query_params,
        &endpoint.rust_path,
        &endpoint.ts_path,
    );
    assert(symbols_view(out@) =~= start + spec_endpoint_symbols(
        contract@,
        package.package_dir@,
        marks_view(package.marks@),
        endpoint@,
    ));
}

} // verus!

verus! {

/// The symbol of an enum variant of a type.
pub open spec fn spec_enum_variant_symbol(
    dir: Seq<char>,
    marks: Seq<MarkModel>,
    t: TypeDefModel,
    v: EnumVariantModel,
) -> SymbolModel {
    spec_plain_symbol(
        v.id,
        "enumVariant"@,
        v.source,
        dir,
        marks,
        t.rust_path.push(v.rust_name),
        seq![t.ts_name, v.wire_name],
        v.wire_name,
    )
}

/// The symbols of an enum variant and of its fields.
pub open spec fn spec_enum_variant_symbols(
    dir: Seq<char>,
    marks: Seq<MarkModel>,
    t: TypeDefModel,
    v: EnumVariantModel,
) -> Seq<SymbolModel> {
    seq![spec_enum_variant_symbol(dir, marks, t, v)] + spec_field_symbols(
        "field"@,
        dir,
        marks,
        v.fields,
        t.rust_path.push(v.rust_name),
        seq![t.ts_name, v.wire_name],
    )
}

/// The symbols of a type, of its fields, and of its variants and their
/// fields.
pub open spec fn spec_type_symbols(dir: Seq<char>, marks: Seq<MarkModel>, t: TypeDefModel) -> Seq<SymbolModel> {
    seq![spec_plain_symbol(t.id, "type"@, t.source, dir, marks, t.rust_path, seq![t.ts_name], t.ts_name)]
        + match t.shape {
        TypeShapeModel::Struct(fields) => spec_field_symbols("field"@, dir, marks, fields, t.rust_path, seq![t.ts_name]),
        TypeShapeModel::Enum(variants) => flat_map(
            variants,
            |v: EnumVariantModel| spec_enum_variant_symbols(dir, marks, t, v),
        ),
        _ => Seq::empty(),
    }
}

fn push_enum_variant_symbols(
    out: &mut Vec<LinkedSymbol>,
    package: &GeneratedPackage,
    type_def: &TypeDef,
    variant: &EnumVariant,
)
    ensures
        symbols_view(final(out)@) == symbols_view(old(out)@) + spec_enum_variant_symbols(
            package.package_dir@,
            marks_view(package.marks@),
            type_def@,
            variant@,
        ),
{
    let ghost start = symbols_view(out@);
    let rust_path = path_with(&type_def.rust_path, variant.rust_name.as_str());
    let ts_path = path_of_two(type_def.ts_name.as_str(), variant.wire_name.as_str());
    let s = plain_symbol(
        variant.id.as_str().to_owned(),
        "enumVariant",
        &variant.source,
        package,
        crate::ir::clone_strings(&rust_path),
        crate::ir::clone_strings(&ts_path),
        variant.wire_name.clone(),
    );
    out.push(s);
    assert(symbols_view(out@) =~= start.push(s@));
    push_field_symbols(out, "field", package, &variant.fields, &rust_path, &ts_path);
    assert(symbols_view(out@) =~= start + spec_enum_variant_symbols(
        package.package_dir@,
        marks_view(package.marks@),
        type_def@,
        variant@,
    ));
}

/// Appends the symbols of a type and of its members.
pub fn push_type_symbols(out: &mut Vec<LinkedSymbol>, package: &GeneratedPackage, type_def: &TypeDef)
    ensures
        symbols_view(final(out)@) == symbols_view(old(out)@) + spec_type_symbols(
            package.package_dir@,
            marks_view(package.marks@),
            type_def@,
        ),
{
    let ghost start = symbols_view(out@);
    let mut ts_path: Vec<String> = Vec::new();
    ts_path.push(type_def.ts_name.clone());
    assert(strings_view(ts_path@) =~= seq![type_def@.ts_name]);
    let s = plain_symbol(
        type_def.id.as_str().to_owned(),
        "type",
        &type_def.source,
        package,
        crate::ir::clone_strings(&type_def.rust_path),
        crate::ir::clone_strings(&ts_path),
        type_def.ts_name.clone(),
    );
    out.push(s);
    let ghost head = symbols_view(out@);
    assert(head =~= start.push(s@));
    match &type_def.shape {
        TypeShape::Struct(shape) => {
            push_field_symbols(out, "field", package, &shape.fields, &type_def.rust_path, &ts_path);
        },
        TypeShape::Enum(shape) => {
            let ghost vs = crate::ir::variants_view(shape.variants@);
            let ghost f = |v: EnumVariantModel|
                spec_enum_variant_symbols(package.package_dir@, marks_view(package.marks@), type_def@, v);
            for i in 0..shape.variants.len()
                invariant
                    vs == crate::ir::variants_view(shape.variants@),
                    f == (|v: EnumVariantModel|
                        spec_enum_variant_symbols(package.package_dir@, marks_view(package.marks@), type_def@, v)),
                    symbols_view(out@) == head + flat_map(vs.take(i as int), f),
            {
                proof {
                    lemma_flat_map_step(vs, f, i as int);
                }
                assert(vs[i as int] == shape.variants@[i as int]@);
                push_enum_variant_symbols(out, package, type_def, &shape.variants[i]);
            }
            assert(vs.take(shape.variants@.len() as int) =~= vs);
        },
        _ => {},
    }
    assert(symbols_view(out@) =~= start + spec_type_symbols(
        package.package_dir@,
        marks_view(package.marks@),
        type_def@,
    ));
}

/// The symbols of an error variant, of its tag and of its fields.
pub open spec fn spec_error_variant_symbols(
    dir: Seq<char>,
    marks: Seq<MarkModel>,
    e: ErrorDefModel,
    v: ErrorVariantModel,
) -> Seq<SymbolModel> {
    let class_name = spec_variant_class_name(e, v);
    let rust_path = e.rust_path.push(v.rust_name);
    seq![
        spec_plain_symbol(v.id, "errorVariant"@, v.source, dir, marks, rust_path, seq![class_name], class_name),
        spec_plain_symbol(
            spec_error_tag_id(v),
            "errorTag"@,
            v.source,
            dir,
            marks,
            rust_path,
            seq![class_name, v.tag],
            v.tag,
        ),
    ] + spec_field_symbols("errorField"@, dir, marks, v.fields, rust_path, seq![class_name])
}

/// The symbols of an error, of its variants and tags, and of their fields.
pub open spec fn spec_error_symbols(dir: Seq<char>, marks: Seq<MarkModel>, e: ErrorDefModel) -> Seq<SymbolModel> {
    seq![spec_plain_symbol(e.id, "error"@, e.source, dir, marks, e.rust_path, seq![e.ts_name], e.ts_name)]
        + flat_map(e.variants, |v: ErrorVariantModel| spec_error_variant_symbols(dir, marks, e, v))
}

fn push_error_variant_symbols(
    out: &mut Vec<LinkedSymbol>,
    package: &GeneratedPackage,
    error: &ErrorDef,
    variant: &ErrorVariant,
)
    ensures
        symbols_view(final(out)@) == symbols_view(old(out)@) + spec_error_variant_symbols(
            package.package_dir@,
            marks_view(package.marks@),
            error@,
            variant@,
        ),
{
    let ghost start = symbols_view(out@);
    let class_name = error_variant_class_name(error, variant);
    let rust_path = path_with(&error.rust_path, variant.rust_name.as_str());
    let mut class_path: Vec<String> = Vec::new();
    class_path.push(class_name.clone());
    assert(strings_view(class_path@) =~= seq![class_name@]);
    let v = plain_symbol(
        variant.id.as_str().to_owned(),
        "errorVariant",
        &variant.source,
        package,
        crate::ir::clone_strings(&rust_path),
        crate::ir::clone_strings(&class_path),
        class_name.clone(),
    );
    out.push(v);
    let t = plain_symbol(
        error_tag_symbol_id(variant),
        "errorTag",
        &variant.source,
        package,
        crate::ir::clone_strings(&rust_path),
        path_of_two(class_name.as_str(), variant.tag.as_str()),
        variant.tag.clone(),
    );
    out.push(t);
    assert(symbols_view(out@) =~= start + seq![v@, t@]);
    push_field_symbols(out, "errorField", package, &variant.fields, &rust_path, &class_path);
    assert(symbols_view(out@) =~= start + spec_error_variant_symbols(
        package.package_dir@,
        marks_view(package.marks@),
        error@,
        variant@,
    ));
}

/// Appends the symbols of an error and of its members.
pub fn push_error_symbols(out: &mut Vec<LinkedSymbol>, package: &GeneratedPackage, error: &ErrorDef)
    ensures
        symbols_view(final(out)@) == symbols_view(old(out)@) + spec_error_symbols(
            package.package_dir@,
            marks_view(package.marks@),
            error@,
        ),
{
    let ghost start = symbols_view(out@);
    let mut ts_path: Vec<String> = Vec::new();
    ts_path.push(error.ts_name.clone());
    assert(strings_view(ts_path@) =~= seq![error@.ts_name]);
    let s = plain_symbol(
        error.id.as_str().to_owned(),
        "error",
        &error.source,
        package,
        crate::ir::clone_strings(&error.rust_path),
        ts_path,
        error.ts_name.clone(),
    );
    out.push(s);
    let ghost head = symbols_view(out@);
    assert(head =~= start.push(s@));
    let ghost vs = crate::ir::error_variants_view(error.variants@);
    let ghost f = |v: ErrorVariantModel|
        spec_error_variant_symbols(package.package_dir@, marks_view(package.marks@), error@, v);
    for i in 0..error.variants.len()
        invariant
            vs == crate::ir::error_variants_view(error.variants@),
            f == (|v: ErrorVariantModel|
                spec_error_variant_symbols(package.package_dir@, marks_view(package.marks@), error@, v)),
            symbols_view(out@) == head + flat_map(vs.take(i as int), f),
    {
        proof {
            lemma_flat_map_step(vs, f, i as int);
        }
        assert(vs[i as int] == error.variants@[i as int]@);
        push_error_variant_symbols(out, package, error, &error.variants[i]);
    }
    assert(vs.take(error.variants@.len() as int) =~= vs);
    assert(symbols_view(out@) =~= start + spec_error_symbols(
        package.package_dir@,
        marks_view(package.marks@),
        error@,
    ));
}

} // verus!

verus! {

/// Symbols are ordered by kind, then id.
pub open spec fn symbol_lt(a: SymbolModel, b: SymbolModel) -> bool {
    seq_lt(a.kind, b.kind) || (a.kind == b.kind && seq_lt(a.id, b.id))
}

/// The order of a graph's symbols.
pub open spec fn symbol_order() -> spec_fn(SymbolModel, SymbolModel) -> bool {
    |a: SymbolModel, b: SymbolModel| symbol_lt(a, b)
}

/// The symbols of a contract in the package at `dir` with marks `marks`,
/// before ordering: each endpoint's, then each type's, then each error's.
pub open spec fn spec_unordered_symbols(c: ApiContractModel, dir: Seq<char>, marks: Seq<MarkModel>) -> Seq<SymbolModel> {
    flat_map(c.endpoints, |e: EndpointModel| spec_endpoint_symbols(c, dir, marks, e)) + flat_map(
        c.types,
        |t: TypeDefModel| spec_type_symbols(dir, marks, t),
    ) + flat_map(c.errors, |e: ErrorDefModel| spec_error_symbols(dir, marks, e))
}

/// The symbols of the graph of a contract's generated package, ordered by
/// kind and id.
pub open spec fn spec_symbol_graph(c: ApiContractModel, dir: Seq<char>, marks: Seq<MarkModel>) -> Seq<SymbolModel> {
    spec_sort(spec_unordered_symbols(c, dir, marks), symbol_order())
}

fn symbol_key_lt(a: &LinkedSymbol, b: &LinkedSymbol) -> (r: bool)
    ensures
        r == symbol_lt(a@, b@),
{
    str_lt(a.kind.as_str(), b.kind.as_str()) || (str_eq(a.kind.as_str(), b.kind.as_str()) && str_lt(
        a.id.as_str(),
        b.id.as_str(),
    ))
}

/// Sorts symbols by kind, then id, keeping equal ones in order.
pub fn sort_symbols(v: Vec<LinkedSymbol>) -> (r: Vec<LinkedSymbol>)
    ensures
        symbols_view(r@) == spec_sort(symbols_view(v@), symbol_order()),
{
    let ghost slt = |a: LinkedSymbol, b: LinkedSymbol| symbol_lt(a@, b@);
    let lt = |a: &LinkedSymbol, b: &LinkedSymbol| -> (o: bool)
        ensures
            o == symbol_lt(a@, b@),
        { symbol_key_lt(a, b) };
    let ghost before = v@;
    let sorted = sort_by(v, lt, Ghost(slt));
    proof {
        let f = |s: LinkedSymbol| s@;
        crate::order::lemma_sort_map(before, f, slt, symbol_order());
        assert(before.map_values(f) =~= symbols_view(before));
        assert(sorted@.map_values(f) =~= symbols_view(sorted@));
    }
    sorted
}

impl SymbolGraph {
    /// The symbol graph of a contract's generated package: every endpoint,
    /// parameter, type, field, variant, error and error tag, with its Rust
    /// location, the generated ranges marked for it, and its metadata,
    /// ordered by kind and id.
    pub fn from_generated_package(contract: &ApiContract, package: &GeneratedPackage) -> (r: Self)
        ensures
            symbols_view(r.symbols@) == spec_symbol_graph(
                contract@,
                package.package_dir@,
                marks_view(package.marks@),
            ),
    {
        let ghost dir = package.package_dir@;
        let ghost ms = marks_view(package.marks@);
        let ghost c = contract@;
        let mut symbols: Vec<LinkedSymbol> = Vec::new();
        let ghost fe = |e: EndpointModel| spec_endpoint_symbols(c, dir, ms, e);
        let ghost es = c.endpoints;
        for i in 0..contract.endpoints.len()
            invariant
                c == contract@,
                dir == package.package_dir@,
                ms == marks_view(package.marks@),
                es == c.endpoints,
                fe == (|e: EndpointModel| spec_endpoint_symbols(c, dir, ms, e)),
                symbols_view(symbols@) == flat_map(es.take(i as int), fe),
        {
            proof {
                lemma_flat_map_step(es, fe, i as int);
            }
            assert(es[i as int] == contract.endpoints@[i as int]@);
            push_endpoint_symbols(&mut symbols, contract, package, &contract.endpoints[i]);
        }
        assert(es.take(contract.endpoints@.len() as int) =~= es);
        let ghost after_endpoints = symbols_view(symbols@);
        let ghost ft = |t: TypeDefModel| spec_type_symbols(dir, ms, t);
        let ghost ts = c.types;
        for i in 0..contract.types.len()
            invariant
                c == contract@,
                dir == package.package_dir@,
                ms == marks_view(package.marks@),
                ts == c.types,
                ft == (|t: TypeDefModel| spec_type_symbols(dir, ms, t)),
                symbols_view(symbols@) == after_endpoints + flat_map(ts.take(i as int), ft),
        {
            proof {
                lemma_flat_map_step(ts, ft, i as int);
            }
            assert(ts[i as int] == contract.types@[i as int]@);
            push_type_symbols(&mut symbols, package, &contract.types[i]);
        }
        assert(ts.take(contract.types@.len() as int) =~= ts);
        let ghost after_types = symbols_view(symbols@);
        let ghost fr = |e: ErrorDefModel| spec_error_symbols(dir, ms, e);
        let ghost rs = c.errors;
        for i in 0..contract.errors.len()
            invariant
                c == contract@,
                dir == package.package_dir@,
                ms == marks_view(package.marks@),
                rs == c.errors,
                fr == (|e: ErrorDefModel| spec_error_symbols(dir, ms, e)),
                symbols_view(symbols@) == after_types + flat_map(rs.take(i as int), fr),
        {
            proof {
                lemma_flat_map_step(rs, fr, i as int);
            }
            assert(rs[i as int] == contract.errors@[i as int]@);
            push_error_symbols(&mut symbols, package, &contract.errors[i]);
        }
        assert(rs.take(contract.errors@.len() as int) =~= rs);
        assert(symbols_view(symbols@) =~= spec_unordered_symbols(c, dir, ms));
        SymbolGraph { symbols: sort_symbols(symbols) }
    }
}

} // verus!
