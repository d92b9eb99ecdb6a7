//! `endpoints.ts`: one accessor per endpoint, grouped by namespace, and the
//! TypeScript types of endpoint arguments, results and errors.

use vstd::prelude::*;
use crate::gen::schemas::{primitive_from_type_ref, spec_primitive_from_name};
use crate::gen::text::{
    render_property_key, spec_pascal_case, spec_property_key, spec_ts_string, to_pascal_case,
    ts_string,
};
use crate::gen::errors::{push_field_imports, spec_field_imports};
use crate::gen::schemas::{render_package_banner, spec_banner, spec_compat_import, write_effect_compat_import};
use crate::gen::text::spec_trim_blank_lines;
use crate::gen::writer::{mark_spec, MarkSpec, TrackedFile, TrackedWriter, lemma_marked_refl, lemma_marked_trans};
use crate::ir::{
    ApiContract, ApiContractModel, endpoints_view, fields_view, spec_method_name, Endpoint, EndpointModel, Field, FieldModel, Optionality, Primitive, RefModel, ResponseShape,
    ResponseShapeModel, Transport, TypeRef, strings_view,
};
use crate::order::{
    seq_lt, sort_indices, sorted_unique_strings, spec_sort, spec_sorted_set, str_eq, str_lt,
};
use crate::text::{
    concat_map, join, join_strings, lemma_concat_map_step, lemma_take_all, push_str,
};

verus! {

/// The namespace of an endpoint: the first segment of its TypeScript path,
/// or `api`.
pub open spec fn spec_namespace(e: EndpointModel) -> Seq<char> {
    if e.ts_path.len() > 0 {
        e.ts_path[0]
    } else {
        "api"@
    }
}

/// The accessor name of an endpoint: the last segment of its TypeScript
/// path unless that is the namespace itself, else its Rust name.
pub open spec fn spec_function_name(e: EndpointModel) -> Seq<char> {
    if e.ts_path.len() > 0 && e.ts_path.last() != spec_namespace(e) {
        e.ts_path.last()
    } else {
        e.rust_name
    }
}

/// The name of the argument interface of an endpoint.
pub open spec fn spec_args_name(e: EndpointModel) -> Seq<char> {
    spec_pascal_case(spec_function_name(e)) + "Args"@
}

/// The namespace of an endpoint.
pub fn endpoint_namespace(endpoint: &Endpoint) -> (r: String)
    ensures
        r@ == spec_namespace(endpoint@),
{
    if endpoint.ts_path.len() > 0 {
        endpoint.ts_path[0].clone()
    } else {
        "api".to_owned()
    }
}

/// The accessor name of an endpoint.
pub fn endpoint_function_name(endpoint: &Endpoint) -> (r: String)
    ensures
        r@ == spec_function_name(endpoint@),
{
    let namespace = endpoint_namespace(endpoint);
    let n = endpoint.ts_path.len();
    if n > 0 && !str_eq(endpoint.ts_path[n - 1].as_str(), namespace.as_str()) {
        endpoint.ts_path[n - 1].clone()
    } else {
        endpoint.rust_name.clone()
    }
}

/// The name of the argument interface of an endpoint.
pub fn endpoint_args_name(endpoint: &Endpoint) -> (r: String)
    ensures
        r@ == spec_args_name(endpoint@),
{
    let name = endpoint_function_name(endpoint);
    let mut out = to_pascal_case(name.as_str());
    push_str(&mut out, "Args");
    out
}

/// The wire name of a transport.
pub open spec fn spec_transport_name(t: Transport) -> Seq<char> {
    match t {
        Transport::UnaryHttp => "UnaryHttp"@,
        Transport::ServerSentEvents => "ServerSentEvents"@,
        Transport::WebSocketDuplex => "WebSocketDuplex"@,
        Transport::BinaryDownload => "BinaryDownload"@,
        Transport::BinaryUpload => "BinaryUpload"@,
    }
}

/// Renders the wire name of a transport.
pub fn render_transport(transport: Transport) -> (r: &'static str)
    ensures
        r@ == spec_transport_name(transport),
{
    match transport {
        Transport::UnaryHttp => "UnaryHttp",
        Transport::ServerSentEvents => "ServerSentEvents",
        Transport::WebSocketDuplex => "WebSocketDuplex",
        Transport::BinaryDownload => "BinaryDownload",
        Transport::BinaryUpload => "BinaryUpload",
    }
}

/// The TypeScript type of a referenced type.
pub open spec fn spec_ts_type(t: RefModel) -> Seq<char> {
    match spec_primitive_from_name(t.name) {
        Some(Primitive::Bool) => "boolean"@,
        Some(Primitive::String) => "string"@,
        Some(_) => "number"@,
        None => t.name,
    }
}

/// Renders the TypeScript type of a referenced type.
pub fn render_ts_type_ref(type_ref: &TypeRef) -> (r: String)
    ensures
        r@ == spec_ts_type(type_ref@),
{
    match primitive_from_type_ref(type_ref) {
        Some(Primitive::Bool) => "boolean".to_owned(),
        Some(Primitive::String) => "string".to_owned(),
        Some(_) => "number".to_owned(),
        None => type_ref.name.clone(),
    }
}

/// The TypeScript type of a response's success value.
pub open spec fn spec_response_type(r: ResponseShapeModel) -> Seq<char> {
    match r {
        ResponseShapeModel::Empty => "void"@,
        ResponseShapeModel::Json(t) => spec_ts_type(t),
        ResponseShapeModel::Created(t) => spec_ts_type(t),
        ResponseShapeModel::Stream(t) => spec_ts_type(t),
    }
}

/// A response's success type is the TypeScript type of what it carries,
/// whether it is sent as JSON, as a created resource or as a stream: the
/// three agree, a type that is no primitive is named as it is, and only an
/// empty response succeeds with `void`.
pub proof fn lemma_response_types(t: RefModel)
    ensures
        spec_response_type(ResponseShapeModel::Created(t)) == spec_response_type(ResponseShapeModel::Json(t)),
        spec_response_type(ResponseShapeModel::Stream(t)) == spec_response_type(ResponseShapeModel::Json(t)),
        spec_response_type(ResponseShapeModel::Json(t)) == spec_ts_type(t),
        spec_primitive_from_name(t.name) is None ==> spec_response_type(ResponseShapeModel::Created(t)) == t.name,
        spec_response_type(ResponseShapeModel::Empty) == "void"@,
{
}

/// Renders the TypeScript type of a response's success value.
pub fn render_response_type(response: &ResponseShape) -> (r: String)
    ensures
        r@ == spec_response_type(response@),
{
    match response {
        ResponseShape::Empty => "void".to_owned(),
        ResponseShape::Json(t) => render_ts_type_ref(t),
        ResponseShape::Created(t) => render_ts_type_ref(t),
        ResponseShape::Stream(t) => render_ts_type_ref(t),
    }
}

/// The declared error names of an endpoint, once each, in name order.
pub open spec fn spec_endpoint_error_names(e: EndpointModel) -> Seq<Seq<char>> {
    spec_sorted_set(e.errors.map_values(|r: RefModel| r.name))
}

/// The union of an endpoint's domain errors, or `never`.
pub open spec fn spec_domain_error_type(e: EndpointModel) -> Seq<char> {
    if spec_endpoint_error_names(e).len() == 0 {
        "never"@
    } else {
        join(spec_endpoint_error_names(e), " | "@)
    }
}

/// Renders the union of an endpoint's domain errors.
pub fn render_endpoint_domain_error_type(endpoint: &Endpoint) -> (r: String)
    ensures
        r@ == spec_domain_error_type(endpoint@),
{
    let mut names: Vec<String> = Vec::new();
    for i in 0..endpoint.errors.len()
        invariant
            names@.len() == i,
            forall|j: int| 0 <= j < i ==> #[trigger] names@[j]@ == endpoint.errors@[j].name@,
    {
        names.push(endpoint.errors[i].name.clone());
    }
    assert(strings_view(names@) =~= endpoint@.errors.map_values(|r: RefModel| r.name));
    let names = sorted_unique_strings(names);
    if names.len() == 0 {
        "never".to_owned()
    } else {
        let joined = join_strings(&names, " | ");
        assert(names@.map_values(|s: String| s@) =~= strings_view(names@));
        joined
    }
}

/// The error channel of an endpoint's effect.
pub open spec fn spec_error_type(e: EndpointModel) -> Seq<char> {
    if spec_domain_error_type(e) == "never"@ {
        "ApiClientError"@
    } else {
        "ApiClientError | "@ + spec_domain_error_type(e)
    }
}

/// Renders the error channel of an endpoint's effect.
pub fn render_endpoint_error_type(endpoint: &Endpoint) -> (r: String)
    ensures
        r@ == spec_error_type(endpoint@),
{
    let domain = render_endpoint_domain_error_type(endpoint);
    if str_eq(domain.as_str(), "never") {
        return "ApiClientError".to_owned();
    }
    let mut out = "ApiClientError | ".to_owned();
    push_str(&mut out, domain.as_str());
    out
}

/// The result type of an endpoint accessor with the given requirements.
pub open spec fn spec_return_type(e: EndpointModel, requirements: Seq<char>) -> Seq<char> {
    let body = spec_response_type(e.response) + ", "@ + spec_error_type(e) + ", "@ + requirements
        + ">"@;
    if e.response is Stream {
        "Stream.Stream<"@ + body
    } else {
        "Effect.Effect<"@ + body
    }
}

/// Renders the result type of an endpoint accessor.
pub fn render_endpoint_return_type(endpoint: &Endpoint, requirements: &str) -> (r: String)
    ensures
        r@ == spec_return_type(endpoint@, requirements@),
{
    let success = render_response_type(&endpoint.response);
    let error = render_endpoint_error_type(endpoint);
    let mut out = match &endpoint.response {
        ResponseShape::Stream(_) => "Stream.Stream<".to_owned(),
        _ => "Effect.Effect<".to_owned(),
    };
    push_str(&mut out, success.as_str());
    push_str(&mut out, ", ");
    push_str(&mut out, error.as_str());
    push_str(&mut out, ", ");
    push_str(&mut out, requirements);
    push_str(&mut out, ">");
    out
}

/// Whether a field may be absent.
pub open spec fn spec_is_optional(o: Optionality) -> bool {
    o == Optionality::Optional || o == Optionality::OptionalNullable
}

/// Whether a field may be null.
pub open spec fn spec_is_nullable(o: Optionality) -> bool {
    o == Optionality::Nullable || o == Optionality::OptionalNullable
}

/// The TypeScript type of an argument field.
pub open spec fn spec_arg_field_type(f: FieldModel) -> Seq<char> {
    if spec_is_nullable(f.optionality) {
        spec_ts_type(f.type_ref) + " | null"@
    } else {
        spec_ts_type(f.type_ref)
    }
}

/// Renders the TypeScript type of an argument field.
pub fn render_endpoint_arg_field_type(field: &Field) -> (r: String)
    ensures
        r@ == spec_arg_field_type(field@),
{
    let mut field_type = render_ts_type_ref(&field.type_ref);
    match field.optionality {
        Optionality::Nullable | Optionality::OptionalNullable => push_str(&mut field_type, " | null"),
        _ => {},
    }
    field_type
}

/// One readonly property of an argument interface.
pub open spec fn spec_arg_line(f: FieldModel) -> Seq<char> {
    "    readonly "@ + spec_property_key(f.ts_name) + (if spec_is_optional(f.optionality) {
        "?"@
    } else {
        Seq::empty()
    }) + ": "@ + spec_arg_field_type(f) + ";\n"@
}

/// The body property of an argument interface, when there is a body.
pub open spec fn spec_body_line(body: Option<RefModel>) -> Seq<char> {
    match body {
        Some(t) => "    readonly body: "@ + spec_ts_type(t) + ";\n"@,
        None => Seq::empty(),
    }
}

/// The body of an argument interface.
pub open spec fn spec_args_body(r: crate::ir::RequestShapeModel) -> Seq<char> {
    if r.path_params.len() == 0 && r.query_params.len() == 0 && r.body is None {
        " {}\n"@
    } else {
        " {\n"@ + concat_map(r.path_params, |f: FieldModel| spec_arg_line(f)) + concat_map(
            r.query_params,
            |f: FieldModel| spec_arg_line(f),
        ) + spec_body_line(r.body) + "  }\n"@
    }
}

/// The argument interface of an endpoint.
pub open spec fn spec_args_interface(e: EndpointModel) -> Seq<char> {
    "  export interface "@ + spec_args_name(e) + spec_args_body(e.request)
}

broadcast use crate::gen::writer::lemma_marked_push;

/// The marks of argument lines: each field's property key, as `kind`.
pub open spec fn spec_arg_marks(fs: Seq<FieldModel>, kind: Seq<char>) -> Seq<MarkSpec>
    decreases fs.len(),
{
    if fs.len() == 0 {
        Seq::empty()
    } else {
        spec_arg_marks(fs.drop_last(), kind).push(mark_spec(fs.last().id, kind, spec_property_key(fs.last().ts_name)))
    }
}

/// The marks of an argument interface: route parameters, then query
/// parameters.
pub open spec fn spec_args_marks(r: crate::ir::RequestShapeModel) -> Seq<MarkSpec> {
    spec_arg_marks(r.path_params, "routeParam"@) + spec_arg_marks(r.query_params, "queryParam"@)
}

/// The marks of an endpoint's route metadata and accessor: the route's
/// name, then the accessor's name where it is declared and where it is used.
pub open spec fn spec_accessor_marks(e: EndpointModel) -> Seq<MarkSpec> {
    seq![
        mark_spec(e.id, "endpoint"@, spec_function_name(e) + "Route"@),
        mark_spec(e.id, "endpoint"@, spec_function_name(e)),
        mark_spec(e.id, "endpoint"@, spec_function_name(e)),
    ]
}

/// The marks of everything generated for one endpoint.
pub open spec fn spec_endpoint_marks(e: EndpointModel) -> Seq<MarkSpec> {
    spec_args_marks(e.request) + spec_accessor_marks(e)
}

/// The marks of a list of endpoints, in order.
pub open spec fn spec_endpoint_list_marks(es: Seq<EndpointModel>) -> Seq<MarkSpec>
    decreases es.len(),
{
    if es.len() == 0 {
        Seq::empty()
    } else {
        spec_endpoint_list_marks(es.drop_last()) + spec_endpoint_marks(es.last())
    }
}

/// The marks of `endpoints.ts`: the endpoints in namespace and name order.
pub open spec fn spec_endpoints_marks(c: ApiContractModel) -> Seq<MarkSpec> {
    spec_endpoint_list_marks(spec_sort(c.endpoints, endpoint_order()))
}

#[verifier::rlimit(40)]
fn write_arg_line(writer: &mut TrackedWriter, field: &Field, kind: &str)
    requires
        old(writer).wf(),
    ensures
        final(writer).grew(old(writer), spec_arg_line(field@)),
        final(writer).marked(*old(writer), seq![mark_spec(field@.id, kind@, spec_property_key(field@.ts_name))]),
{
    let ghost before = writer.contents@;
    proof {
        lemma_marked_refl(*writer);
    }
    let key = render_property_key(field.ts_name.as_str());
    let field_type = render_endpoint_arg_field_type(field);
    writer.push("    readonly ");
    let ghost wa = *writer;
    writer.push_marked(&field.id, kind, key.as_str());
    proof {
        lemma_marked_trans(*old(writer), Seq::empty(), wa, seq![mark_spec(field@.id, kind@, spec_property_key(field@.ts_name))], *writer);
    }
    let ghost keyed = writer.contents@;
    match field.optionality {
        Optionality::Optional | Optionality::OptionalNullable => writer.push("?"),
        _ => {
            assert(writer.contents@ =~= keyed + Seq::<char>::empty());
        },
    }
    writer.push(": ");
    writer.push(field_type.as_str());
    writer.push(";\n");
    assert(writer.contents@ =~= before + spec_arg_line(field@));
    assert(Seq::<MarkSpec>::empty() + seq![mark_spec(field@.id, kind@, spec_property_key(field@.ts_name))]
        =~= seq![mark_spec(field@.id, kind@, spec_property_key(field@.ts_name))]);
}

#[verifier::rlimit(40)]
fn write_arg_lines(writer: &mut TrackedWriter, fields: &Vec<Field>, kind: &str)
    requires
        old(writer).wf(),
    ensures
        final(writer).grew(
            old(writer),
            concat_map(fields_view(fields@), |f: FieldModel| spec_arg_line(f)),
        ),
        final(writer).marked(*old(writer), spec_arg_marks(fields_view(fields@), kind@)),
{
    let ghost fs = fields_view(fields@);
    let ghost line = |f: FieldModel| spec_arg_line(f);
    let ghost base = writer.contents@;
    let ghost w0 = *writer;
    proof {
        lemma_marked_refl(w0);
        assert(fs.take(0) =~= Seq::<FieldModel>::empty());
    }
    for i in 0..fields.len()
        invariant
            fs == fields_view(fields@),
            line == (|f: FieldModel| spec_arg_line(f)),
            w0 == *old(writer),
            writer.wf(),
            writer.path@ == old(writer).path@,
            writer.contents@ == base + concat_map(fs.take(i as int), line),
            writer.marked(w0, spec_arg_marks(fs.take(i as int), kind@)),
    {
        proof {
            lemma_concat_map_step(fs, line, i as int);
        }
        let ghost wa = *writer;
        write_arg_line(writer, &fields[i], kind);
        proof {
            lemma_marked_trans(w0, spec_arg_marks(fs.take(i as int), kind@), wa, seq![
                mark_spec(fields@[i as int]@.id, kind@, spec_property_key(fields@[i as int]@.ts_name)),
            ], *writer);
        }
        assert(fs.take(i + 1).drop_last() =~= fs.take(i as int));
        assert(spec_arg_marks(fs.take(i + 1), kind@) =~= spec_arg_marks(fs.take(i as int), kind@) + seq![
            mark_spec(fields@[i as int]@.id, kind@, spec_property_key(fields@[i as int]@.ts_name)),
        ]);
    }
    assert(fs.take(fields@.len() as int) =~= fs);
    proof {
        lemma_take_all(fs);
    }
}

#[verifier::rlimit(40)]
fn write_args_body(writer: &mut TrackedWriter, request: &crate::ir::RequestShape)
    requires
        old(writer).wf(),
    ensures
        final(writer).grew(old(writer), spec_args_body(request@)),
        final(writer).marked(*old(writer), spec_args_marks(request@)),
{
    let ghost start = writer.contents@;
    proof {
        lemma_marked_refl(*writer);
    }
    if request.path_params.len() == 0 && request.query_params.len() == 0 && request.body.is_none() {
        writer.push(" {}\n");
        assert(request@.path_params =~= Seq::<FieldModel>::empty());
        assert(request@.query_params =~= Seq::<FieldModel>::empty());
        assert(spec_args_marks(request@) =~= Seq::<MarkSpec>::empty());
        return;
    }
    writer.push(" {\n");
    let ghost wa = *writer;
    write_arg_lines(writer, &request.path_params, "routeParam");
    proof {
        lemma_marked_trans(*old(writer), Seq::empty(), wa, spec_arg_marks(request@.path_params, "routeParam"@), *writer);
    }
    let ghost wb = *writer;
    write_arg_lines(writer, &request.query_params, "queryParam");
    proof {
        lemma_marked_trans(*old(writer), Seq::<MarkSpec>::empty() + spec_arg_marks(request@.path_params, "routeParam"@), wb, spec_arg_marks(request@.query_params, "queryParam"@), *writer);
    }
    let ghost params = writer.contents@;
    match &request.body {
        Some(body) => {
            let body_type = render_ts_type_ref(body);
            writer.push("    readonly body: ");
            writer.push(body_type.as_str());
            writer.push(";\n");
        },
        None => {},
    }
    assert(writer.contents@ =~= params + spec_body_line(request@.body));
    writer.push("  }\n");
    assert(writer.contents@ =~= start + spec_args_body(request@));
    assert(Seq::<MarkSpec>::empty() + spec_arg_marks(request@.path_params, "routeParam"@) + spec_arg_marks(
        request@.query_params,
        "queryParam"@,
    ) =~= spec_args_marks(request@));
}

/// Writes the argument interface of an endpoint, marking its parameters.
#[verifier::rlimit(40)]
pub fn write_tracked_endpoint_args(writer: &mut TrackedWriter, endpoint: &Endpoint)
    requires
        old(writer).wf(),
    ensures
        final(writer).grew(old(writer), spec_args_interface(endpoint@)),
        final(writer).marked(*old(writer), spec_args_marks(endpoint@.request)),
{
    let ghost start = writer.contents@;
    proof {
        lemma_marked_refl(*writer);
    }
    let args_name = endpoint_args_name(endpoint);
    writer.push("  export interface ");
    writer.push(args_name.as_str());
    let ghost wa = *writer;
    write_args_body(writer, &endpoint.request);
    proof {
        lemma_marked_trans(*old(writer), Seq::empty(), wa, spec_args_marks(endpoint@.request), *writer);
    }
    assert(writer.contents@ =~= start + spec_args_interface(endpoint@));
    assert(Seq::<MarkSpec>::empty() + spec_args_marks(endpoint@.request) =~= spec_args_marks(endpoint@.request));
}

/// The route metadata of an endpoint, up to the accessor's name.
pub open spec fn spec_endpoint_route(e: EndpointModel, f: Seq<char>) -> Seq<char> {
    "\n  export const "@ + f + "Route"@ + " = {\n    method: "@ + spec_ts_string(
        spec_method_name(e.method),
    ) + ",\n    path: "@ + spec_ts_string(e.route) + ",\n    transport: "@ + spec_ts_string(
        spec_transport_name(e.transport),
    ) + ",\n  } as const\n\n  export const "@
}

/// The accessor of an endpoint, from its name on.
pub open spec fn spec_endpoint_function(e: EndpointModel, f: Seq<char>) -> Seq<char> {
    f + " = (\n    args: "@ + spec_args_name(e) + "\n  ): "@ + spec_return_type(e, "ServerApi"@)
        + " =>\n    ServerApi.use((api) => api."@ + spec_namespace(e) + "."@ + f + "(args))\n\n"@
}

/// The route metadata and accessor of an endpoint, after its arguments.
pub open spec fn spec_endpoint_accessor(e: EndpointModel) -> Seq<char> {
    spec_endpoint_route(e, spec_function_name(e)) + spec_endpoint_function(e, spec_function_name(e))
}

/// Everything generated for one endpoint inside its namespace.
#[verifier::opaque]
pub open spec fn spec_endpoint_text(e: EndpointModel) -> Seq<char> {
    spec_args_interface(e) + spec_endpoint_accessor(e)
}

#[verifier::rlimit(40)]
fn write_endpoint_route(writer: &mut TrackedWriter, endpoint: &Endpoint, function_name: &String)
    requires
        old(writer).wf(),
        function_name@ == spec_function_name(endpoint@),
    ensures
        final(writer).grew(old(writer), spec_endpoint_route(endpoint@, function_name@)),
        final(writer).marked(*old(writer), seq![mark_spec(endpoint@.id, "endpoint"@, function_name@ + "Route"@)]),
{
    let ghost start = writer.contents@;
    proof {
        lemma_marked_refl(*writer);
    }
    let mut route_name = function_name.clone();
    push_str(&mut route_name, "Route");
    let method = ts_string(endpoint.method.as_str());
    let path = ts_string(endpoint.route.0.as_str());
    let transport = ts_string(render_transport(endpoint.transport));
    writer.push("\n  export const ");
    let ghost wa = *writer;
    writer.push_marked(&endpoint.id, "endpoint", route_name.as_str());
    proof {
        lemma_marked_trans(*old(writer), Seq::empty(), wa, seq![mark_spec(endpoint@.id, "endpoint"@, route_name@)], *writer);
    }
    let mut tail = String::new();
    push_str(&mut tail, " = {\n    method: ");
    push_str(&mut tail, method.as_str());
    push_str(&mut tail, ",\n    path: ");
    push_str(&mut tail, path.as_str());
    push_str(&mut tail, ",\n    transport: ");
    push_str(&mut tail, transport.as_str());
    push_str(&mut tail, ",\n  } as const\n\n  export const ");
    writer.push(tail.as_str());
    assert(writer.contents@ =~= start + spec_endpoint_route(endpoint@, function_name@));
    assert(Seq::<MarkSpec>::empty() + seq![mark_spec(endpoint@.id, "endpoint"@, route_name@)] =~= seq![
        mark_spec(endpoint@.id, "endpoint"@, function_name@ + "Route"@),
    ]);
}

#[verifier::rlimit(40)]
fn write_endpoint_function(writer: &mut TrackedWriter, endpoint: &Endpoint, function_name: &String)
    requires
        old(writer).wf(),
        function_name@ == spec_function_name(endpoint@),
    ensures
        final(writer).grew(old(writer), spec_endpoint_function(endpoint@, function_name@)),
        final(writer).marked(
            *old(writer),
            seq![
                mark_spec(endpoint@.id, "endpoint"@, function_name@),
                mark_spec(endpoint@.id, "endpoint"@, function_name@),
            ],
        ),
{
    let ghost start = writer.contents@;
    proof {
        lemma_marked_refl(*writer);
    }
    let args_name = endpoint_args_name(endpoint);
    let namespace = endpoint_namespace(endpoint);
    let return_type = render_endpoint_return_type(endpoint, "ServerApi");
    let ghost wa = *writer;
    writer.push_marked(&endpoint.id, "endpoint", function_name.as_str());
    proof {
        lemma_marked_trans(*old(writer), Seq::empty(), wa, seq![mark_spec(endpoint@.id, "endpoint"@, function_name@)], *writer);
    }
    writer.push(" = (\n    args: ");
    writer.push(args_name.as_str());
    writer.push("\n  ): ");
    writer.push(return_type.as_str());
    writer.push(" =>\n    ServerApi.use((api) => api.");
    writer.push(namespace.as_str());
    writer.push(".");
    let ghost wb = *writer;
    writer.push_marked(&endpoint.id, "endpoint", function_name.as_str());
    proof {
        lemma_marked_trans(*old(writer), Seq::<MarkSpec>::empty() + seq![mark_spec(endpoint@.id, "endpoint"@, function_name@)], wb, seq![mark_spec(endpoint@.id, "endpoint"@, function_name@)], *writer);
    }
    writer.push("(args))\n\n");
    assert(writer.contents@ =~= start + spec_endpoint_function(endpoint@, function_name@));
    assert(Seq::<MarkSpec>::empty() + seq![mark_spec(endpoint@.id, "endpoint"@, function_name@)] + seq![
        mark_spec(endpoint@.id, "endpoint"@, function_name@),
    ] =~= seq![
        mark_spec(endpoint@.id, "endpoint"@, function_name@),
        mark_spec(endpoint@.id, "endpoint"@, function_name@),
    ]);
}

/// Writes the argument interface, route metadata and accessor of an
/// endpoint, marking its names.
#[verifier::rlimit(100)]
pub fn write_tracked_endpoint(writer: &mut TrackedWriter, endpoint: &Endpoint)
    requires
        old(writer).wf(),
    ensures
        final(writer).grew(old(writer), spec_endpoint_text(endpoint@)),
        final(writer).marked(*old(writer), spec_endpoint_marks(endpoint@)),
{
    let ghost start = writer.contents@;
    write_tracked_endpoint_args(writer, endpoint);
    let ghost wa = *writer;
    write_endpoint_accessor(writer, endpoint);
    proof {
        lemma_marked_trans(*old(writer), spec_args_marks(endpoint@.request), wa, spec_accessor_marks(endpoint@), *writer);
    }
    proof {
        reveal(spec_endpoint_text);
    }
    assert(writer.contents@ =~= start + spec_endpoint_text(endpoint@));
}

#[verifier::rlimit(100)]
fn write_endpoint_accessor(writer: &mut TrackedWriter, endpoint: &Endpoint)
    requires
        old(writer).wf(),
    ensures
        final(writer).grew(old(writer), spec_endpoint_accessor(endpoint@)),
        final(writer).marked(*old(writer), spec_accessor_marks(endpoint@)),
{
    let ghost start = writer.contents@;
    proof {
        lemma_marked_refl(*writer);
    }
    let function_name = endpoint_function_name(endpoint);
    let ghost wa = *writer;
    write_endpoint_route(writer, endpoint, &function_name);
    proof {
        lemma_marked_trans(*old(writer), Seq::empty(), wa, seq![mark_spec(endpoint@.id, "endpoint"@, function_name@ + "Route"@)], *writer);
    }
    let ghost wb = *writer;
    write_endpoint_function(writer, endpoint, &function_name);
    proof {
        lemma_marked_trans(*old(writer), Seq::<MarkSpec>::empty() + seq![mark_spec(endpoint@.id, "endpoint"@, function_name@ + "Route"@)], wb, seq![
            mark_spec(endpoint@.id, "endpoint"@, function_name@),
            mark_spec(endpoint@.id, "endpoint"@, function_name@),
        ], *writer);
    }
    assert(Seq::<MarkSpec>::empty() + seq![
        mark_spec(endpoint@.id, "endpoint"@, function_name@ + "Route"@),
    ] + seq![
        mark_spec(endpoint@.id, "endpoint"@, function_name@),
        mark_spec(endpoint@.id, "endpoint"@, function_name@),
    ] =~= spec_accessor_marks(endpoint@));
    assert(writer.contents@ =~= start + spec_endpoint_accessor(endpoint@));
}

/// The name of a referenced type when it is not a primitive.
pub open spec fn spec_ref_import(t: RefModel) -> Seq<Seq<char>> {
    if spec_primitive_from_name(t.name) is None {
        seq![t.name]
    } else {
        Seq::empty()
    }
}

/// The schema names a request refers to.
pub open spec fn spec_request_imports(r: crate::ir::RequestShapeModel) -> Seq<Seq<char>> {
    spec_field_imports(r.path_params) + spec_field_imports(r.query_params) + match r.body {
        Some(t) => spec_ref_import(t),
        None => Seq::empty(),
    }
}

/// The schema names a response refers to.
pub open spec fn spec_response_imports(r: ResponseShapeModel) -> Seq<Seq<char>> {
    match r {
        ResponseShapeModel::Empty => Seq::empty(),
        ResponseShapeModel::Json(t) => spec_ref_import(t),
        ResponseShapeModel::Created(t) => spec_ref_import(t),
        ResponseShapeModel::Stream(t) => spec_ref_import(t),
    }
}

/// The schema names the endpoints `es` refer to, in order.
pub open spec fn spec_endpoint_type_imports(es: Seq<EndpointModel>) -> Seq<Seq<char>>
    decreases es.len(),
{
    if es.len() == 0 {
        Seq::empty()
    } else {
        spec_endpoint_type_imports(es.drop_last()) + spec_request_imports(es.last().request)
            + spec_response_imports(es.last().response)
    }
}

fn push_type_ref_import(names: &mut Vec<String>, type_ref: &TypeRef)
    ensures
        strings_view(final(names)@) == strings_view(old(names)@) + spec_ref_import(type_ref@),
{
    let ghost before = names@;
    if primitive_from_type_ref(type_ref).is_none() {
        names.push(type_ref.name.clone());
        assert(strings_view(names@) =~= strings_view(before) + spec_ref_import(type_ref@));
    } else {
        assert(strings_view(names@) =~= strings_view(before) + spec_ref_import(type_ref@));
    }
}

/// Appends the schema names a request refers to.
pub fn collect_request_type_imports(request: &crate::ir::RequestShape, names: &mut Vec<String>)
    ensures
        strings_view(final(names)@) == strings_view(old(names)@) + spec_request_imports(request@),
{
    let ghost start = strings_view(names@);
    push_field_imports(names, &request.path_params);
    push_field_imports(names, &request.query_params);
    let ghost mid = strings_view(names@);
    match &request.body {
        Some(body) => push_type_ref_import(names, body),
        None => {
            assert(strings_view(names@) =~= mid + Seq::<Seq<char>>::empty());
        },
    }
    assert(strings_view(names@) =~= start + spec_request_imports(request@));
}

/// Appends the schema names a response refers to.
pub fn collect_response_type_imports(response: &ResponseShape, names: &mut Vec<String>)
    ensures
        strings_view(final(names)@) == strings_view(old(names)@) + spec_response_imports(response@),
{
    match response {
        ResponseShape::Empty => {
            assert(strings_view(names@) =~= strings_view(names@) + Seq::<Seq<char>>::empty());
        },
        ResponseShape::Json(t) => push_type_ref_import(names, t),
        ResponseShape::Created(t) => push_type_ref_import(names, t),
        ResponseShape::Stream(t) => push_type_ref_import(names, t),
    }
}

/// The schema names that the endpoints of a contract refer to, once each,
/// in name order.
pub fn collect_endpoint_schema_imports(contract: &ApiContract) -> (r: Vec<String>)
    ensures
        strings_view(r@) == spec_sorted_set(spec_endpoint_type_imports(contract@.endpoints)),
{
    let ghost es = contract@.endpoints;
    let mut names: Vec<String> = Vec::new();
    for i in 0..contract.endpoints.len()
        invariant
            es == contract@.endpoints,
            strings_view(names@) == spec_endpoint_type_imports(es.take(i as int)),
    {
        assert(es.take(i + 1).drop_last() =~= es.take(i as int));
        collect_request_type_imports(&contract.endpoints[i].request, &mut names);
        collect_response_type_imports(&contract.endpoints[i].response, &mut names);
        assert(strings_view(names@) =~= spec_endpoint_type_imports(es.take(i + 1)));
    }
    assert(es.take(contract.endpoints@.len() as int) =~= es);
    sorted_unique_strings(names)
}

/// The declared error names of the endpoints `es`, in order.
pub open spec fn spec_endpoint_errors(es: Seq<EndpointModel>) -> Seq<Seq<char>>
    decreases es.len(),
{
    if es.len() == 0 {
        Seq::empty()
    } else {
        spec_endpoint_errors(es.drop_last()) + es.last().errors.map_values(|r: RefModel| r.name)
    }
}

/// The error names that `endpoints.ts` imports: the client error union and
/// every declared endpoint error, once each, in name order.
pub fn collect_endpoint_error_imports(contract: &ApiContract) -> (r: Vec<String>)
    ensures
        strings_view(r@) == spec_sorted_set(
            seq!["ApiClientError"@] + spec_endpoint_errors(contract@.endpoints),
        ),
{
    let ghost es = contract@.endpoints;
    let mut names: Vec<String> = Vec::new();
    names.push("ApiClientError".to_owned());
    for i in 0..contract.endpoints.len()
        invariant
            es == contract@.endpoints,
            strings_view(names@) == seq!["ApiClientError"@] + spec_endpoint_errors(es.take(i as int)),
    {
        assert(es.take(i + 1).drop_last() =~= es.take(i as int));
        let errors = &contract.endpoints[i].errors;
        let ghost base = strings_view(names@);
        for j in 0..errors.len()
            invariant
                strings_view(names@) == base + errors@.take(j as int).map_values(|r: crate::ir::ErrorRef| r@.name),
        {
            let ghost before = names@;
            names.push(errors[j].name.clone());
            assert(errors@.take(j + 1).map_values(|r: crate::ir::ErrorRef| r@.name) =~= errors@.take(j as int).map_values(
                |r: crate::ir::ErrorRef| r@.name,
            ).push(errors@[j as int]@.name));
            assert(strings_view(names@) =~= strings_view(before).push(errors@[j as int].name@));
        }
        assert(errors@.take(errors@.len() as int).map_values(|r: crate::ir::ErrorRef| r@.name) =~= es[i as int].errors.map_values(
            |r: RefModel| r.name,
        ));
        assert(strings_view(names@) =~= seq!["ApiClientError"@] + spec_endpoint_errors(es.take(i + 1)));
    }
    assert(es.take(contract.endpoints@.len() as int) =~= es);
    sorted_unique_strings(names)
}

/// Whether some endpoint of `es` streams its response.
pub open spec fn spec_has_stream(es: Seq<EndpointModel>) -> bool {
    exists|i: int| 0 <= i < es.len() && (#[trigger] es[i]).response is Stream
}

/// Whether some endpoint of the contract streams its response.
pub fn contract_has_stream_endpoints(contract: &ApiContract) -> (r: bool)
    ensures
        r == spec_has_stream(contract@.endpoints),
{
    for i in 0..contract.endpoints.len()
        invariant
            forall|j: int| 0 <= j < i ==> !((#[trigger] contract@.endpoints[j]).response is Stream),
    {
        if let ResponseShape::Stream(_) = &contract.endpoints[i].response {
            assert(contract@.endpoints[i as int].response is Stream);
            return true;
        }
    }
    false
}

/// Endpoints are ordered by namespace, accessor name, then id.
pub open spec fn endpoint_lt(a: EndpointModel, b: EndpointModel) -> bool {
    let (na, nb) = (spec_namespace(a), spec_namespace(b));
    let (fa, fb) = (spec_function_name(a), spec_function_name(b));
    seq_lt(na, nb) || (na == nb && (seq_lt(fa, fb) || (fa == fb && seq_lt(a.id, b.id))))
}

/// The order in which endpoints are rendered.
pub open spec fn endpoint_order() -> spec_fn(EndpointModel, EndpointModel) -> bool {
    |a: EndpointModel, b: EndpointModel| endpoint_lt(a, b)
}

/// Compares two endpoints by namespace, accessor name, then id.
pub fn endpoint_key_lt(a: &Endpoint, b: &Endpoint) -> (r: bool)
    ensures
        r == endpoint_lt(a@, b@),
{
    let na = endpoint_namespace(a);
    let nb = endpoint_namespace(b);
    if str_lt(na.as_str(), nb.as_str()) {
        return true;
    }
    if !str_eq(na.as_str(), nb.as_str()) {
        return false;
    }
    let fa = endpoint_function_name(a);
    let fb = endpoint_function_name(b);
    str_lt(fa.as_str(), fb.as_str()) || (str_eq(fa.as_str(), fb.as_str()) && str_lt(
        a.id.as_str(),
        b.id.as_str(),
    ))
}

/// The indices of `endpoints` in rendering order.
pub fn sorted_endpoint_indices(endpoints: &Vec<Endpoint>) -> (r: Vec<usize>)
    ensures
        r@.len() == endpoints@.len(),
        forall|i: int| 0 <= i < r@.len() ==> #[trigger] r@[i] < endpoints@.len(),
        r@.map_values(|i: usize| endpoints_view(endpoints@)[i as int]) == spec_sort(
            endpoints_view(endpoints@),
            endpoint_order(),
        ),
{
    let lt = |a: &Endpoint, b: &Endpoint| -> (o: bool)
        ensures
            o == endpoint_lt(a@, b@),
        { endpoint_key_lt(a, b) };
    let r = sort_indices(endpoints, lt, Ghost(endpoint_order()));
    assert(r@.map_values(|i: usize| endpoints_view(endpoints@)[i as int]) =~= r@.map_values(
        |i: usize| endpoints@[i as int]@,
    ));
    r
}

/// The endpoints in order, each namespace opened before its first endpoint
/// and the previous one closed.
pub open spec fn spec_namespace_blocks(s: Seq<EndpointModel>) -> Seq<char>
    decreases s.len(),
{
    if s.len() == 0 {
        Seq::empty()
    } else {
        let e = s.last();
        let opener = if s.len() == 1 {
            "export namespace "@ + spec_namespace(e) + " {\n"@
        } else if spec_namespace(s[s.len() - 2]) != spec_namespace(e) {
            "}\n\nexport namespace "@ + spec_namespace(e) + " {\n"@
        } else {
            Seq::empty()
        };
        spec_namespace_blocks(s.drop_last()) + opener + spec_endpoint_text(e)
    }
}

/// The namespaced endpoint accessors, the last namespace closed.
pub open spec fn spec_endpoints_body(s: Seq<EndpointModel>) -> Seq<char> {
    spec_namespace_blocks(s) + if s.len() > 0 {
        "}\n"@
    } else {
        Seq::empty()
    }
}

/// What opens the namespace of the next endpoint, given the namespace of
/// the one before it.
pub open spec fn spec_opener(prev: Option<Seq<char>>, current: Seq<char>) -> Seq<char> {
    match prev {
        None => "export namespace "@ + current + " {\n"@,
        Some(p) => if p != current {
            "}\n\nexport namespace "@ + current + " {\n"@
        } else {
            Seq::empty()
        },
    }
}

/// The namespace of the endpoint before position `k`, if any.
pub open spec fn spec_prev_namespace(s: Seq<EndpointModel>, k: int) -> Option<Seq<char>> {
    if k == 0 {
        None
    } else {
        Some(spec_namespace(s[k - 1]))
    }
}

proof fn lemma_namespace_blocks_step(s: Seq<EndpointModel>, k: int)
    requires
        0 <= k < s.len(),
    ensures
        spec_namespace_blocks(s.take(k + 1)) == spec_namespace_blocks(s.take(k)) + spec_opener(
            spec_prev_namespace(s, k),
            spec_namespace(s[k]),
        ) + spec_endpoint_text(s[k]),
{
    let t = s.take(k + 1);
    assert(t.drop_last() =~= s.take(k));
    assert(t.last() == s[k]);
    if k > 0 {
        assert(t[t.len() - 2] == s[k - 1]);
    }
}

#[verifier::rlimit(40)]
fn write_opener(writer: &mut TrackedWriter, prev: &Option<String>, current: &String)
    requires
        old(writer).wf(),
    ensures
        final(writer).grew(
            old(writer),
            spec_opener(
                match prev {
                    Some(p) => Some(p@),
                    None => None,
                },
                current@,
            ),
        ),
        final(writer).marked(*old(writer), Seq::empty()),
{
    let ghost start = writer.contents@;
    proof {
        lemma_marked_refl(*writer);
    }
    let same = match prev {
        Some(p) => str_eq(p.as_str(), current.as_str()),
        None => false,
    };
    if same {
        assert(writer.contents@ =~= start + Seq::<char>::empty());
        return;
    }
    if prev.is_some() {
        writer.push("}\n\nexport namespace ");
    } else {
        writer.push("export namespace ");
    }
    writer.push(current.as_str());
    writer.push(" {\n");
    let ghost prev_view = match prev {
        Some(p) => Some(p@),
        None => None,
    };
    assert(writer.contents@ =~= start + spec_opener(prev_view, current@));
}

/// The banner and the Effect and service imports of `endpoints.ts`.
pub open spec fn spec_endpoints_preamble(c: ApiContractModel) -> Seq<char> {
    spec_banner(c.package_name) + spec_compat_import(
        if spec_has_stream(c.endpoints) {
            "Effect, Stream"@
        } else {
            "Effect"@
        },
    ) + "import { ServerApi } from \"./layer\"\n"@
}

/// The schema and error imports of `endpoints.ts`.
pub open spec fn spec_endpoints_imports(c: ApiContractModel) -> Seq<char> {
    let types = spec_sorted_set(spec_endpoint_type_imports(c.endpoints));
    let errors = spec_sorted_set(seq!["ApiClientError"@] + spec_endpoint_errors(c.endpoints));
    (if types.len() == 0 {
        Seq::empty()
    } else {
        "import type { "@ + join(types, ", "@) + " } from \"./schemas\"\n"@
    }) + "import type { "@ + join(errors, ", "@) + " } from \"./errors\"\n\n"@
}

/// The imports at the top of `endpoints.ts`.
pub open spec fn spec_endpoints_header(c: ApiContractModel) -> Seq<char> {
    spec_endpoints_preamble(c) + spec_endpoints_imports(c)
}

/// The unfinished contents of `endpoints.ts`.
pub open spec fn spec_endpoints_text(c: ApiContractModel) -> Seq<char> {
    spec_endpoints_header(c) + spec_endpoints_body(spec_sort(c.endpoints, endpoint_order()))
}

#[verifier::rlimit(40)]
fn write_endpoints_preamble(writer: &mut TrackedWriter, contract: &ApiContract)
    requires
        old(writer).wf(),
    ensures
        final(writer).grew(old(writer), spec_endpoints_preamble(contract@)),
        final(writer).marked(*old(writer), Seq::empty()),
{
    let ghost start = writer.contents@;
    proof {
        lemma_marked_refl(*writer);
    }
    let banner = render_package_banner(contract);
    writer.push(banner.as_str());
    let ghost wa = *writer;
    if contract_has_stream_endpoints(contract) {
        write_effect_compat_import(writer, "Effect, Stream");
    } else {
        write_effect_compat_import(writer, "Effect");
    }
    proof {
        lemma_marked_trans(*old(writer), Seq::empty(), wa, Seq::empty(), *writer);
        assert(Seq::<MarkSpec>::empty() + Seq::<MarkSpec>::empty() =~= Seq::<MarkSpec>::empty());
    }
    writer.push("import { ServerApi } from \"./layer\"\n");
    assert(writer.contents@ =~= start + spec_endpoints_preamble(contract@));
}

#[verifier::rlimit(40)]
fn write_endpoints_imports(writer: &mut TrackedWriter, contract: &ApiContract)
    requires
        old(writer).wf(),
    ensures
        final(writer).grew(old(writer), spec_endpoints_imports(contract@)),
        final(writer).marked(*old(writer), Seq::empty()),
{
    let ghost start = writer.contents@;
    proof {
        lemma_marked_refl(*writer);
    }
    let types = collect_endpoint_schema_imports(contract);
    assert(types@.map_values(|s: String| s@) =~= strings_view(types@));
    if types.len() > 0 {
        writer.push("import type { ");
        writer.push(join_strings(&types, ", ").as_str());
        writer.push(" } from \"./schemas\"\n");
    }
    let ghost typed = writer.contents@;
    let errors = collect_endpoint_error_imports(contract);
    assert(errors@.map_values(|s: String| s@) =~= strings_view(errors@));
    writer.push("import type { ");
    writer.push(join_strings(&errors, ", ").as_str());
    writer.push(" } from \"./errors\"\n\n");
    assert(writer.contents@ =~= start + spec_endpoints_imports(contract@));
}

#[verifier::rlimit(40)]
fn write_endpoints_header(writer: &mut TrackedWriter, contract: &ApiContract)
    requires
        old(writer).wf(),
    ensures
        final(writer).grew(old(writer), spec_endpoints_header(contract@)),
        final(writer).marked(*old(writer), Seq::empty()),
{
    let ghost start = writer.contents@;
    write_endpoints_preamble(writer, contract);
    let ghost wa = *writer;
    write_endpoints_imports(writer, contract);
    proof {
        lemma_marked_trans(*old(writer), Seq::empty(), wa, Seq::empty(), *writer);
        assert(Seq::<MarkSpec>::empty() + Seq::<MarkSpec>::empty() =~= Seq::<MarkSpec>::empty());
    }
    assert(writer.contents@ =~= start + spec_endpoints_header(contract@));
}

#[verifier::rlimit(40)]
fn write_namespace_blocks(
    writer: &mut TrackedWriter,
    endpoints: &Vec<Endpoint>,
    order: &Vec<usize>,
    Ghost(sorted): Ghost<Seq<EndpointModel>>,
) -> (opened: bool)
    requires
        old(writer).wf(),
        order@.len() == sorted.len(),
        forall|i: int| 0 <= i < order@.len() ==> #[trigger] order@[i] < endpoints@.len(),
        forall|i: int| 0 <= i < order@.len() ==> sorted[i] == #[trigger] endpoints@[order@[i] as int]@,
    ensures
        final(writer).grew(old(writer), spec_namespace_blocks(sorted)),
        final(writer).marked(*old(writer), spec_endpoint_list_marks(sorted)),
        opened == (sorted.len() > 0),
{
    let ghost base = writer.contents@;
    let ghost w0 = *writer;
    proof {
        lemma_marked_refl(w0);
        assert(sorted.take(0) =~= Seq::<EndpointModel>::empty());
    }
    let mut namespace: Option<String> = None;
    for k in 0..order.len()
        invariant
            order@.len() == sorted.len(),
            forall|i: int| 0 <= i < order@.len() ==> #[trigger] order@[i] < endpoints@.len(),
            forall|i: int| 0 <= i < order@.len() ==> sorted[i] == #[trigger] endpoints@[order@[i] as int]@,
            writer.wf(),
            writer.path@ == old(writer).path@,
            writer.contents@ == base + spec_namespace_blocks(sorted.take(k as int)),
            k == 0 ==> namespace is None,
            k > 0 ==> (namespace matches Some(n) && n@ == spec_namespace(sorted[k - 1])),
            w0 == *old(writer),
            writer.marked(w0, spec_endpoint_list_marks(sorted.take(k as int))),
    {
        let i = order[k];
        let endpoint = &endpoints[i];
        assert(sorted[k as int] == endpoint@);
        proof {
            lemma_namespace_blocks_step(sorted, k as int);
        }
        let current = endpoint_namespace(endpoint);
        let ghost wa = *writer;
        write_opener(writer, &namespace, &current);
        proof {
            lemma_marked_trans(w0, spec_endpoint_list_marks(sorted.take(k as int)), wa, Seq::empty(), *writer);
            assert(spec_endpoint_list_marks(sorted.take(k as int)) + Seq::<MarkSpec>::empty() =~= spec_endpoint_list_marks(sorted.take(k as int)));
        }
        namespace = Some(current);
        let ghost wb = *writer;
        write_tracked_endpoint(writer, endpoint);
        proof {
            lemma_marked_trans(w0, spec_endpoint_list_marks(sorted.take(k as int)), wb, spec_endpoint_marks(endpoint@), *writer);
            assert(sorted.take(k + 1).drop_last() =~= sorted.take(k as int));
            assert(sorted.take(k + 1).last() == endpoint@);
        }
    }
    assert(sorted.take(order@.len() as int) =~= sorted);
    namespace.is_some()
}

/// Writes `endpoints.ts`: every endpoint accessor, grouped by namespace.
pub fn render_tracked_endpoints(contract: &ApiContract) -> (r: TrackedFile)
    ensures
        r.file.path@ == "endpoints.ts"@,
        r.file.contents@ == spec_trim_blank_lines(spec_endpoints_text(contract@)),
        crate::gen::writer::file_marks(
            crate::gen::writer::marks_view(r.marks@),
            r.file.path@,
            r.file.contents@,
            spec_endpoints_marks(contract@),
        ),
{
    let mut writer = TrackedWriter::new("endpoints.ts");
    let ghost w0 = writer;
    write_endpoints_header(&mut writer, contract);
    let order = sorted_endpoint_indices(&contract.endpoints);
    let ghost sorted = spec_sort(contract@.endpoints, endpoint_order());
    assert forall|i: int| 0 <= i < order@.len() implies sorted[i] == #[trigger] contract.endpoints@[order@[i] as int]@ by {
        assert(order@.map_values(|i: usize| endpoints_view(contract.endpoints@)[i as int])[i] == sorted[i]);
    }
    let ghost wa = writer;
    let opened = write_namespace_blocks(&mut writer, &contract.endpoints, &order, Ghost(sorted));
    proof {
        lemma_marked_trans(w0, Seq::empty(), wa, spec_endpoint_list_marks(sorted), writer);
        assert(Seq::<MarkSpec>::empty() + spec_endpoint_list_marks(sorted) =~= spec_endpoints_marks(contract@));
    }
    if opened {
        writer.push("}\n");
    }
    assert(writer.contents@ =~= spec_endpoints_text(contract@));
    let ghost wf = writer;
    let r = writer.into_tracked_file();
    proof {
        crate::gen::writer::lemma_file_marks(wf, w0, spec_endpoints_marks(contract@), r);
    }
    r
}

/// Renders generated endpoint accessors and route metadata.
pub fn render_endpoints(contract: &ApiContract) -> (r: String)
    ensures
        r@ == spec_trim_blank_lines(spec_endpoints_text(contract@)),
{
    render_tracked_endpoints(contract).file.contents
}

} // verus!
