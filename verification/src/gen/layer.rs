//! `layer.ts`: the `ServerApi` service tag, its interface, and the fetch
//! and mock layers.

use vstd::prelude::*;
use crate::gen::endpoints::{
    collect_endpoint_error_imports, collect_endpoint_schema_imports, contract_has_stream_endpoints,
    spec_endpoint_errors, spec_endpoint_type_imports, spec_has_stream,
    endpoint_order, sorted_endpoint_indices,
    endpoint_args_name, endpoint_function_name, endpoint_namespace, render_endpoint_domain_error_type,
    render_endpoint_return_type, render_response_type, spec_args_name, spec_domain_error_type,
    spec_function_name, spec_namespace, spec_response_type, spec_return_type,
};
use crate::gen::text::{render_property_key, spec_property_key, spec_ts_string, ts_string};
use crate::order::{sorted_unique_strings, spec_sort, spec_sorted_set};
use crate::ir::{
    ApiContract, ApiContractModel, endpoints_view, Endpoint, EndpointModel, Field, FieldModel, RefModel, RequestShape, RequestShapeModel,
    ResponseShape, ResponseShapeModel, Transport, fields_view, spec_method_name, strings_view,
};
use crate::gen::schemas::{render_package_banner, spec_banner, spec_compat_import, write_effect_compat_import};
use crate::gen::text::spec_trim_blank_lines;
use crate::gen::writer::{
    file_marks, lemma_file_marks, lemma_marked_refl, lemma_marked_trans, mark_spec, marks_view, MarkSpec,
    TrackedFile, TrackedWriter,
};
use crate::text::{concat_map, join, join_strings, lemma_concat_map_step, lemma_take_all, push_str};

verus! {

/// The runtime client constructor for an endpoint's transport.
pub open spec fn spec_client_helper(e: EndpointModel) -> Seq<char> {
    if e.transport == Transport::ServerSentEvents {
        "makeSseClient"@
    } else {
        "makeUnaryHttpClient"@
    }
}

/// The runtime client constructor for an endpoint's transport.
pub fn render_runtime_client_helper(endpoint: &Endpoint) -> (r: &'static str)
    ensures
        r@ == spec_client_helper(endpoint@),
{
    match endpoint.transport {
        Transport::ServerSentEvents => "makeSseClient",
        _ => "makeUnaryHttpClient",
    }
}

/// The decoder of a successful response.
pub open spec fn spec_success_decoder(r: ResponseShapeModel, helper: Seq<char>) -> Seq<char> {
    match r {
        ResponseShapeModel::Empty => "() => Effect.void"@,
        ResponseShapeModel::Json(t) => "(input) => "@ + helper + ".decode(input, "@ + t.name + ")"@,
        ResponseShapeModel::Created(t) => "(input) => "@ + helper + ".decode(input, "@ + t.name + ")"@,
        ResponseShapeModel::Stream(t) => "(input) => "@ + helper + ".decode(input, "@ + t.name + ")"@,
    }
}

fn render_decode(helper: &str, schema: &str) -> (r: String)
    ensures
        r@ == "(input) => "@ + helper@ + ".decode(input, "@ + schema@ + ")"@,
{
    let mut out = "(input) => ".to_owned();
    push_str(&mut out, helper);
    push_str(&mut out, ".decode(input, ");
    push_str(&mut out, schema);
    push_str(&mut out, ")");
    out
}

/// Renders the decoder of a successful response.
pub fn render_success_decoder(response: &ResponseShape, helper: &str) -> (r: String)
    ensures
        r@ == spec_success_decoder(response@, helper@),
{
    match response {
        ResponseShape::Empty => "() => Effect.void".to_owned(),
        ResponseShape::Json(t) => render_decode(helper, t.name.as_str()),
        ResponseShape::Created(t) => render_decode(helper, t.name.as_str()),
        ResponseShape::Stream(t) => render_decode(helper, t.name.as_str()),
    }
}

/// The branch of the domain error decoder for one declared error.
pub open spec fn spec_error_decoder_branch(n: Seq<char>, helper: Seq<char>, domain: Seq<char>) -> Seq<char> {
    "            const "@ + n + "Schema = "@ + n + "SchemaByStatus[status as keyof typeof "@ + n
        + "SchemaByStatus]\n"@ + "            if ("@ + n + "Schema !== undefined) {\n"@
        + "              return "@ + helper + ".decode(input, "@ + n
        + "Schema) as Effect.Effect<"@ + domain + ", ApiClientError>\n"@ + "            }\n"@
}

/// The decoder of an endpoint's domain errors by status.
pub open spec fn spec_error_decoder(e: EndpointModel, helper: Seq<char>) -> Seq<char> {
    if e.errors.len() == 0 {
        "() => undefined"@
    } else {
        "(status, input) => {\n"@ + concat_map(
            e.errors,
            |r: RefModel| spec_error_decoder_branch(r.name, helper, spec_domain_error_type(e)),
        ) + "            return undefined\n"@ + "          }"@
    }
}

#[verifier::rlimit(40)]
fn push_error_decoder_branch(out: &mut String, name: &str, helper: &str, domain: &str)
    ensures
        final(out)@ == old(out)@ + spec_error_decoder_branch(name@, helper@, domain@),
{
    let ghost start = out@;
    push_str(out, "            const ");
    push_str(out, name);
    push_str(out, "Schema = ");
    push_str(out, name);
    push_str(out, "SchemaByStatus[status as keyof typeof ");
    push_str(out, name);
    push_str(out, "SchemaByStatus]\n");
    push_str(out, "            if (");
    push_str(out, name);
    push_str(out, "Schema !== undefined) {\n");
    let ghost mid = out@;
    push_str(out, "              return ");
    push_str(out, helper);
    push_str(out, ".decode(input, ");
    push_str(out, name);
    push_str(out, "Schema) as Effect.Effect<");
    push_str(out, domain);
    push_str(out, ", ApiClientError>\n");
    push_str(out, "            }\n");
    assert(out@ =~= start + spec_error_decoder_branch(name@, helper@, domain@));
}

/// Renders the decoder of an endpoint's domain errors.
pub fn render_domain_error_decoder(endpoint: &Endpoint, helper: &str) -> (r: String)
    ensures
        r@ == spec_error_decoder(endpoint@, helper@),
{
    if endpoint.errors.len() == 0 {
        return "() => undefined".to_owned();
    }
    let domain = render_endpoint_domain_error_type(endpoint);
    let ghost es = endpoint@.errors;
    let ghost branch = |r: RefModel| spec_error_decoder_branch(r.name, helper@, domain@);
    let mut out = "(status, input) => {\n".to_owned();
    let ghost base = out@;
    for i in 0..endpoint.errors.len()
        invariant
            es == endpoint@.errors,
            branch == (|r: RefModel| spec_error_decoder_branch(r.name, helper@, domain@)),
            out@ == base + concat_map(es.take(i as int), branch),
    {
        proof {
            lemma_concat_map_step(es, branch, i as int);
        }
        push_error_decoder_branch(&mut out, endpoint.errors[i].name.as_str(), helper, domain.as_str());
    }
    proof {
        lemma_take_all(es);
    }
    push_str(&mut out, "            return undefined\n");
    push_str(&mut out, "          }");
    out
}

/// One `wire: args.key,` line of a request encoder.
pub open spec fn spec_encoder_field(f: FieldModel) -> Seq<char> {
    "              "@ + spec_property_key(f.wire_name) + ": args."@ + spec_property_key(f.ts_name)
        + ","@
}

/// The encoder lines of one parameter group, when it has parameters.
pub open spec fn spec_encoder_group(label: Seq<char>, fs: Seq<FieldModel>) -> Seq<Seq<char>> {
    if fs.len() == 0 {
        Seq::empty()
    } else {
        seq![label] + fs.map_values(|f: FieldModel| spec_encoder_field(f)) + seq!["            },"@]
    }
}

/// The lines of a request encoder.
pub open spec fn spec_encoder_lines(r: RequestShapeModel) -> Seq<Seq<char>> {
    spec_encoder_group("path: {"@, r.path_params) + spec_encoder_group("query: {"@, r.query_params)
        + if r.body is Some {
        seq!["body: args.body,"@]
    } else {
        Seq::empty()
    }
}

/// The encoder of a request into path, query and body.
pub open spec fn spec_request_encoder(r: RequestShapeModel, args_type: Seq<char>) -> Seq<char> {
    if spec_encoder_lines(r).len() == 0 {
        "() => ({})"@
    } else {
        "(args: "@ + args_type + ") => ({\n            "@ + join(
            spec_encoder_lines(r),
            "\n            "@,
        ) + "\n          })"@
    }
}

fn push_encoder_group(lines: &mut Vec<String>, label: &str, fields: &Vec<Field>)
    ensures
        strings_view(final(lines)@) == strings_view(old(lines)@) + spec_encoder_group(
            label@,
            fields_view(fields@),
        ),
{
    if fields.len() == 0 {
        assert(strings_view(lines@) =~= strings_view(lines@) + Seq::<Seq<char>>::empty());
        return;
    }
    let ghost fs = fields_view(fields@);
    let ghost start = strings_view(lines@);
    lines.push(label.to_owned());
    for i in 0..fields.len()
        invariant
            fs == fields_view(fields@),
            strings_view(lines@) == start + seq![label@] + fs.take(i as int).map_values(
                |f: FieldModel| spec_encoder_field(f),
            ),
    {
        let field = &fields[i];
        let mut line = "              ".to_owned();
        push_str(&mut line, render_property_key(field.wire_name.as_str()).as_str());
        push_str(&mut line, ": args.");
        push_str(&mut line, render_property_key(field.ts_name.as_str()).as_str());
        push_str(&mut line, ",");
        let ghost before = strings_view(lines@);
        lines.push(line);
        assert(strings_view(lines@) =~= before.push(spec_encoder_field(fs[i as int])));
        assert(fs.take(i + 1).map_values(|f: FieldModel| spec_encoder_field(f)) =~= fs.take(
            i as int,
        ).map_values(|f: FieldModel| spec_encoder_field(f)).push(spec_encoder_field(fs[i as int])));
    }
    assert(fs.take(fields@.len() as int) =~= fs);
    let ghost before = strings_view(lines@);
    lines.push("            },".to_owned());
    assert(strings_view(lines@) =~= before.push("            },"@));
    assert(strings_view(lines@) =~= start + spec_encoder_group(label@, fs));
}

/// Renders the encoder of a request.
pub fn render_request_encoder(request: &RequestShape, args_type: &str) -> (r: String)
    ensures
        r@ == spec_request_encoder(request@, args_type@),
{
    let mut lines: Vec<String> = Vec::new();
    push_encoder_group(&mut lines, "path: {", &request.path_params);
    push_encoder_group(&mut lines, "query: {", &request.query_params);
    let ghost before = strings_view(lines@);
    if request.body.is_some() {
        lines.push("body: args.body,".to_owned());
        assert(strings_view(lines@) =~= before.push("body: args.body,"@));
    }
    assert(strings_view(lines@) =~= spec_encoder_lines(request@));
    if lines.len() == 0 {
        return "() => ({})".to_owned();
    }
    let mut out = "(args: ".to_owned();
    push_str(&mut out, args_type);
    push_str(&mut out, ") => ({\n            ");
    assert(lines@.map_values(|s: String| s@) =~= strings_view(lines@));
    push_str(&mut out, join_strings(&lines, "\n            ").as_str());
    push_str(&mut out, "\n          })");
    out
}

/// Consecutive endpoints of `s` grouped by namespace.
pub open spec fn spec_groups(s: Seq<EndpointModel>) -> Seq<(Seq<char>, Seq<EndpointModel>)>
    decreases s.len(),
{
    if s.len() == 0 {
        Seq::empty()
    } else {
        let g = spec_groups(s.drop_last());
        let e = s.last();
        if g.len() > 0 && g.last().0 == spec_namespace(e) {
            g.update(g.len() - 1, (g.last().0, g.last().1.push(e)))
        } else {
            g.push((spec_namespace(e), seq![e]))
        }
    }
}

/// The models of groups of endpoint indices.
pub open spec fn groups_view(g: Seq<(String, Vec<usize>)>, eps: Seq<Endpoint>) -> Seq<
    (Seq<char>, Seq<EndpointModel>),
> {
    g.map_values(|p: (String, Vec<usize>)| (p.0@, p.1@.map_values(|i: usize| eps[i as int]@)))
}

/// Groups the endpoints of a contract by namespace, in rendering order;
/// each group lists indices into `contract.endpoints`.
pub fn group_endpoints_by_namespace(contract: &ApiContract) -> (r: Vec<(String, Vec<usize>)>)
    ensures
        groups_view(r@, contract.endpoints@) == spec_groups(
            spec_sort(contract@.endpoints, endpoint_order()),
        ),
        forall|g: int, j: int|
            0 <= g < r@.len() && 0 <= j < r@[g].1@.len() ==> #[trigger] r@[g].1@[j]
                < contract.endpoints@.len(),
{
    let eps = &contract.endpoints;
    let order = sorted_endpoint_indices(eps);
    let ghost sorted = spec_sort(contract@.endpoints, endpoint_order());
    assert forall|i: int| 0 <= i < order@.len() implies sorted[i] == #[trigger] eps@[order@[i] as int]@ by {
        assert(order@.map_values(|i: usize| endpoints_view(eps@)[i as int])[i] == sorted[i]);
    }
    let mut groups: Vec<(String, Vec<usize>)> = Vec::new();
    let mut current_name = String::new();
    let mut current: Vec<usize> = Vec::new();
    for k in 0..order.len()
        invariant
            order@.len() == sorted.len(),
            forall|i: int| 0 <= i < order@.len() ==> #[trigger] order@[i] < eps@.len(),
            forall|i: int| 0 <= i < order@.len() ==> sorted[i] == #[trigger] eps@[order@[i] as int]@,
            k == 0 ==> groups@.len() == 0,
            k > 0 ==> groups_view(groups@, eps@).push(
                (current_name@, current@.map_values(|i: usize| eps@[i as int]@)),
            ) == spec_groups(sorted.take(k as int)),
            k > 0 ==> current@.len() > 0,
            forall|g: int, j: int|
                0 <= g < groups@.len() && 0 <= j < groups@[g].1@.len() ==> #[trigger] groups@[g].1@[j]
                    < eps@.len(),
            forall|j: int| 0 <= j < current@.len() ==> #[trigger] current@[j] < eps@.len(),
    {
        let i = order[k];
        let namespace = endpoint_namespace(&eps[i]);
        let ghost t = sorted.take(k + 1);
        assert(t.drop_last() =~= sorted.take(k as int));
        assert(t.last() == eps@[i as int]@);
        let ghost prev = spec_groups(sorted.take(k as int));
        if k > 0 && crate::order::str_eq(current_name.as_str(), namespace.as_str()) {
            let ghost cv = current@.map_values(|i: usize| eps@[i as int]@);
            current.push(i);
            assert(current@.map_values(|i: usize| eps@[i as int]@) =~= cv.push(eps@[i as int]@));
            assert(prev.last() == (current_name@, cv));
            assert(groups_view(groups@, eps@).push(
                (current_name@, current@.map_values(|i: usize| eps@[i as int]@)),
            ) =~= prev.update(prev.len() - 1, (prev.last().0, prev.last().1.push(eps@[i as int]@))));
        } else {
            if k > 0 {
                let ghost gv = groups_view(groups@, eps@);
                let mut closed: Vec<usize> = Vec::new();
                std::mem::swap(&mut closed, &mut current);
                let mut name = String::new();
                std::mem::swap(&mut name, &mut current_name);
                groups.push((name, closed));
                assert(groups_view(groups@, eps@) =~= gv.push(
                    (name@, closed@.map_values(|i: usize| eps@[i as int]@)),
                ));
                assert(prev.last().0 != namespace@);
            }
            current_name = namespace;
            current = Vec::new();
            current.push(i);
            assert(current@.map_values(|i: usize| eps@[i as int]@) =~= seq![eps@[i as int]@]);
            assert(groups_view(groups@, eps@).push(
                (current_name@, current@.map_values(|i: usize| eps@[i as int]@)),
            ) =~= prev.push((namespace@, seq![eps@[i as int]@])));
        }
    }
    assert(sorted.take(order@.len() as int) =~= sorted);
    if order.len() > 0 {
        let ghost gv = groups_view(groups@, eps@);
        groups.push((current_name, current));
        assert(groups_view(groups@, eps@) =~= gv.push(
            (groups@.last().0@, groups@.last().1@.map_values(|i: usize| eps@[i as int]@)),
        ));
    } else {
        assert(groups_view(groups@, eps@) =~= Seq::<(Seq<char>, Seq<EndpointModel>)>::empty());
    }
    groups
}

/// One member of a namespace in the service interface.
pub open spec fn spec_member_line(e: EndpointModel) -> Seq<char> {
    "      readonly "@ + spec_function_name(e) + ": (args: "@ + spec_namespace(e) + "."@
        + spec_args_name(e) + ") => "@ + spec_return_type(e, "never"@) + "\n"@
}

/// One namespace of the service interface.
pub open spec fn spec_interface_group(g: (Seq<char>, Seq<EndpointModel>)) -> Seq<char> {
    "    readonly "@ + g.0 + ": {\n"@ + concat_map(g.1, |e: EndpointModel| spec_member_line(e))
        + "    }\n"@
}

/// The service interface.
#[verifier::opaque]
pub open spec fn spec_service_interface(groups: Seq<(Seq<char>, Seq<EndpointModel>)>) -> Seq<char> {
    "  export interface Service {\n"@ + concat_map(
        groups,
        |g: (Seq<char>, Seq<EndpointModel>)| spec_interface_group(g),
    ) + "  }\n"@
}

broadcast use crate::gen::writer::lemma_marked_push;

/// The mark of an endpoint's client function name.
pub open spec fn spec_endpoint_name_mark(e: EndpointModel) -> MarkSpec {
    mark_spec(e.id, "endpoint"@, spec_function_name(e))
}

/// The marks of a group's members, in order: each endpoint's function name.
pub open spec fn spec_member_marks(es: Seq<EndpointModel>) -> Seq<MarkSpec>
    decreases es.len(),
{
    if es.len() == 0 {
        Seq::empty()
    } else {
        spec_member_marks(es.drop_last()).push(spec_endpoint_name_mark(es.last()))
    }
}

/// The marks of a list of namespace groups, in order.
pub open spec fn spec_groups_marks(gs: Seq<(Seq<char>, Seq<EndpointModel>)>) -> Seq<MarkSpec>
    decreases gs.len(),
{
    if gs.len() == 0 {
        Seq::empty()
    } else {
        spec_groups_marks(gs.drop_last()) + spec_member_marks(gs.last().1)
    }
}

/// The marks of `layer.ts`: every endpoint's function name in the service
/// interface, then again in the fetch layer.
pub open spec fn spec_layer_marks(c: ApiContractModel) -> Seq<MarkSpec> {
    let gs = spec_groups(spec_sort(c.endpoints, endpoint_order()));
    spec_groups_marks(gs) + spec_groups_marks(gs)
}

#[verifier::rlimit(40)]
fn write_member_line(writer: &mut TrackedWriter, endpoint: &Endpoint)
    requires
        old(writer).wf(),
    ensures
        final(writer).grew(old(writer), spec_member_line(endpoint@)),
        final(writer).marked(*old(writer), seq![spec_endpoint_name_mark(endpoint@)]),
{
    let ghost start = writer.contents@;
    proof {
        lemma_marked_refl(*writer);
    }
    let function_name = endpoint_function_name(endpoint);
    let namespace = endpoint_namespace(endpoint);
    let args_name = endpoint_args_name(endpoint);
    let return_type = render_endpoint_return_type(endpoint, "never");
    writer.push("      readonly ");
    let ghost wa = *writer;
    writer.push_marked(&endpoint.id, "endpoint", function_name.as_str());
    proof {
        lemma_marked_trans(*old(writer), Seq::empty(), wa, seq![spec_endpoint_name_mark(endpoint@)], *writer);
        assert(Seq::<MarkSpec>::empty() + seq![spec_endpoint_name_mark(endpoint@)] =~= seq![spec_endpoint_name_mark(endpoint@)]);
    }
    let mut tail = String::new();
    push_str(&mut tail, ": (args: ");
    push_str(&mut tail, namespace.as_str());
    push_str(&mut tail, ".");
    push_str(&mut tail, args_name.as_str());
    push_str(&mut tail, ") => ");
    push_str(&mut tail, return_type.as_str());
    push_str(&mut tail, "\n");
    writer.push(tail.as_str());
    assert(writer.contents@ =~= start + spec_member_line(endpoint@));
}

/// The interface group and fetch group writers visit the endpoints of a
/// group in order.
#[verifier::rlimit(40)]
fn write_group_members(
    writer: &mut TrackedWriter,
    eps: &Vec<Endpoint>,
    members: &Vec<usize>,
    fetch: bool,
)
    requires
        old(writer).wf(),
        forall|j: int| 0 <= j < members@.len() ==> #[trigger] members@[j] < eps@.len(),
    ensures
        final(writer).grew(
            old(writer),
            concat_map(
                members@.map_values(|i: usize| eps@[i as int]@),
                if fetch {
                    |e: EndpointModel| spec_method_text(e)
                } else {
                    |e: EndpointModel| spec_member_line(e)
                },
            ),
        ),
        final(writer).marked(*old(writer), spec_member_marks(members@.map_values(|i: usize| eps@[i as int]@))),
{
    let ghost ms = members@.map_values(|i: usize| eps@[i as int]@);
    let ghost w0 = *old(writer);
    proof {
        lemma_marked_refl(*writer);
        assert(ms.take(0) =~= Seq::<EndpointModel>::empty());
    }
    let ghost line = if fetch {
        |e: EndpointModel| spec_method_text(e)
    } else {
        |e: EndpointModel| spec_member_line(e)
    };
    let ghost base = writer.contents@;
    for j in 0..members.len()
        invariant
            forall|j: int| 0 <= j < members@.len() ==> #[trigger] members@[j] < eps@.len(),
            ms == members@.map_values(|i: usize| eps@[i as int]@),
            line == (if fetch {
                |e: EndpointModel| spec_method_text(e)
            } else {
                |e: EndpointModel| spec_member_line(e)
            }),
            writer.wf(),
            writer.path@ == old(writer).path@,
            writer.contents@ == base + concat_map(ms.take(j as int), line),
            w0 == *old(writer),
            writer.marked(w0, spec_member_marks(ms.take(j as int))),
    {
        proof {
            lemma_concat_map_step(ms, line, j as int);
        }
        let endpoint = &eps[members[j]];
        assert(ms[j as int] == endpoint@);
        let ghost wa = *writer;
        if fetch {
            write_tracked_fetch_service_method(writer, endpoint);
        } else {
            write_member_line(writer, endpoint);
        }
        proof {
            lemma_marked_trans(w0, spec_member_marks(ms.take(j as int)), wa, seq![spec_endpoint_name_mark(ms[j as int])], *writer);
            assert(ms.take(j + 1).drop_last() =~= ms.take(j as int));
            assert(spec_member_marks(ms.take(j as int)) + seq![spec_endpoint_name_mark(ms[j as int])] =~= spec_member_marks(ms.take(j + 1)));
        }
    }
    proof {
        lemma_take_all(ms);
        assert(ms.take(ms.len() as int) =~= ms);
    }
}

/// Writes the service interface, marking each member.
#[verifier::rlimit(40)]
pub fn write_tracked_service_interface(writer: &mut TrackedWriter, contract: &ApiContract)
    requires
        old(writer).wf(),
    ensures
        final(writer).grew(
            old(writer),
            spec_service_interface(spec_groups(spec_sort(contract@.endpoints, endpoint_order()))),
        ),
        final(writer).marked(
            *old(writer),
            spec_groups_marks(spec_groups(spec_sort(contract@.endpoints, endpoint_order()))),
        ),
{
    let ghost start = writer.contents@;
    let ghost w0 = *old(writer);
    proof {
        lemma_marked_refl(*writer);
    }
    let groups = group_endpoints_by_namespace(contract);
    let ghost gs = groups_view(groups@, contract.endpoints@);
    let ghost block = |g: (Seq<char>, Seq<EndpointModel>)| spec_interface_group(g);
    writer.push("  export interface Service {\n");
    let ghost base = writer.contents@;
    for k in 0..groups.len()
        invariant
            gs == groups_view(groups@, contract.endpoints@),
            forall|g: int, j: int|
                0 <= g < groups@.len() && 0 <= j < groups@[g].1@.len() ==> #[trigger] groups@[g].1@[j]
                    < contract.endpoints@.len(),
            block == (|g: (Seq<char>, Seq<EndpointModel>)| spec_interface_group(g)),
            writer.wf(),
            writer.path@ == old(writer).path@,
            writer.contents@ == base + concat_map(gs.take(k as int), block),
            w0 == *old(writer),
            writer.marked(w0, spec_groups_marks(gs.take(k as int))),
    {
        proof {
            lemma_concat_map_step(gs, block, k as int);
        }
        let ghost before = writer.contents@;
        let (name, members) = (&groups[k].0, &groups[k].1);
        assert forall|j: int| 0 <= j < members@.len() implies #[trigger] members@[j] < contract.endpoints@.len() by {
            assert(groups@[k as int].1@[j] == members@[j]);
        }
        writer.push("    readonly ");
        writer.push(name.as_str());
        writer.push(": {\n");
        let ghost wa = *writer;
        write_group_members(writer, &contract.endpoints, members, false);
        proof {
            assert(gs[k as int].1 == members@.map_values(|i: usize| contract.endpoints@[i as int]@));
            lemma_marked_trans(w0, spec_groups_marks(gs.take(k as int)), wa, spec_member_marks(gs[k as int].1), *writer);
            assert(gs.take(k + 1).drop_last() =~= gs.take(k as int));
        }
        writer.push("    }\n");
        assert(writer.contents@ =~= before + spec_interface_group(gs[k as int]));
    }
    proof {
        lemma_take_all(gs);
        assert(gs.take(gs.len() as int) =~= gs);
    }
    writer.push("  }\n");
    proof {
        reveal(spec_service_interface);
    }
    assert(writer.contents@ =~= start + spec_service_interface(gs));
}

/// The client method of one endpoint, up to its type arguments.
pub open spec fn spec_method_head(e: EndpointModel) -> Seq<char> {
    "        "@ + spec_function_name(e) + ": "@ + spec_client_helper(e) + "<"@ + spec_namespace(e)
        + "."@ + spec_args_name(e) + ", "@ + spec_response_type(e.response) + ", "@
        + spec_domain_error_type(e)
}

/// The request options of the client method of one endpoint.
pub open spec fn spec_method_options(e: EndpointModel) -> Seq<char> {
    let f = spec_function_name(e);
    let ns = spec_namespace(e);
    let helper = spec_client_helper(e);
    ">(config, {\n          method: "@ + spec_ts_string(spec_method_name(e.method))
        + ",\n          path: "@ + ns + "."@ + f + "Route.path,\n          encode: "@
        + spec_request_encoder(e.request, ns + "."@ + spec_args_name(e))
        + ",\n          decodeSuccess: "@ + spec_success_decoder(e.response, helper)
        + ",\n          decodeError: "@ + spec_error_decoder(e, helper) + ",\n        }),\n"@
}

/// The client method of one endpoint in the fetch layer.
#[verifier::opaque]
pub open spec fn spec_method_text(e: EndpointModel) -> Seq<char> {
    spec_method_head(e) + spec_method_options(e)
}

#[verifier::rlimit(40)]
fn write_method_head(writer: &mut TrackedWriter, endpoint: &Endpoint)
    requires
        old(writer).wf(),
    ensures
        final(writer).grew(old(writer), spec_method_head(endpoint@)),
        final(writer).marked(*old(writer), seq![spec_endpoint_name_mark(endpoint@)]),
{
    let ghost start = writer.contents@;
    proof {
        lemma_marked_refl(*writer);
    }
    let function_name = endpoint_function_name(endpoint);
    let namespace = endpoint_namespace(endpoint);
    let args_name = endpoint_args_name(endpoint);
    let helper = render_runtime_client_helper(endpoint);
    let success = render_response_type(&endpoint.response);
    let domain_error = render_endpoint_domain_error_type(endpoint);
    let mut text = ": ".to_owned();
    push_str(&mut text, helper);
    push_str(&mut text, "<");
    push_str(&mut text, namespace.as_str());
    push_str(&mut text, ".");
    push_str(&mut text, args_name.as_str());
    push_str(&mut text, ", ");
    push_str(&mut text, success.as_str());
    push_str(&mut text, ", ");
    push_str(&mut text, domain_error.as_str());
    writer.push("        ");
    let ghost wa = *writer;
    writer.push_marked(&endpoint.id, "endpoint", function_name.as_str());
    proof {
        lemma_marked_trans(*old(writer), Seq::empty(), wa, seq![spec_endpoint_name_mark(endpoint@)], *writer);
        assert(Seq::<MarkSpec>::empty() + seq![spec_endpoint_name_mark(endpoint@)] =~= seq![spec_endpoint_name_mark(endpoint@)]);
    }
    writer.push(text.as_str());
    assert(writer.contents@ =~= start + spec_method_head(endpoint@));
}

#[verifier::rlimit(40)]
fn write_method_options(writer: &mut TrackedWriter, endpoint: &Endpoint)
    requires
        old(writer).wf(),
    ensures
        final(writer).grew(old(writer), spec_method_options(endpoint@)),
        final(writer).marked(*old(writer), Seq::empty()),
{
    proof {
        lemma_marked_refl(*writer);
    }
    let ghost start = writer.contents@;
    let function_name = endpoint_function_name(endpoint);
    let namespace = endpoint_namespace(endpoint);
    let args_name = endpoint_args_name(endpoint);
    let helper = render_runtime_client_helper(endpoint);
    let success_decoder = render_success_decoder(&endpoint.response, helper);
    let error_decoder = render_domain_error_decoder(endpoint, helper);
    let method = ts_string(endpoint.method.as_str());
    let mut args_type = namespace.clone();
    push_str(&mut args_type, ".");
    push_str(&mut args_type, args_name.as_str());
    let encoder = render_request_encoder(&endpoint.request, args_type.as_str());
    let mut text = ">(config, {\n          method: ".to_owned();
    push_str(&mut text, method.as_str());
    push_str(&mut text, ",\n          path: ");
    push_str(&mut text, namespace.as_str());
    push_str(&mut text, ".");
    push_str(&mut text, function_name.as_str());
    push_str(&mut text, "Route.path,\n          encode: ");
    push_str(&mut text, encoder.as_str());
    push_str(&mut text, ",\n          decodeSuccess: ");
    push_str(&mut text, success_decoder.as_str());
    push_str(&mut text, ",\n          decodeError: ");
    push_str(&mut text, error_decoder.as_str());
    push_str(&mut text, ",\n        }),\n");
    assert(text@ =~= spec_method_options(endpoint@));
    writer.push(text.as_str());
    assert(writer.contents@ =~= start + spec_method_options(endpoint@));
}

/// Writes the client method of one endpoint, marking its name.
#[verifier::rlimit(40)]
pub fn write_tracked_fetch_service_method(writer: &mut TrackedWriter, endpoint: &Endpoint)
    requires
        old(writer).wf(),
    ensures
        final(writer).grew(old(writer), spec_method_text(endpoint@)),
        final(writer).marked(*old(writer), seq![spec_endpoint_name_mark(endpoint@)]),
{
    let ghost start = writer.contents@;
    write_method_head(writer, endpoint);
    let ghost wa = *writer;
    write_method_options(writer, endpoint);
    proof {
        lemma_marked_trans(*old(writer), seq![spec_endpoint_name_mark(endpoint@)], wa, Seq::empty(), *writer);
        assert(seq![spec_endpoint_name_mark(endpoint@)] + Seq::<MarkSpec>::empty() =~= seq![spec_endpoint_name_mark(endpoint@)]);
        reveal(spec_method_text);
    }
    assert(writer.contents@ =~= start + spec_method_text(endpoint@));
}

/// One namespace of the fetch service.
pub open spec fn spec_fetch_group(g: (Seq<char>, Seq<EndpointModel>)) -> Seq<char> {
    "      "@ + g.0 + ": {\n"@ + concat_map(g.1, |e: EndpointModel| spec_method_text(e))
        + "      },\n"@
}

/// The namespaces of the fetch service.
#[verifier::opaque]
pub open spec fn spec_fetch_service(groups: Seq<(Seq<char>, Seq<EndpointModel>)>) -> Seq<char> {
    concat_map(groups, |g: (Seq<char>, Seq<EndpointModel>)| spec_fetch_group(g))
}

/// Writes the fetch service's namespaces and methods.
#[verifier::rlimit(40)]
pub fn write_tracked_fetch_service(writer: &mut TrackedWriter, contract: &ApiContract)
    requires
        old(writer).wf(),
    ensures
        final(writer).grew(
            old(writer),
            spec_fetch_service(spec_groups(spec_sort(contract@.endpoints, endpoint_order()))),
        ),
        final(writer).marked(
            *old(writer),
            spec_groups_marks(spec_groups(spec_sort(contract@.endpoints, endpoint_order()))),
        ),
{
    let ghost w0 = *old(writer);
    proof {
        lemma_marked_refl(*writer);
    }
    let groups = group_endpoints_by_namespace(contract);
    let ghost gs = groups_view(groups@, contract.endpoints@);
    let ghost block = |g: (Seq<char>, Seq<EndpointModel>)| spec_fetch_group(g);
    let ghost base = writer.contents@;
    for k in 0..groups.len()
        invariant
            gs == groups_view(groups@, contract.endpoints@),
            forall|g: int, j: int|
                0 <= g < groups@.len() && 0 <= j < groups@[g].1@.len() ==> #[trigger] groups@[g].1@[j]
                    < contract.endpoints@.len(),
            block == (|g: (Seq<char>, Seq<EndpointModel>)| spec_fetch_group(g)),
            writer.wf(),
            writer.path@ == old(writer).path@,
            writer.contents@ == base + concat_map(gs.take(k as int), block),
            w0 == *old(writer),
            writer.marked(w0, spec_groups_marks(gs.take(k as int))),
    {
        proof {
            lemma_concat_map_step(gs, block, k as int);
        }
        let ghost before = writer.contents@;
        let (name, members) = (&groups[k].0, &groups[k].1);
        assert forall|j: int| 0 <= j < members@.len() implies #[trigger] members@[j] < contract.endpoints@.len() by {
            assert(groups@[k as int].1@[j] == members@[j]);
        }
        writer.push("      ");
        writer.push(name.as_str());
        writer.push(": {\n");
        let ghost wa = *writer;
        write_group_members(writer, &contract.endpoints, members, true);
        proof {
            assert(gs[k as int].1 == members@.map_values(|i: usize| contract.endpoints@[i as int]@));
            lemma_marked_trans(w0, spec_groups_marks(gs.take(k as int)), wa, spec_member_marks(gs[k as int].1), *writer);
            assert(gs.take(k + 1).drop_last() =~= gs.take(k as int));
        }
        writer.push("      },\n");
        assert(writer.contents@ =~= before + spec_fetch_group(gs[k as int]));
    }
    proof {
        lemma_take_all(gs);
        assert(gs.take(gs.len() as int) =~= gs);
        reveal(spec_fetch_service);
    }
}

/// The runtime client constructors the endpoints `es` need, in order.
pub open spec fn spec_runtime_imports(es: Seq<EndpointModel>) -> Seq<Seq<char>>
    decreases es.len(),
{
    if es.len() == 0 {
        Seq::empty()
    } else {
        spec_runtime_imports(es.drop_last()) + match es.last().transport {
            Transport::UnaryHttp => seq!["makeUnaryHttpClient"@],
            Transport::ServerSentEvents => seq!["makeSseClient"@],
            _ => Seq::empty(),
        }
    }
}

/// The runtime client constructors a contract's endpoints need, once each,
/// in name order.
pub fn collect_runtime_client_imports(contract: &ApiContract) -> (r: Vec<String>)
    ensures
        strings_view(r@) == spec_sorted_set(spec_runtime_imports(contract@.endpoints)),
{
    let ghost es = contract@.endpoints;
    let mut names: Vec<String> = Vec::new();
    for i in 0..contract.endpoints.len()
        invariant
            es == contract@.endpoints,
            strings_view(names@) == spec_runtime_imports(es.take(i as int)),
    {
        assert(es.take(i + 1).drop_last() =~= es.take(i as int));
        let ghost before = strings_view(names@);
        match contract.endpoints[i].transport {
            Transport::UnaryHttp => names.push("makeUnaryHttpClient".to_owned()),
            Transport::ServerSentEvents => names.push("makeSseClient".to_owned()),
            _ => {},
        }
        assert(strings_view(names@) =~= spec_runtime_imports(es.take(i + 1)));
    }
    assert(es.take(contract.endpoints@.len() as int) =~= es);
    sorted_unique_strings(names)
}

/// The namespaces of a contract's endpoints, once each, in name order.
pub fn collect_endpoint_namespaces(contract: &ApiContract) -> (r: Vec<String>)
    ensures
        strings_view(r@) == spec_sorted_set(
            contract@.endpoints.map_values(|e: EndpointModel| spec_namespace(e)),
        ),
{
    let mut names: Vec<String> = Vec::new();
    for i in 0..contract.endpoints.len()
        invariant
            names@.len() == i,
            forall|j: int| 0 <= j < i ==> #[trigger] names@[j]@ == spec_namespace(contract@.endpoints[j]),
    {
        names.push(endpoint_namespace(&contract.endpoints[i]));
    }
    assert(strings_view(names@) =~= contract@.endpoints.map_values(
        |e: EndpointModel| spec_namespace(e),
    ));
    sorted_unique_strings(names)
}

/// The error metadata names the endpoints `es` decode with, in order.
pub open spec fn spec_metadata_imports(es: Seq<EndpointModel>) -> Seq<Seq<char>>
    decreases es.len(),
{
    if es.len() == 0 {
        Seq::empty()
    } else {
        spec_metadata_imports(es.drop_last()) + es.last().errors.map_values(
            |r: RefModel| r.name + "SchemaByStatus"@,
        )
    }
}

/// The error metadata objects the fetch layer decodes with, once each, in
/// name order.
pub fn collect_endpoint_error_metadata_imports(contract: &ApiContract) -> (r: Vec<String>)
    ensures
        strings_view(r@) == spec_sorted_set(spec_metadata_imports(contract@.endpoints)),
{
    let ghost es = contract@.endpoints;
    let mut names: Vec<String> = Vec::new();
    for i in 0..contract.endpoints.len()
        invariant
            es == contract@.endpoints,
            strings_view(names@) == spec_metadata_imports(es.take(i as int)),
    {
        assert(es.take(i + 1).drop_last() =~= es.take(i as int));
        let errors = &contract.endpoints[i].errors;
        let ghost base = strings_view(names@);
        for j in 0..errors.len()
            invariant
                strings_view(names@) == base + errors@.take(j as int).map_values(
                    |r: crate::ir::ErrorRef| r@.name + "SchemaByStatus"@,
                ),
        {
            let ghost before = names@;
            let mut name = errors[j].name.clone();
            push_str(&mut name, "SchemaByStatus");
            names.push(name);
            assert(errors@.take(j + 1).map_values(|r: crate::ir::ErrorRef| r@.name + "SchemaByStatus"@)
                =~= errors@.take(j as int).map_values(
                |r: crate::ir::ErrorRef| r@.name + "SchemaByStatus"@,
            ).push(errors@[j as int]@.name + "SchemaByStatus"@));
            assert(strings_view(names@) =~= strings_view(before).push(
                errors@[j as int].name@ + "SchemaByStatus"@,
            ));
        }
        assert(errors@.take(errors@.len() as int).map_values(
            |r: crate::ir::ErrorRef| r@.name + "SchemaByStatus"@,
        ) =~= es[i as int].errors.map_values(|r: RefModel| r.name + "SchemaByStatus"@));
        assert(strings_view(names@) =~= spec_metadata_imports(es.take(i + 1)));
    }
    assert(es.take(contract.endpoints@.len() as int) =~= es);
    sorted_unique_strings(names)
}

/// The schema names the service refers to, once each, in name order.
pub fn collect_service_schema_imports(contract: &ApiContract) -> (r: Vec<String>)
    ensures
        strings_view(r@) == spec_sorted_set(spec_endpoint_type_imports(contract@.endpoints)),
{
    collect_endpoint_schema_imports(contract)
}

/// An import of `names` from `from`, when there are any.
pub open spec fn spec_import_line(names: Seq<Seq<char>>, from: Seq<char>) -> Seq<char> {
    if names.len() == 0 {
        Seq::empty()
    } else {
        "import { "@ + join(names, ", "@) + " } from \""@ + from + "\"\n"@
    }
}

#[verifier::rlimit(40)]
fn write_import_line(writer: &mut TrackedWriter, names: &Vec<String>, from: &str)
    requires
        old(writer).wf(),
    ensures
        final(writer).grew(old(writer), spec_import_line(strings_view(names@), from@)),
        final(writer).marked(*old(writer), Seq::empty()),
{
    proof {
        lemma_marked_refl(*writer);
    }
    let ghost start = writer.contents@;
    if names.len() == 0 {
        assert(writer.contents@ =~= start + spec_import_line(strings_view(names@), from@));
        return;
    }
    assert(names@.map_values(|s: String| s@) =~= strings_view(names@));
    writer.push("import { ");
    writer.push(join_strings(names, ", ").as_str());
    writer.push(" } from \"");
    writer.push(from);
    writer.push("\"\n");
    assert(writer.contents@ =~= start + spec_import_line(strings_view(names@), from@));
}

/// The imports of `layer.ts` after the Effect import.
pub open spec fn spec_layer_imports(c: ApiContractModel) -> Seq<char> {
    spec_import_line(
        spec_sorted_set(spec_runtime_imports(c.endpoints)),
        "@rust-ts-integration/effect-runtime"@,
    ) + spec_import_line(
        spec_sorted_set(c.endpoints.map_values(|e: EndpointModel| spec_namespace(e))),
        "./endpoints"@,
    ) + spec_import_line(spec_sorted_set(spec_endpoint_type_imports(c.endpoints)), "./schemas"@)
        + spec_import_line(spec_sorted_set(spec_metadata_imports(c.endpoints)), "./errors"@)
        + "import type { "@ + join(
        spec_sorted_set(seq!["ApiClientError"@] + spec_endpoint_errors(c.endpoints)),
        ", "@,
    ) + " } from \"./errors\"\n\n"@
}

#[verifier::rlimit(30)]
fn write_layer_imports(writer: &mut TrackedWriter, contract: &ApiContract)
    requires
        old(writer).wf(),
    ensures
        final(writer).grew(old(writer), spec_layer_imports(contract@)),
        final(writer).marked(*old(writer), Seq::empty()),
{
    let ghost start = writer.contents@;
    let ghost e = Seq::<MarkSpec>::empty();
    assert(e + e =~= e);
    let runtime = collect_runtime_client_imports(contract);
    write_import_line(writer, &runtime, "@rust-ts-integration/effect-runtime");
    let namespaces = collect_endpoint_namespaces(contract);
    let ghost wa = *writer;
    write_import_line(writer, &namespaces, "./endpoints");
    proof {
        lemma_marked_trans(*old(writer), e, wa, e, *writer);
    }
    let schemas = collect_service_schema_imports(contract);
    let ghost wb = *writer;
    write_import_line(writer, &schemas, "./schemas");
    proof {
        lemma_marked_trans(*old(writer), e, wb, e, *writer);
    }
    let metadata = collect_endpoint_error_metadata_imports(contract);
    let ghost wc = *writer;
    write_import_line(writer, &metadata, "./errors");
    proof {
        lemma_marked_trans(*old(writer), e, wc, e, *writer);
    }
    let ghost mid = writer.contents@;
    let errors = collect_endpoint_error_imports(contract);
    assert(errors@.map_values(|s: String| s@) =~= strings_view(errors@));
    writer.push("import type { ");
    writer.push(join_strings(&errors, ", ").as_str());
    writer.push(" } from \"./errors\"\n\n");
    assert(writer.contents@ =~= start + spec_layer_imports(contract@));
}

/// The banner and Effect import of `layer.ts`.
pub open spec fn spec_layer_preamble(c: ApiContractModel) -> Seq<char> {
    spec_banner(c.package_name) + spec_compat_import(
        if spec_has_stream(c.endpoints) {
            "Context, Layer, Effect, Stream"@
        } else {
            "Context, Layer, Effect"@
        },
    )
}

/// The client configuration interface and the service tag class.
pub open spec fn spec_layer_declarations(package_name: Seq<char>) -> Seq<char> {
    "export interface ServerApiConfig {\n"@ + "  readonly baseUrl: string\n"@
        + "  readonly timeoutMs?: number\n"@ + "  readonly fetch?: typeof fetch\n"@ + "}\n\n"@
        + "export class ServerApi extends Context.Service<ServerApi, ServerApi.Service>()("@
        + spec_ts_string(package_name + "::ServerApi"@) + ") {}\n\n"@
}

/// The `ServerApi` namespace: the service interface and its layers.
pub open spec fn spec_layer_namespace(groups: Seq<(Seq<char>, Seq<EndpointModel>)>) -> Seq<char> {
    "export namespace ServerApi {\n"@ + spec_service_interface(groups) + spec_layer_open() + spec_fetch_service(groups)
        + spec_layer_close()
}

/// The text between the service interface and the fetch service's methods.
pub open spec fn spec_layer_open() -> Seq<char> {
    "\n  export const layer = (config: ServerApiConfig): Layer.Layer<ServerApi> => {\n    const service: Service = {\n"@
}

/// The text after the fetch service's methods: the layer's end and the
/// mock layer.
pub open spec fn spec_layer_close() -> Seq<char> {
    "    }\n    return Layer.succeed(ServerApi, ServerApi.of(service))\n  }\n\n  export const mock = (service: Service): Layer.Layer<ServerApi> =>\n    Layer.succeed(ServerApi, ServerApi.of(service))\n}\n"@
}

/// The unfinished contents of `layer.ts`.
pub open spec fn spec_layer_text(c: ApiContractModel) -> Seq<char> {
    spec_layer_preamble(c) + spec_layer_imports(c) + spec_layer_declarations(c.package_name)
        + spec_layer_namespace(spec_groups(spec_sort(c.endpoints, endpoint_order())))
}

#[verifier::rlimit(40)]
fn write_layer_declarations(writer: &mut TrackedWriter, contract: &ApiContract)
    requires
        old(writer).wf(),
    ensures
        final(writer).grew(old(writer), spec_layer_declarations(contract@.package_name)),
        final(writer).marked(*old(writer), Seq::empty()),
{
    proof {
        lemma_marked_refl(*writer);
    }
    let ghost start = writer.contents@;
    writer.push("export interface ServerApiConfig {\n");
    writer.push("  readonly baseUrl: string\n");
    writer.push("  readonly timeoutMs?: number\n");
    writer.push("  readonly fetch?: typeof fetch\n");
    writer.push("}\n\n");
    let mut tag = contract.package_name.clone();
    push_str(&mut tag, "::ServerApi");
    let tag = ts_string(tag.as_str());
    let mut tail = String::new();
    push_str(&mut tail, "export class ServerApi extends Context.Service<ServerApi, ServerApi.Service>()(");
    push_str(&mut tail, tag.as_str());
    push_str(&mut tail, ") {}\n\n");
    writer.push(tail.as_str());
    assert(writer.contents@ =~= start + spec_layer_declarations(contract@.package_name));
}

#[verifier::rlimit(40)]
fn write_layer_namespace(writer: &mut TrackedWriter, contract: &ApiContract)
    requires
        old(writer).wf(),
    ensures
        final(writer).grew(
            old(writer),
            spec_layer_namespace(spec_groups(spec_sort(contract@.endpoints, endpoint_order()))),
        ),
        final(writer).marked(
            *old(writer),
            spec_groups_marks(spec_groups(spec_sort(contract@.endpoints, endpoint_order())))
                + spec_groups_marks(spec_groups(spec_sort(contract@.endpoints, endpoint_order()))),
        ),
{
    let ghost start = writer.contents@;
    let ghost gm = spec_groups_marks(spec_groups(spec_sort(contract@.endpoints, endpoint_order())));
    proof {
        lemma_marked_refl(*writer);
    }
    writer.push("export namespace ServerApi {\n");
    let ghost wa = *writer;
    write_tracked_service_interface(writer, contract);
    proof {
        lemma_marked_trans(*old(writer), Seq::empty(), wa, gm, *writer);
        assert(Seq::<MarkSpec>::empty() + gm =~= gm);
    }
    writer.push(
        "\n  export const layer = (config: ServerApiConfig): Layer.Layer<ServerApi> => {\n    const service: Service = {\n",
    );
    let ghost wb = *writer;
    write_tracked_fetch_service(writer, contract);
    proof {
        lemma_marked_trans(*old(writer), gm, wb, gm, *writer);
    }
    writer.push(
        "    }\n    return Layer.succeed(ServerApi, ServerApi.of(service))\n  }\n\n  export const mock = (service: Service): Layer.Layer<ServerApi> =>\n    Layer.succeed(ServerApi, ServerApi.of(service))\n}\n",
    );
    assert(writer.contents@ =~= start + spec_layer_namespace(
        spec_groups(spec_sort(contract@.endpoints, endpoint_order())),
    ));
}

/// Writes `layer.ts`: the service tag, its interface, the fetch layer that
/// implements it over HTTP, and a mock layer.
pub fn render_tracked_layer(contract: &ApiContract) -> (r: TrackedFile)
    ensures
        r.file.path@ == "layer.ts"@,
        r.file.contents@ == spec_trim_blank_lines(spec_layer_text(contract@)),
        file_marks(marks_view(r.marks@), r.file.path@, r.file.contents@, spec_layer_marks(contract@)),
{
    let mut writer = TrackedWriter::new("layer.ts");
    let ghost w0 = writer;
    let ghost e = Seq::<MarkSpec>::empty();
    proof {
        lemma_marked_refl(w0);
        assert(e + e =~= e);
    }
    let banner = render_package_banner(contract);
    writer.push(banner.as_str());
    let ghost wa = writer;
    if contract_has_stream_endpoints(contract) {
        write_effect_compat_import(&mut writer, "Context, Layer, Effect, Stream");
    } else {
        write_effect_compat_import(&mut writer, "Context, Layer, Effect");
    }
    proof {
        lemma_marked_trans(w0, e, wa, e, writer);
    }
    let ghost preamble = writer.contents@;
    let ghost wb = writer;
    write_layer_imports(&mut writer, contract);
    proof {
        lemma_marked_trans(w0, e, wb, e, writer);
    }
    let ghost wc = writer;
    write_layer_declarations(&mut writer, contract);
    proof {
        lemma_marked_trans(w0, e, wc, e, writer);
    }
    let ghost wd = writer;
    write_layer_namespace(&mut writer, contract);
    proof {
        lemma_marked_trans(w0, e, wd, spec_layer_marks(contract@), writer);
        assert(e + spec_layer_marks(contract@) =~= spec_layer_marks(contract@));
    }
    assert(writer.contents@ =~= spec_layer_text(contract@));
    let ghost wf = writer;
    let r = writer.into_tracked_file();
    proof {
        lemma_file_marks(wf, w0, spec_layer_marks(contract@), r);
    }
    r
}

/// Renders the generated Effect service tag, service interface, and layer
/// helpers.
pub fn render_layer(contract: &ApiContract) -> (r: String)
    ensures
        r@ == spec_trim_blank_lines(spec_layer_text(contract@)),
{
    render_tracked_layer(contract).file.contents
}

} // verus!
