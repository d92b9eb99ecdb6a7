//! Framework-neutral endpoint descriptors and API modules.

use vstd::prelude::*;
use crate::api::{
    ContractRegistry, RegistryModel, spec_merge_errors, spec_merge_types, spec_register_error,
    spec_register_type,
};
use crate::ir::{
    EndpointModel, ErrorRef, HttpMethod, RequestShape, ResponseShape, ResponseShapeModel,
    RoutePattern, SourceRange, SymbolId, Transport, clone_error_refs, clone_strings,
    endpoints_view, error_refs_view, spec_empty_source, spec_id_of, spec_method_name, strings_view,
    strs_view,
};

verus! {

/// Framework-neutral endpoint descriptor.
#[derive(Debug, PartialEq, Eq)]
pub struct Endpoint {
    pub id: SymbolId,
    pub rust_path: Vec<String>,
    pub rust_name: String,
    pub ts_path: Vec<String>,
    pub route: RoutePattern,
    pub method: HttpMethod,
    pub transport: Transport,
    pub request: RequestShape,
    pub response: ResponseShape,
    pub errors: Vec<ErrorRef>,
    pub source: SourceRange,
    pub allow_unused: bool,
}

impl View for Endpoint {
    type V = EndpointModel;

    open spec fn view(&self) -> EndpointModel {
        EndpointModel {
            id: self.id@,
            rust_path: strings_view(self.rust_path@),
            rust_name: self.rust_name@,
            ts_path: strings_view(self.ts_path@),
            route: self.route.0@,
            method: self.method,
            transport: self.transport,
            request: self.request@,
            response: self.response@,
            errors: error_refs_view(self.errors@),
            source: self.source@,
            allow_unused: self.allow_unused,
        }
    }
}

impl Clone for Endpoint {
    fn clone(&self) -> (r: Self)
        ensures
            r@ == self@,
    {
        Endpoint {
            id: self.id.clone(),
            rust_path: clone_strings(&self.rust_path),
            rust_name: self.rust_name.clone(),
            ts_path: clone_strings(&self.ts_path),
            route: self.route.clone(),
            method: self.method,
            transport: self.transport,
            request: self.request.clone(),
            response: self.response.clone(),
            errors: clone_error_refs(&self.errors),
            source: self.source.clone(),
            allow_unused: self.allow_unused,
        }
    }
}

/// The id of the endpoint for `method` on `path`, before it is named.
pub open spec fn spec_route_endpoint_id(method: HttpMethod, path: Seq<char>) -> Seq<char> {
    spec_id_of("endpoint"@, seq![spec_method_name(method), path])
}

/// The last segment of a Rust path, or the empty string.
pub open spec fn spec_last_name(path: Seq<Seq<char>>) -> Seq<char> {
    if path.len() == 0 {
        Seq::empty()
    } else {
        path.last()
    }
}

fn to_strings(parts: &[&str]) -> (r: Vec<String>)
    ensures
        strings_view(r@) == strs_view(parts@),
{
    let mut out: Vec<String> = Vec::new();
    for i in 0..parts.len()
        invariant
            out@.len() == i,
            forall|j: int| 0 <= j < i ==> #[trigger] out@[j]@ == parts@[j]@,
    {
        out.push(parts[i].to_owned());
    }
    assert(strings_view(out@) =~= strs_view(parts@));
    out
}

impl Endpoint {
    /// An unnamed unary endpoint for `method` on `path`, with an empty
    /// request, an empty response and no errors.
    pub fn new(method: HttpMethod, path: &str) -> (r: Self)
        ensures
            r@.id == spec_route_endpoint_id(method, path@),
            r@.rust_path.len() == 0,
            r@.rust_name.len() == 0,
            r@.ts_path.len() == 0,
            r@.route == path@,
            r@.method == method,
            r@.transport == Transport::UnaryHttp,
            r@.request.path_params.len() == 0,
            r@.request.query_params.len() == 0,
            r@.request.body.is_none(),
            r@.response == ResponseShapeModel::Empty,
            r@.errors.len() == 0,
            r@.source == spec_empty_source(),
            !r@.allow_unused,
    {
        let parts: [&str; 2] = [method.as_str(), path];
        assert(strs_view(parts@) =~= seq![spec_method_name(method), path@]);
        let r = Endpoint {
            id: SymbolId::from_parts("endpoint", parts.as_slice()),
            rust_path: Vec::new(),
            rust_name: String::new(),
            ts_path: Vec::new(),
            route: RoutePattern(path.to_owned()),
            method,
            transport: Transport::UnaryHttp,
            request: RequestShape::empty(),
            response: ResponseShape::Empty,
            errors: Vec::new(),
            source: SourceRange::empty(),
            allow_unused: false,
        };
        assert(strings_view(r.rust_path@) =~= Seq::empty());
        assert(strings_view(r.ts_path@) =~= Seq::empty());
        assert(error_refs_view(r.errors@) =~= Seq::empty());
        r
    }

    /// Names the endpoint after its Rust path. The id is derived from the
    /// path, and the TypeScript path defaults to the last segment.
    pub fn named(self, rust_path: &[&str]) -> (r: Self)
        ensures
            r@ == (EndpointModel {
                id: spec_id_of("endpoint"@, strs_view(rust_path@)),
                rust_path: strs_view(rust_path@),
                rust_name: spec_last_name(strs_view(rust_path@)),
                ts_path: if self@.ts_path.len() == 0 {
                    seq![spec_last_name(strs_view(rust_path@))]
                } else {
                    self@.ts_path
                },
                ..self@
            }),
    {
        let mut e = self;
        e.rust_path = to_strings(rust_path);
        e.rust_name = if e.rust_path.len() == 0 {
            String::new()
        } else {
            e.rust_path[e.rust_path.len() - 1].clone()
        };
        if e.ts_path.len() == 0 {
            let mut ts: Vec<String> = Vec::new();
            ts.push(e.rust_name.clone());
            assert(strings_view(ts@) =~= seq![e.rust_name@]);
            e.ts_path = ts;
        }
        e.id = SymbolId::from_parts("endpoint", rust_path);
        e
    }

    /// Sets the TypeScript accessor path.
    pub fn ts_path(self, ts_path: &[&str]) -> (r: Self)
        ensures
            r@ == (EndpointModel { ts_path: strs_view(ts_path@), ..self@ }),
    {
        let mut e = self;
        e.ts_path = to_strings(ts_path);
        e
    }

    /// Sets the request shape.
    pub fn request(self, request: RequestShape) -> (r: Self)
        ensures
            r@ == (EndpointModel { request: request@, ..self@ }),
    {
        let mut e = self;
        e.request = request;
        e
    }

    /// Sets the response shape.
    pub fn response(self, response: ResponseShape) -> (r: Self)
        ensures
            r@ == (EndpointModel { response: response@, ..self@ }),
    {
        let mut e = self;
        e.response = response;
        e
    }

    /// Sets the transport.
    pub fn transport(self, transport: Transport) -> (r: Self)
        ensures
            r@ == (EndpointModel { transport, ..self@ }),
    {
        let mut e = self;
        e.transport = transport;
        e
    }

    /// Sets the declared errors.
    pub fn errors(self, errors: Vec<ErrorRef>) -> (r: Self)
        ensures
            r@ == (EndpointModel { errors: error_refs_view(errors@), ..self@ }),
    {
        let mut e = self;
        e.errors = errors;
        e
    }

    /// Sets whether an unused endpoint is tolerated by usage lints.
    pub fn allow_unused(self, allow_unused: bool) -> (r: Self)
        ensures
            r@ == (EndpointModel { allow_unused, ..self@ }),
    {
        let mut e = self;
        e.allow_unused = allow_unused;
        e
    }

    /// The contract IR form of this endpoint.
    pub fn into_ir(self) -> (r: crate::ir::Endpoint)
        ensures
            r@ == self@,
    {
        crate::ir::Endpoint {
            id: self.id,
            rust_path: self.rust_path,
            rust_name: self.rust_name,
            ts_path: self.ts_path,
            route: self.route,
            method: self.method,
            transport: self.transport,
            request: self.request,
            response: self.response,
            errors: self.errors,
            source: self.source,
            allow_unused: self.allow_unused,
        }
    }
}

/// The models of a list of endpoint descriptors.
pub open spec fn core_endpoints_view(v: Seq<Endpoint>) -> Seq<EndpointModel> {
    v.map_values(|e: Endpoint| e@)
}

/// Endpoint metadata paired with the type and error definitions that
/// registering the endpoint contributes to a contract.
#[derive(Debug)]
pub struct EndpointDescriptor {
    pub endpoint: Endpoint,
    pub register: ContractRegistry,
}

impl Clone for EndpointDescriptor {
    fn clone(&self) -> (r: Self)
        ensures
            r.endpoint@ == self.endpoint@,
            r.register@ == self.register@,
    {
        EndpointDescriptor { endpoint: self.endpoint.clone(), register: self.register.clone() }
    }
}

impl EndpointDescriptor {
    /// Pairs an endpoint with the definitions it registers.
    pub fn new(endpoint: Endpoint, register: ContractRegistry) -> (r: Self)
        ensures
            r.endpoint@ == endpoint@,
            r.register@ == register@,
    {
        EndpointDescriptor { endpoint, register }
    }

    /// Sets the TypeScript accessor path of the endpoint.
    pub fn ts_path(self, ts_path: &[&str]) -> (r: Self)
        ensures
            r.endpoint@ == (EndpointModel { ts_path: strs_view(ts_path@), ..self.endpoint@ }),
            r.register@ == self.register@,
    {
        let EndpointDescriptor { endpoint, register } = self;
        EndpointDescriptor { endpoint: endpoint.ts_path(ts_path), register }
    }

    /// The endpoint.
    pub fn into_endpoint(self) -> (r: Endpoint)
        ensures
            r@ == self.endpoint@,
    {
        self.endpoint
    }

    /// Registers the endpoint's types and errors into `registry`, each once,
    /// in order.
    pub fn register_types_and_errors(&self, registry: &mut ContractRegistry)
        ensures
            final(registry)@.types == spec_merge_types(old(registry)@.types, self.register@.types),
            final(registry)@.errors == spec_merge_errors(old(registry)@.errors, self.register@.errors),
    {
        let types = self.register.type_defs();
        let errors = self.register.error_defs();
        let ghost start = registry@;
        let ghost new_types = self.register@.types;
        let ghost new_errors = self.register@.errors;
        for i in 0..types.len()
            invariant
                crate::ir::type_defs_view(types@) == new_types,
                registry@.types == spec_merge_types(start.types, new_types.take(i as int)),
                registry@.errors == start.errors,
        {
            let d = types[i].clone();
            assert(d@ == new_types[i as int]);
            assert(new_types.take(i + 1).drop_last() =~= new_types.take(i as int));
            registry.insert_type(d);
        }
        assert(new_types.take(types@.len() as int) =~= new_types);
        for k in 0..errors.len()
            invariant
                crate::ir::error_defs_view(errors@) == new_errors,
                registry@.errors == spec_merge_errors(start.errors, new_errors.take(k as int)),
                registry@.types == spec_merge_types(start.types, new_types),
        {
            let d = errors[k].clone();
            assert(d@ == new_errors[k as int]);
            assert(new_errors.take(k + 1).drop_last() =~= new_errors.take(k as int));
            registry.insert_error(d);
        }
        assert(new_errors.take(errors@.len() as int) =~= new_errors);
    }
}

/// Explicit root module for exported API endpoints.
#[derive(Debug, Default, PartialEq, Eq)]
pub struct ApiModule {
    pub name: String,
    pub endpoints: Vec<Endpoint>,
    pub registry: ContractRegistry,
}

/// Model of an [`ApiModule`]: its name, its endpoints in order, and its
/// registry.
pub struct ApiModuleModel {
    pub name: Seq<char>,
    pub endpoints: Seq<EndpointModel>,
    pub registry: RegistryModel,
}

impl View for ApiModule {
    type V = ApiModuleModel;

    open spec fn view(&self) -> ApiModuleModel {
        ApiModuleModel {
            name: self.name@,
            endpoints: core_endpoints_view(self.endpoints@),
            registry: self.registry@,
        }
    }
}

/// Reachability summary for exported endpoint collection.
#[derive(Debug, Default, PartialEq, Eq)]
pub struct EndpointReachability {
    pub root_module: String,
    pub endpoint_ids: Vec<SymbolId>,
}

/// The values of a list of symbol ids.
pub open spec fn ids_view(v: Seq<SymbolId>) -> Seq<Seq<char>> {
    v.map_values(|id: SymbolId| id@)
}

impl ApiModule {
    /// An empty module named `name`.
    pub fn new(name: &str) -> (r: Self)
        ensures
            r.name@ == name@,
            r.endpoints@.len() == 0,
            r.registry@.types.len() == 0,
            r.registry@.errors.len() == 0,
    {
        ApiModule { name: name.to_owned(), endpoints: Vec::new(), registry: ContractRegistry::new() }
    }

    /// Adds an endpoint without registering any definitions.
    pub fn with_endpoint(self, endpoint: Endpoint) -> (r: Self)
        ensures
            r.name@ == self.name@,
            core_endpoints_view(r.endpoints@) == core_endpoints_view(self.endpoints@).push(endpoint@),
            r.registry@ == self.registry@,
    {
        let mut m = self;
        let ghost before = m.endpoints@;
        m.endpoints.push(endpoint);
        assert(core_endpoints_view(m.endpoints@) =~= core_endpoints_view(before).push(endpoint@));
        m
    }

    /// Adds an endpoint and registers the definitions it contributes.
    pub fn with_endpoint_descriptor(self, descriptor: EndpointDescriptor) -> (r: Self)
        ensures
            r.name@ == self.name@,
            core_endpoints_view(r.endpoints@) == core_endpoints_view(self.endpoints@).push(
                descriptor.endpoint@,
            ),
            r.registry@.types == spec_merge_types(self.registry@.types, descriptor.register@.types),
            r.registry@.errors == spec_merge_errors(
                self.registry@.errors,
                descriptor.register@.errors,
            ),
    {
        let mut m = self;
        descriptor.register_types_and_errors(&mut m.registry);
        let ghost before = m.endpoints@;
        let EndpointDescriptor { endpoint, register: _ } = descriptor;
        m.endpoints.push(endpoint);
        assert(core_endpoints_view(m.endpoints@) =~= core_endpoints_view(before).push(
            descriptor.endpoint@,
        ));
        m
    }

    /// Replaces the module's registry.
    pub fn with_registry(self, registry: ContractRegistry) -> (r: Self)
        ensures
            r.name@ == self.name@,
            core_endpoints_view(r.endpoints@) == core_endpoints_view(self.endpoints@),
            r.registry@ == registry@,
    {
        let mut m = self;
        m.registry = registry;
        m
    }

    /// The module's registry.
    pub fn registry(&self) -> (r: &ContractRegistry)
        ensures
            r@ == self.registry@,
    {
        &self.registry
    }

    /// The module's registry, for in-place registration.
    pub fn registry_mut(&mut self) -> (r: &mut ContractRegistry)
        ensures
            r@ == old(self).registry@,
            final(self).registry@ == final(r)@,
            final(self).name@ == old(self).name@,
            core_endpoints_view(final(self).endpoints@) == core_endpoints_view(old(self).endpoints@),
    {
        &mut self.registry
    }

    /// The contract IR of every endpoint, in module order.
    pub fn endpoint_irs(&self) -> (r: Vec<crate::ir::Endpoint>)
        ensures
            endpoints_view(r@) == core_endpoints_view(self.endpoints@),
    {
        let mut out: Vec<crate::ir::Endpoint> = Vec::new();
        for i in 0..self.endpoints.len()
            invariant
                out@.len() == i,
                forall|j: int| 0 <= j < i ==> #[trigger] out@[j]@ == self.endpoints@[j]@,
        {
            out.push(self.endpoints[i].clone().into_ir());
        }
        assert(endpoints_view(out@) =~= core_endpoints_view(self.endpoints@));
        out
    }

    /// The module name and the ids of its endpoints, in module order.
    pub fn reachability_graph(&self) -> (r: EndpointReachability)
        ensures
            r.root_module@ == self.name@,
            ids_view(r.endpoint_ids@) == core_endpoints_view(self.endpoints@).map_values(
                |e: EndpointModel| e.id,
            ),
    {
        let mut ids: Vec<SymbolId> = Vec::new();
        for i in 0..self.endpoints.len()
            invariant
                ids@.len() == i,
                forall|j: int| 0 <= j < i ==> #[trigger] ids@[j]@ == self.endpoints@[j]@.id,
        {
            ids.push(self.endpoints[i].id.clone());
        }
        assert(ids_view(ids@) =~= core_endpoints_view(self.endpoints@).map_values(
            |e: EndpointModel| e.id,
        ));
        EndpointReachability { root_module: self.name.clone(), endpoint_ids: ids }
    }
}

} // verus!
