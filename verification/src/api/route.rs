//! Route trees: endpoints mounted at effective paths, possibly nested under
//! path prefixes, and their flattening into an API module.

use vstd::prelude::*;
use crate::api::endpoint::{ApiModule, ApiModuleModel, Endpoint, EndpointDescriptor, core_endpoints_view};
use crate::api::{RegistryModel, spec_merge_errors, spec_merge_types};
use crate::ir::{EndpointModel, HttpMethod, SourceRange};
use crate::text::push_str;

verus! {

/// An endpoint descriptor mounted at its effective method and path.
#[derive(Debug)]
pub struct MountedEndpoint {
    pub descriptor: EndpointDescriptor,
    pub source: SourceRange,
    pub effective_method: HttpMethod,
    pub effective_path: String,
}

/// One node of a route tree.
#[derive(Debug)]
pub enum ApiRouteNode {
    Endpoint(MountedEndpoint),
    Nest { path: String, source: SourceRange, child: Box<ApiRouteTree> },
}

/// The routes of one module: endpoints and nested modules, in order.
#[derive(Debug)]
pub struct ApiRouteTree {
    pub module_name: String,
    pub nodes: Vec<ApiRouteNode>,
}

/// The endpoint a mount exposes: the descriptor's endpoint at the effective
/// method and at the effective path under `prefix`.
pub open spec fn spec_mounted_endpoint(m: MountedEndpoint, prefix: Seq<char>) -> EndpointModel {
    EndpointModel {
        route: prefix + m.effective_path@,
        method: m.effective_method,
        ..m.descriptor.endpoint@
    }
}

/// The endpoints and registrations of `nodes` mounted under `prefix`, in
/// order, nested modules flattened in place.
pub open spec fn spec_mounts(nodes: Seq<ApiRouteNode>, prefix: Seq<char>) -> Seq<(EndpointModel, RegistryModel)>
    decreases nodes,
{
    if nodes.len() == 0 {
        Seq::empty()
    } else {
        let rest = spec_mounts(nodes.drop_last(), prefix);
        match nodes.last() {
            ApiRouteNode::Endpoint(m) => rest.push(
                (spec_mounted_endpoint(m, prefix), m.descriptor.register@),
            ),
            ApiRouteNode::Nest { path, source: _, child } => rest + spec_mounts(
                child.nodes@,
                prefix + path@,
            ),
        }
    }
}

/// A registry after merging the registrations `regs` in order.
pub open spec fn spec_merge_all(start: RegistryModel, regs: Seq<RegistryModel>) -> RegistryModel
    decreases regs.len(),
{
    if regs.len() == 0 {
        start
    } else {
        let m = spec_merge_all(start, regs.drop_last());
        RegistryModel {
            types: spec_merge_types(m.types, regs.last().types),
            errors: spec_merge_errors(m.errors, regs.last().errors),
        }
    }
}

/// Roots that the collector accepts: an API module, or a route tree that
/// flattens into one.
pub trait IntoApiRoot: Sized {
    /// The module that this root exports, as a model.
    spec fn spec_root_module(self) -> ApiModuleModel;

    /// The module that this root exports.
    fn into_api_module(self) -> (r: ApiModule)
        ensures
            r@ == self.spec_root_module(),
    ;
}

impl IntoApiRoot for ApiModule {
    /// A module is its own root.
    open spec fn spec_root_module(self) -> ApiModuleModel {
        self@
    }

    fn into_api_module(self) -> (r: ApiModule)
        ensures
            r == self,
    {
        self
    }
}

fn mount_nodes(module: ApiModule, nodes: &Vec<ApiRouteNode>, prefix: &str) -> (r: ApiModule)
    ensures
        r.name@ == module.name@,
        core_endpoints_view(r.endpoints@) == core_endpoints_view(module.endpoints@) + spec_mounts(
            nodes@,
            prefix@,
        ).map_values(|p: (EndpointModel, RegistryModel)| p.0),
        r.registry@ == spec_merge_all(
            module.registry@,
            spec_mounts(nodes@, prefix@).map_values(|p: (EndpointModel, RegistryModel)| p.1),
        ),
    decreases nodes@,
{
    let mut module = module;
    let ghost name = module.name@;
    let ghost start_eps = core_endpoints_view(module.endpoints@);
    let ghost start_reg = module.registry@;
    for i in 0..nodes.len()
        invariant
            module.name@ == name,
            core_endpoints_view(module.endpoints@) == start_eps + spec_mounts(
                nodes@.take(i as int),
                prefix@,
            ).map_values(|p: (EndpointModel, RegistryModel)| p.0),
            module.registry@ == spec_merge_all(
                start_reg,
                spec_mounts(nodes@.take(i as int), prefix@).map_values(
                    |p: (EndpointModel, RegistryModel)| p.1,
                ),
            ),
    {
        assert(nodes@.take(i + 1).drop_last() =~= nodes@.take(i as int));
        assert(nodes@.take(i + 1).last() == nodes@[i as int]);
        let ghost before = spec_mounts(nodes@.take(i as int), prefix@);
        match &nodes[i] {
            ApiRouteNode::Endpoint(m) => {
                let descriptor = m.descriptor.clone();
                let mut route = prefix.to_owned();
                push_str(&mut route, m.effective_path.as_str());
                let EndpointDescriptor { endpoint, register } = descriptor;
                let mut endpoint = endpoint;
                endpoint.route = crate::ir::RoutePattern(route);
                endpoint.method = m.effective_method;
                let ghost added = (spec_mounted_endpoint(*m, prefix@), m.descriptor.register@);
                assert(endpoint@ == added.0);
                module = module.with_endpoint_descriptor(EndpointDescriptor { endpoint, register });
                assert(spec_mounts(nodes@.take(i + 1), prefix@) == before.push(added));
                assert(before.push(added).map_values(|p: (EndpointModel, RegistryModel)| p.0) =~= before.map_values(
                    |p: (EndpointModel, RegistryModel)| p.0,
                ).push(added.0));
                assert(before.push(added).map_values(|p: (EndpointModel, RegistryModel)| p.1) =~= before.map_values(
                    |p: (EndpointModel, RegistryModel)| p.1,
                ).push(added.1));
                assert(before.push(added).map_values(|p: (EndpointModel, RegistryModel)| p.1).drop_last() =~= before.map_values(
                    |p: (EndpointModel, RegistryModel)| p.1,
                ));
            },
            ApiRouteNode::Nest { path, source: _, child } => {
                let mut nested = prefix.to_owned();
                push_str(&mut nested, path.as_str());
                let ghost mid_eps = core_endpoints_view(module.endpoints@);
                let ghost mid_reg = module.registry@;
                let ghost inner = spec_mounts(child.nodes@, nested@);
                module = mount_nodes(module, &child.nodes, nested.as_str());
                assert(spec_mounts(nodes@.take(i + 1), prefix@) == before + inner);
                assert((before + inner).map_values(|p: (EndpointModel, RegistryModel)| p.0) =~= before.map_values(
                    |p: (EndpointModel, RegistryModel)| p.0,
                ) + inner.map_values(|p: (EndpointModel, RegistryModel)| p.0));
                proof {
                    lemma_merge_all_append(
                        start_reg,
                        before.map_values(|p: (EndpointModel, RegistryModel)| p.1),
                        inner.map_values(|p: (EndpointModel, RegistryModel)| p.1),
                    );
                }
                assert((before + inner).map_values(|p: (EndpointModel, RegistryModel)| p.1) =~= before.map_values(
                    |p: (EndpointModel, RegistryModel)| p.1,
                ) + inner.map_values(|p: (EndpointModel, RegistryModel)| p.1));
            },
        }
    }
    assert(nodes@.take(nodes@.len() as int) =~= nodes@);
    module
}

/// Merging `a + b` is merging `a`, then `b`.
pub proof fn lemma_merge_all_append(start: RegistryModel, a: Seq<RegistryModel>, b: Seq<RegistryModel>)
    ensures
        spec_merge_all(start, a + b) == spec_merge_all(spec_merge_all(start, a), b),
    decreases b.len(),
{
    if b.len() == 0 {
        assert(a + b =~= a);
    } else {
        assert((a + b).drop_last() =~= a + b.drop_last());
        assert((a + b).last() == b.last());
        lemma_merge_all_append(start, a, b.drop_last());
    }
}

impl IntoApiRoot for ApiRouteTree {
    /// A tree roots the module named after it, holding each mounted endpoint
    /// at its full path and the registrations merged in order.
    open spec fn spec_root_module(self) -> ApiModuleModel {
        let mounts = spec_mounts(self.nodes@, Seq::empty());
        ApiModuleModel {
            name: self.module_name@,
            endpoints: mounts.map_values(|p: (EndpointModel, RegistryModel)| p.0),
            registry: spec_merge_all(
                RegistryModel { types: Seq::empty(), errors: Seq::empty() },
                mounts.map_values(|p: (EndpointModel, RegistryModel)| p.1),
            ),
        }
    }

    /// Flattens the tree into a module named after it: each mounted endpoint
    /// at its effective method and full path, its registrations merged in
    /// order.
    fn into_api_module(self) -> (r: ApiModule)
        ensures
            r.name@ == self.module_name@,
            core_endpoints_view(r.endpoints@) == spec_mounts(self.nodes@, Seq::empty()).map_values(
                |p: (EndpointModel, RegistryModel)| p.0,
            ),
            r.registry@ == spec_merge_all(
                RegistryModel { types: Seq::empty(), errors: Seq::empty() },
                spec_mounts(self.nodes@, Seq::empty()).map_values(
                    |p: (EndpointModel, RegistryModel)| p.1,
                ),
            ),
    {
        let module = ApiModule::new(self.module_name.as_str());
        assert(core_endpoints_view(module.endpoints@) =~= Seq::<EndpointModel>::empty());
        assert(module.registry@.types =~= Seq::<crate::ir::TypeDefModel>::empty());
        assert(module.registry@.errors =~= Seq::<crate::ir::ErrorDefModel>::empty());
        proof {
            reveal_strlit("");
        }
        let r = mount_nodes(module, &self.nodes, "");
        assert(core_endpoints_view(r.endpoints@) =~= spec_mounts(self.nodes@, ""@).map_values(
            |p: (EndpointModel, RegistryModel)| p.0,
        ));
        assert(""@ =~= Seq::<char>::empty());
        r
    }
}

} // verus!
