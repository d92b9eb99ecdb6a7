//! API contract collection: the endpoints of a root module and the type
//! and error definitions reachable from them.

pub mod rust_syntax;
pub mod source_index;
pub mod usage;

use vstd::prelude::*;
use crate::api::{ApiModule, IntoApiRoot, RegistryModel};
use crate::api::endpoint::core_endpoints_view;
use crate::ir::{
    ApiContract, ApiContractModel, EndpointModel, EnumVariantModel, ErrorDef, ErrorDefModel,
    ErrorVariantModel, FieldModel, RefModel, ResponseShapeModel, TypeDef, TypeDefModel,
    TypeShapeModel, error_defs_view, strings_view, type_defs_view,
};
use crate::order::{seq_lt, spec_sorted_set, str_eq, str_lt};

verus! {

/// A cargo workspace as `api doctor` reports it: its root and its
/// packages' names.
#[derive(Debug, PartialEq, Eq)]
pub struct WorkspaceDiscovery {
    pub root: String,
    pub packages: Vec<String>,
}

/// An empty contract for `package_name`.
pub fn collect_empty_contract(package_name: &str) -> (r: ApiContract)
    ensures
        r@.package_name == package_name@,
        r@.endpoints.len() == 0,
        r@.types.len() == 0,
        r@.errors.len() == 0,
{
    let r = ApiContract {
        package_name: package_name.to_owned(),
        endpoints: Vec::new(),
        types: Vec::new(),
        errors: Vec::new(),
    };
    assert(r@.endpoints =~= Seq::empty());
    assert(r@.types =~= Seq::empty());
    assert(r@.errors =~= Seq::empty());
    r
}

/// The ids of the types that fields refer to.
pub open spec fn spec_field_ids(fs: Seq<FieldModel>) -> Seq<Seq<char>> {
    fs.map_values(|f: FieldModel| f.type_ref.id)
}

/// The ids of the types that the fields of enum variants refer to.
pub open spec fn spec_variant_field_ids(vs: Seq<EnumVariantModel>) -> Seq<Seq<char>>
    decreases vs.len(),
{
    if vs.len() == 0 {
        Seq::empty()
    } else {
        spec_variant_field_ids(vs.drop_last()) + spec_field_ids(vs.last().fields)
    }
}

/// The ids of the types that a shape refers to.
pub open spec fn spec_shape_ids(shape: TypeShapeModel) -> Seq<Seq<char>> {
    match shape {
        TypeShapeModel::Primitive(_) => Seq::empty(),
        TypeShapeModel::External(_) => Seq::empty(),
        TypeShapeModel::Struct(fs) => spec_field_ids(fs),
        TypeShapeModel::Enum(vs) => spec_variant_field_ids(vs),
        TypeShapeModel::Newtype(t) => seq![t.id],
        TypeShapeModel::List(t) => seq![t.id],
        TypeShapeModel::Option(t) => seq![t.id],
        TypeShapeModel::Tuple(items) => items.map_values(|t: RefModel| t.id),
        TypeShapeModel::Record { key, value } => seq![key.id, value.id],
    }
}

fn push_field_ids(ids: &mut Vec<String>, fields: &Vec<crate::ir::Field>)
    ensures
        strings_view(final(ids)@) == strings_view(old(ids)@) + spec_field_ids(
            crate::ir::fields_view(fields@),
        ),
{
    let ghost start = strings_view(ids@);
    for i in 0..fields.len()
        invariant
            strings_view(ids@) == start + spec_field_ids(crate::ir::fields_view(fields@)).take(i as int),
    {
        let ghost before = strings_view(ids@);
        ids.push(fields[i].type_ref.id.as_str().to_owned());
        assert(strings_view(ids@) =~= before.push(fields@[i as int].type_ref.id@));
        assert(spec_field_ids(crate::ir::fields_view(fields@)).take(i + 1) =~= spec_field_ids(
            crate::ir::fields_view(fields@),
        ).take(i as int).push(fields@[i as int].type_ref.id@));
    }
    assert(spec_field_ids(crate::ir::fields_view(fields@)).take(fields@.len() as int) =~= spec_field_ids(
        crate::ir::fields_view(fields@),
    ));
}

fn push_ref_id(ids: &mut Vec<String>, type_ref: &crate::ir::TypeRef)
    ensures
        strings_view(final(ids)@) == strings_view(old(ids)@).push(type_ref@.id),
{
    let ghost before = strings_view(ids@);
    ids.push(type_ref.id.as_str().to_owned());
    assert(strings_view(ids@) =~= before.push(type_ref@.id));
}

/// Appends the ids of the types that a shape refers to.
pub fn collect_shape_types(shape: &crate::ir::TypeShape, ids: &mut Vec<String>)
    ensures
        strings_view(final(ids)@) == strings_view(old(ids)@) + spec_shape_ids(shape@),
{
    let ghost start = strings_view(ids@);
    match shape {
        crate::ir::TypeShape::Primitive(_) | crate::ir::TypeShape::External(_) => {
            assert(strings_view(ids@) =~= start + spec_shape_ids(shape@));
        },
        crate::ir::TypeShape::Struct(s) => push_field_ids(ids, &s.fields),
        crate::ir::TypeShape::Enum(e) => {
            let ghost vs = crate::ir::variants_view(e.variants@);
            for i in 0..e.variants.len()
                invariant
                    vs == crate::ir::variants_view(e.variants@),
                    strings_view(ids@) == start + spec_variant_field_ids(vs.take(i as int)),
            {
                assert(vs.take(i + 1).drop_last() =~= vs.take(i as int));
                push_field_ids(ids, &e.variants[i].fields);
                assert(strings_view(ids@) =~= start + spec_variant_field_ids(vs.take(i + 1)));
            }
            assert(vs.take(e.variants@.len() as int) =~= vs);
        },
        crate::ir::TypeShape::Newtype(t) | crate::ir::TypeShape::List(t)
        | crate::ir::TypeShape::Option(t) => {
            push_ref_id(ids, t);
            assert(strings_view(ids@) =~= start + spec_shape_ids(shape@));
        },
        crate::ir::TypeShape::Tuple(items) => {
            let ghost ts = crate::ir::type_refs_view(items@);
            for i in 0..items.len()
                invariant
                    ts == crate::ir::type_refs_view(items@),
                    strings_view(ids@) == start + ts.take(i as int).map_values(|t: RefModel| t.id),
            {
                push_ref_id(ids, &items[i]);
                assert(ts.take(i + 1).map_values(|t: RefModel| t.id) =~= ts.take(i as int).map_values(
                    |t: RefModel| t.id,
                ).push(ts[i as int].id));
            }
            assert(ts.take(items@.len() as int) =~= ts);
        },
        crate::ir::TypeShape::Record { key, value } => {
            push_ref_id(ids, key);
            push_ref_id(ids, value);
            assert(strings_view(ids@) =~= start + spec_shape_ids(shape@));
        },
    }
}

/// The definition registered last under `id`, as an ordered map keyed by id
/// keeps it.
pub open spec fn spec_lookup_type(defs: Seq<TypeDefModel>, id: Seq<char>) -> Option<TypeDefModel>
    decreases defs.len(),
{
    if defs.len() == 0 {
        None
    } else if defs.last().id == id {
        Some(defs.last())
    } else {
        spec_lookup_type(defs.drop_last(), id)
    }
}

/// The error definition registered last under `id`.
pub open spec fn spec_lookup_error(defs: Seq<ErrorDefModel>, id: Seq<char>) -> Option<ErrorDefModel>
    decreases defs.len(),
{
    if defs.len() == 0 {
        None
    } else if defs.last().id == id {
        Some(defs.last())
    } else {
        spec_lookup_error(defs.drop_last(), id)
    }
}

/// The index of the definition registered last under `id`.
pub fn find_type(defs: &Vec<TypeDef>, id: &str) -> (r: Option<usize>)
    ensures
        match spec_lookup_type(type_defs_view(defs@), id@) {
            Some(d) => r matches Some(i) && i < defs@.len() && defs@[i as int]@ == d,
            None => r is None,
        },
{
    let ghost ds = type_defs_view(defs@);
    let mut found: Option<usize> = None;
    for i in 0..defs.len()
        invariant
            ds == type_defs_view(defs@),
            match spec_lookup_type(ds.take(i as int), id@) {
                Some(d) => found matches Some(j) && j < i && defs@[j as int]@ == d,
                None => found is None,
            },
    {
        assert(ds.take(i + 1).drop_last() =~= ds.take(i as int));
        if str_eq(defs[i].id.as_str(), id) {
            found = Some(i);
        }
    }
    assert(ds.take(defs@.len() as int) =~= ds);
    found
}

/// The index of the error definition registered last under `id`.
pub fn find_error(defs: &Vec<ErrorDef>, id: &str) -> (r: Option<usize>)
    ensures
        match spec_lookup_error(error_defs_view(defs@), id@) {
            Some(d) => r matches Some(i) && i < defs@.len() && defs@[i as int]@ == d,
            None => r is None,
        },
{
    let ghost ds = error_defs_view(defs@);
    let mut found: Option<usize> = None;
    for i in 0..defs.len()
        invariant
            ds == error_defs_view(defs@),
            match spec_lookup_error(ds.take(i as int), id@) {
                Some(d) => found matches Some(j) && j < i && defs@[j as int]@ == d,
                None => found is None,
            },
    {
        assert(ds.take(i + 1).drop_last() =~= ds.take(i as int));
        if str_eq(defs[i].id.as_str(), id) {
            found = Some(i);
        }
    }
    assert(ds.take(defs@.len() as int) =~= ds);
    found
}

/// The largest id of `needed` (in text order) that is not in `visited`.
pub open spec fn spec_pick(needed: Seq<Seq<char>>, visited: Seq<Seq<char>>) -> Option<Seq<char>>
    decreases needed.len(),
{
    if needed.len() == 0 {
        None
    } else {
        let best = spec_pick(needed.drop_last(), visited);
        let x = needed.last();
        if visited.contains(x) {
            best
        } else {
            match best {
                None => Some(x),
                Some(y) => if seq_lt(y, x) {
                    Some(x)
                } else {
                    Some(y)
                },
            }
        }
    }
}

proof fn lemma_pick_in(needed: Seq<Seq<char>>, visited: Seq<Seq<char>>)
    ensures
        spec_pick(needed, visited) matches Some(x) ==> needed.contains(x) && !visited.contains(x),
    decreases needed.len(),
{
    if needed.len() > 0 {
        lemma_pick_in(needed.drop_last(), visited);
        if let Some(x) = spec_pick(needed, visited) {
            if x != needed.last() {
                let w = choose|w: int| 0 <= w < needed.drop_last().len() && needed.drop_last()[w] == x;
                assert(needed[w] == x);
            } else {
                assert(needed[needed.len() - 1] == x);
            }
        }
    }
}

/// Whether `x` occurs in `items`.
pub fn contains_str(items: &Vec<String>, x: &str) -> (r: bool)
    ensures
        r == strings_view(items@).contains(x@),
{
    for i in 0..items.len()
        invariant
            forall|j: int| 0 <= j < i ==> #[trigger] items@[j]@ != x@,
    {
        if str_eq(items[i].as_str(), x) {
            assert(strings_view(items@)[i as int] == x@);
            return true;
        }
    }
    assert(!strings_view(items@).contains(x@)) by {
        if strings_view(items@).contains(x@) {
            let w = choose|w: int| 0 <= w < strings_view(items@).len() && strings_view(items@)[w] == x@;
            assert(items@[w]@ == x@);
        }
    }
    false
}

/// The position in `needed` of the largest id that is not in `visited`.
pub fn pick_unvisited(needed: &Vec<String>, visited: &Vec<String>) -> (r: Option<usize>)
    ensures
        match spec_pick(strings_view(needed@), strings_view(visited@)) {
            Some(x) => r matches Some(i) && i < needed@.len() && needed@[i as int]@ == x,
            None => r is None,
        },
{
    let ghost ns = strings_view(needed@);
    let ghost vs = strings_view(visited@);
    let mut best: Option<usize> = None;
    for j in 0..needed.len()
        invariant
            ns == strings_view(needed@),
            vs == strings_view(visited@),
            match spec_pick(ns.take(j as int), vs) {
                Some(x) => best matches Some(i) && i < j && needed@[i as int]@ == x,
                None => best is None,
            },
    {
        assert(ns.take(j + 1).drop_last() =~= ns.take(j as int));
        assert(ns.take(j + 1).last() == needed@[j as int]@);
        if !contains_str(visited, needed[j].as_str()) {
            match best {
                None => {
                    best = Some(j);
                },
                Some(i) => {
                    if str_lt(needed[i].as_str(), needed[j].as_str()) {
                        best = Some(j);
                    }
                },
            }
        }
    }
    assert(ns.take(needed@.len() as int) =~= ns);
    best
}

/// The state of the reachable-type worklist: the ids needed so far, the ids
/// visited, and the definitions collected, in visiting order.
pub struct WorkState {
    pub needed: Seq<Seq<char>>,
    pub visited: Seq<Seq<char>>,
    pub types: Seq<TypeDefModel>,
}

/// One worklist step: visit the largest needed id not yet visited; when it
/// names a registered type, collect the type and need what its shape refers
/// to.
pub open spec fn spec_step(s: WorkState, index: Seq<TypeDefModel>) -> WorkState {
    match spec_pick(s.needed, s.visited) {
        None => s,
        Some(x) => match spec_lookup_type(index, x) {
            None => WorkState { visited: s.visited.push(x), ..s },
            Some(d) => WorkState {
                needed: s.needed + spec_shape_ids(d.shape),
                visited: s.visited.push(x),
                types: s.types.push(d),
            },
        },
    }
}

/// The worklist after `n` steps.
pub open spec fn spec_iterate(s: WorkState, index: Seq<TypeDefModel>, n: nat) -> WorkState
    decreases n,
{
    if n == 0 {
        s
    } else {
        spec_step(spec_iterate(s, index, (n - 1) as nat), index)
    }
}

/// Whether the worklist has nothing left to visit.
pub open spec fn spec_done(s: WorkState) -> bool {
    spec_pick(s.needed, s.visited) is None
}

/// The definitions collected once the worklist has nothing left to visit.
pub open spec fn spec_reachable_types(s: WorkState, index: Seq<TypeDefModel>) -> Seq<TypeDefModel> {
    spec_iterate(s, index, choose|n: nat| spec_done(spec_iterate(s, index, n))).types
}

/// Once done, further steps change nothing.
pub proof fn lemma_iterate_done(s: WorkState, index: Seq<TypeDefModel>, n: nat, m: nat)
    requires
        spec_done(spec_iterate(s, index, n)),
        n <= m,
    ensures
        spec_iterate(s, index, m) == spec_iterate(s, index, n),
    decreases m - n,
{
    if m > n {
        lemma_iterate_done(s, index, n, (m - 1) as nat);
    }
}

/// The finished worklist is the same however many steps it took.
pub proof fn lemma_reachable_types_unique(s: WorkState, index: Seq<TypeDefModel>, n: nat)
    requires
        spec_done(spec_iterate(s, index, n)),
    ensures
        spec_reachable_types(s, index) == spec_iterate(s, index, n).types,
{
    let c = choose|c: nat| spec_done(spec_iterate(s, index, c));
    if c <= n {
        lemma_iterate_done(s, index, c, n);
    } else {
        lemma_iterate_done(s, index, n, c);
    }
}

proof fn lemma_pick_none(needed: Seq<Seq<char>>, visited: Seq<Seq<char>>)
    ensures
        spec_pick(needed, visited) is None ==> forall|i: int| 0 <= i < needed.len() ==> visited.contains(#[trigger] needed[i]),
    decreases needed.len(),
{
    if needed.len() > 0 {
        lemma_pick_none(needed.drop_last(), visited);
        if spec_pick(needed, visited) is None {
            assert forall|i: int| 0 <= i < needed.len() implies visited.contains(#[trigger] needed[i]) by {
                if i < needed.len() - 1 {
                    assert(needed.drop_last()[i] == needed[i]);
                }
            }
        }
    }
}

/// Whether `ids` holds, with every id that names a registered type, the
/// ids that the type's shape refers to.
pub open spec fn closed_under_shapes(ids: Set<Seq<char>>, index: Seq<TypeDefModel>) -> bool {
    forall|x: Seq<char>, i: int|
        #![trigger ids.contains(x), spec_shape_ids(spec_lookup_type(index, x).unwrap().shape)[i]]
        ids.contains(x) && spec_lookup_type(index, x) is Some && 0 <= i < spec_shape_ids(
            spec_lookup_type(index, x).unwrap().shape,
        ).len() ==> ids.contains(spec_shape_ids(spec_lookup_type(index, x).unwrap().shape)[i])
}

/// What holds of the worklist at every step.
spec fn work_inv(w: WorkState, roots: Seq<Seq<char>>, index: Seq<TypeDefModel>) -> bool {
    &&& roots.is_prefix_of(w.needed)
    &&& forall|x: Seq<char>| #[trigger] w.visited.contains(x) ==> w.needed.contains(x)
    &&& forall|x: Seq<char>, i: int|
        #![trigger w.visited.contains(x), spec_shape_ids(spec_lookup_type(index, x).unwrap().shape)[i]]
        w.visited.contains(x) && spec_lookup_type(index, x) is Some && 0 <= i < spec_shape_ids(
            spec_lookup_type(index, x).unwrap().shape,
        ).len() ==> w.needed.contains(spec_shape_ids(spec_lookup_type(index, x).unwrap().shape)[i])
    &&& forall|t: TypeDefModel| #[trigger] w.types.contains(t) <==> exists|x: Seq<char>|
        w.visited.contains(x) && #[trigger] spec_lookup_type(index, x) == Some(t)
}

proof fn lemma_work_inv(roots: Seq<Seq<char>>, index: Seq<TypeDefModel>, n: nat)
    ensures
        work_inv(
            spec_iterate(WorkState { needed: roots, visited: Seq::empty(), types: Seq::empty() }, index, n),
            roots,
            index,
        ),
    decreases n,
{
    let s0 = WorkState { needed: roots, visited: Seq::empty(), types: Seq::empty() };
    if n == 0 {
        assert(roots.is_prefix_of(roots)) by {
            assert(roots.subrange(0, roots.len() as int) =~= roots);
        }
    } else {
        lemma_work_inv(roots, index, (n - 1) as nat);
        let w = spec_iterate(s0, index, (n - 1) as nat);
        let w2 = spec_iterate(s0, index, n);
        lemma_pick_in(w.needed, w.visited);
        match spec_pick(w.needed, w.visited) {
            None => {},
            Some(x) => {
                assert forall|y: Seq<char>| #[trigger] w2.visited.contains(y) implies w2.needed.contains(y) by {
                    if y != x {
                        let k = choose|k: int| 0 <= k < w2.visited.len() && w2.visited[k] == y;
                        assert(w.visited[k] == y);
                        assert(w.visited.contains(y));
                        assert(w.needed.contains(y));
                        let j = choose|j: int| 0 <= j < w.needed.len() && w.needed[j] == y;
                        assert(w2.needed[j] == y);
                    } else {
                        let j = choose|j: int| 0 <= j < w.needed.len() && w.needed[j] == x;
                        assert(w2.needed[j] == x);
                    }
                }
                assert(roots.is_prefix_of(w2.needed)) by {
                    assert forall|i: int| 0 <= i < roots.len() implies roots[i] == w2.needed[i] by {
                        assert(w.needed[i] == roots[i]);
                    }
                }
                assert forall|y: Seq<char>, i: int|
                    #![trigger w2.visited.contains(y), spec_shape_ids(spec_lookup_type(index, y).unwrap().shape)[i]]
                    w2.visited.contains(y) && spec_lookup_type(index, y) is Some && 0 <= i < spec_shape_ids(
                        spec_lookup_type(index, y).unwrap().shape,
                    ).len() implies w2.needed.contains(spec_shape_ids(spec_lookup_type(index, y).unwrap().shape)[i]) by {
                    let ids = spec_shape_ids(spec_lookup_type(index, y).unwrap().shape);
                    if y == x {
                        assert(w2.needed[w.needed.len() + i] == ids[i]);
                    } else {
                        let k = choose|k: int| 0 <= k < w2.visited.len() && w2.visited[k] == y;
                        assert(w.visited[k] == y);
                        assert(w.visited.contains(y));
                        assert(w.needed.contains(ids[i]));
                        let j = choose|j: int| 0 <= j < w.needed.len() && w.needed[j] == ids[i];
                        assert(w2.needed[j] == ids[i]);
                    }
                }
                assert forall|t: TypeDefModel| #[trigger] w2.types.contains(t) <==> exists|y: Seq<char>|
                    w2.visited.contains(y) && #[trigger] spec_lookup_type(index, y) == Some(t) by {
                    if w2.types.contains(t) {
                        let k = choose|k: int| 0 <= k < w2.types.len() && w2.types[k] == t;
                        if k < w.types.len() {
                            assert(w.types[k] == t);
                            assert(w.types.contains(t));
                            let y = choose|y: Seq<char>| w.visited.contains(y) && #[trigger] spec_lookup_type(index, y) == Some(t);
                            let m = choose|m: int| 0 <= m < w.visited.len() && w.visited[m] == y;
                            assert(w2.visited[m] == y);
                            assert(w2.visited.contains(y));
                        } else {
                            assert(w2.visited[w.visited.len() as int] == x);
                            assert(w2.visited.contains(x));
                        }
                    }
                    if exists|y: Seq<char>| w2.visited.contains(y) && #[trigger] spec_lookup_type(index, y) == Some(t) {
                        let y = choose|y: Seq<char>| w2.visited.contains(y) && #[trigger] spec_lookup_type(index, y) == Some(t);
                        if y == x {
                            assert(w2.types[w.types.len() as int] == t);
                        } else {
                            let m = choose|m: int| 0 <= m < w2.visited.len() && w2.visited[m] == y;
                            assert(w.visited[m] == y);
                            assert(w.visited.contains(y));
                            assert(w.types.contains(t));
                            let k = choose|k: int| 0 <= k < w.types.len() && w.types[k] == t;
                            assert(w2.types[k] == t);
                        }
                    }
                }
            },
        }
    }
}

proof fn lemma_needed_within(roots: Seq<Seq<char>>, index: Seq<TypeDefModel>, n: nat, ids: Set<Seq<char>>)
    requires
        forall|x: Seq<char>| #[trigger] roots.contains(x) ==> ids.contains(x),
        closed_under_shapes(ids, index),
    ensures
        forall|x: Seq<char>|
            #[trigger] spec_iterate(
                WorkState { needed: roots, visited: Seq::empty(), types: Seq::empty() },
                index,
                n,
            ).needed.contains(x) ==> ids.contains(x),
    decreases n,
{
    let s0 = WorkState { needed: roots, visited: Seq::empty(), types: Seq::empty() };
    if n > 0 {
        lemma_needed_within(roots, index, (n - 1) as nat, ids);
        let w = spec_iterate(s0, index, (n - 1) as nat);
        let w2 = spec_iterate(s0, index, n);
        lemma_pick_in(w.needed, w.visited);
        assert forall|y: Seq<char>| #[trigger] w2.needed.contains(y) implies ids.contains(y) by {
            let k = choose|k: int| 0 <= k < w2.needed.len() && w2.needed[k] == y;
            if k < w.needed.len() {
                assert(w.needed[k] == y);
                assert(w.needed.contains(y));
            } else {
                let x = spec_pick(w.needed, w.visited).unwrap();
                assert(w.needed.contains(x));
                let i = k - w.needed.len();
                assert(spec_shape_ids(spec_lookup_type(index, x).unwrap().shape)[i] == y);
                assert(ids.contains(x));
            }
        }
    } else {
        assert forall|y: Seq<char>| #[trigger] roots.contains(y) implies ids.contains(y) by {}
    }
}

/// The types the worklist collects, once it is done, are exactly the
/// registered definitions of the least set of ids that holds the roots and,
/// with each id naming a registered type, the ids its shape refers to: the
/// visited ids hold the roots and are closed so, every closed set holding
/// the roots holds them, and the collected types are the definitions
/// registered under them.
pub proof fn lemma_reachable_types_closure(roots: Seq<Seq<char>>, index: Seq<TypeDefModel>, n: nat)
    requires
        spec_done(spec_iterate(WorkState { needed: roots, visited: Seq::empty(), types: Seq::empty() }, index, n)),
    ensures
        ({
            let s0 = WorkState { needed: roots, visited: Seq::empty(), types: Seq::empty() };
            let w = spec_iterate(s0, index, n);
            &&& spec_reachable_types(s0, index) == w.types
            &&& forall|x: Seq<char>| #[trigger] roots.contains(x) ==> w.visited.contains(x)
            &&& closed_under_shapes(w.visited.to_set(), index)
            &&& forall|ids: Set<Seq<char>>|
                (forall|x: Seq<char>| #[trigger] roots.contains(x) ==> ids.contains(x)) && closed_under_shapes(ids, index)
                    ==> forall|x: Seq<char>| #[trigger] w.visited.contains(x) ==> ids.contains(x)
            &&& forall|t: TypeDefModel| #[trigger] w.types.contains(t) <==> exists|x: Seq<char>|
                w.visited.contains(x) && #[trigger] spec_lookup_type(index, x) == Some(t)
        }),
{
    let s0 = WorkState { needed: roots, visited: Seq::empty(), types: Seq::empty() };
    let w = spec_iterate(s0, index, n);
    lemma_reachable_types_unique(s0, index, n);
    lemma_work_inv(roots, index, n);
    lemma_pick_none(w.needed, w.visited);
    assert forall|x: Seq<char>| #[trigger] roots.contains(x) implies w.visited.contains(x) by {
        let k = choose|k: int| 0 <= k < roots.len() && roots[k] == x;
        assert(w.needed[k] == x);
    }
    assert forall|x: Seq<char>, i: int|
        #![trigger w.visited.to_set().contains(x), spec_shape_ids(spec_lookup_type(index, x).unwrap().shape)[i]]
        w.visited.to_set().contains(x) && spec_lookup_type(index, x) is Some && 0 <= i < spec_shape_ids(
            spec_lookup_type(index, x).unwrap().shape,
        ).len() implies w.visited.to_set().contains(spec_shape_ids(spec_lookup_type(index, x).unwrap().shape)[i]) by {
        assert(w.visited.contains(x));
        let y = spec_shape_ids(spec_lookup_type(index, x).unwrap().shape)[i];
        assert(w.needed.contains(y));
        let j = choose|j: int| 0 <= j < w.needed.len() && w.needed[j] == y;
        assert(w.visited.contains(w.needed[j]));
    }
    assert forall|ids: Set<Seq<char>>|
        (forall|x: Seq<char>| #[trigger] roots.contains(x) ==> ids.contains(x)) && closed_under_shapes(ids, index)
            implies forall|x: Seq<char>| #[trigger] w.visited.contains(x) ==> ids.contains(x) by {
        lemma_needed_within(roots, index, n, ids);
    }
}

/// The ids referred to by the shapes of all of `defs`.
pub open spec fn spec_all_shape_ids(defs: Seq<TypeDefModel>) -> Seq<Seq<char>>
    decreases defs.len(),
{
    if defs.len() == 0 {
        Seq::empty()
    } else {
        spec_all_shape_ids(defs.drop_last()) + spec_shape_ids(defs.last().shape)
    }
}

proof fn lemma_lookup_shape_ids(defs: Seq<TypeDefModel>, id: Seq<char>)
    ensures
        spec_lookup_type(defs, id) matches Some(d) ==> forall|i: int|
            0 <= i < spec_shape_ids(d.shape).len() ==> spec_all_shape_ids(defs).contains(
                #[trigger] spec_shape_ids(d.shape)[i],
            ),
    decreases defs.len(),
{
    if defs.len() > 0 {
        lemma_lookup_shape_ids(defs.drop_last(), id);
        let all = spec_all_shape_ids(defs);
        let prev = spec_all_shape_ids(defs.drop_last());
        let last = spec_shape_ids(defs.last().shape);
        if let Some(d) = spec_lookup_type(defs, id) {
            assert forall|i: int| 0 <= i < spec_shape_ids(d.shape).len() implies all.contains(
                #[trigger] spec_shape_ids(d.shape)[i],
            ) by {
                if defs.last().id == id {
                    assert(all[prev.len() + i] == last[i]);
                } else {
                    let w = choose|w: int| 0 <= w < prev.len() && prev[w] == spec_shape_ids(d.shape)[i];
                    assert(all[w] == prev[w]);
                }
            }
        }
    }
}

proof fn lemma_distinct_within(s: Seq<Seq<char>>, u: Seq<Seq<char>>)
    requires
        s.no_duplicates(),
        forall|i: int| 0 <= i < s.len() ==> u.contains(#[trigger] s[i]),
    ensures
        s.len() <= u.len(),
{
    s.unique_seq_to_set();
    u.lemma_cardinality_of_set();
    assert(s.to_set().subset_of(u.to_set())) by {
        assert forall|x: Seq<char>| s.to_set().contains(x) implies u.to_set().contains(x) by {
            let w = choose|w: int| 0 <= w < s.len() && s[w] == x;
            assert(u.contains(s[w]));
        }
    }
    vstd::set_lib::lemma_len_subset(s.to_set(), u.to_set());
}

proof fn lemma_iterate_bound(roots: Seq<Seq<char>>, index: Seq<TypeDefModel>, n: nat)
    requires
        forall|m: nat| m < n ==> !spec_done(
            #[trigger] spec_iterate(WorkState { needed: roots, visited: Seq::empty(), types: Seq::empty() }, index, m),
        ),
    ensures
        ({
            let w = spec_iterate(WorkState { needed: roots, visited: Seq::empty(), types: Seq::empty() }, index, n);
            let u = roots + spec_all_shape_ids(index);
            &&& w.visited.len() == n
            &&& w.visited.no_duplicates()
            &&& forall|i: int| 0 <= i < w.visited.len() ==> u.contains(#[trigger] w.visited[i])
            &&& forall|i: int| 0 <= i < w.needed.len() ==> u.contains(#[trigger] w.needed[i])
        }),
    decreases n,
{
    let s0 = WorkState { needed: roots, visited: Seq::empty(), types: Seq::empty() };
    let u = roots + spec_all_shape_ids(index);
    if n == 0 {
        assert forall|i: int| 0 <= i < roots.len() implies u.contains(#[trigger] roots[i]) by {
            assert(u[i] == roots[i]);
        }
    } else {
        let m = (n - 1) as nat;
        assert forall|k: nat| k < m implies !spec_done(#[trigger] spec_iterate(s0, index, k)) by {
            assert(k < n);
        }
        lemma_iterate_bound(roots, index, m);
        let w = spec_iterate(s0, index, m);
        let w2 = spec_iterate(s0, index, n);
        assert(!spec_done(spec_iterate(s0, index, m)));
        lemma_pick_in(w.needed, w.visited);
        let x = spec_pick(w.needed, w.visited).unwrap();
        assert(u.contains(x)) by {
            let j = choose|j: int| 0 <= j < w.needed.len() && w.needed[j] == x;
        }
        assert(w2.visited == w.visited.push(x));
        assert(w2.visited.no_duplicates()) by {
            assert forall|a: int, b: int| 0 <= a < b < w2.visited.len() implies w2.visited[a] != w2.visited[b] by {
                if b == w.visited.len() {
                    assert(w.visited[a] == w2.visited[a]);
                    assert(w.visited.contains(w.visited[a]));
                } else {
                    assert(w.visited[a] == w2.visited[a] && w.visited[b] == w2.visited[b]);
                }
            }
        }
        assert forall|i: int| 0 <= i < w2.visited.len() implies u.contains(#[trigger] w2.visited[i]) by {
            if i < w.visited.len() {
                assert(w.visited[i] == w2.visited[i]);
            }
        }
        lemma_lookup_shape_ids(index, x);
        assert forall|i: int| 0 <= i < w2.needed.len() implies u.contains(#[trigger] w2.needed[i]) by {
            if i < w.needed.len() {
                assert(w.needed[i] == w2.needed[i]);
            } else {
                let d = spec_lookup_type(index, x).unwrap();
                let y = spec_shape_ids(d.shape)[i - w.needed.len()];
                assert(w2.needed[i] == y);
                assert(spec_all_shape_ids(index).contains(y));
                let k = choose|k: int| 0 <= k < spec_all_shape_ids(index).len() && spec_all_shape_ids(index)[k] == y;
                assert(u[roots.len() + k] == y);
            }
        }
    }
}

/// The worklist always finishes: it visits each id at most once, and every
/// id it can need is a root or an id that a registered shape refers to.
pub proof fn lemma_worklist_finishes(roots: Seq<Seq<char>>, index: Seq<TypeDefModel>)
    ensures
        exists|n: nat|
            spec_done(
                #[trigger] spec_iterate(WorkState { needed: roots, visited: Seq::empty(), types: Seq::empty() }, index, n),
            ),
{
    let s0 = WorkState { needed: roots, visited: Seq::empty(), types: Seq::empty() };
    let u = roots + spec_all_shape_ids(index);
    let big = (u.len() + 1) as nat;
    if forall|m: nat| m < big ==> !spec_done(#[trigger] spec_iterate(s0, index, m)) {
        lemma_iterate_bound(roots, index, big);
        lemma_distinct_within(spec_iterate(s0, index, big).visited, u);
        assert(false);
    }
}

/// The types registered in `index` that the ids in `needed` reach, through
/// the ids their shapes refer to, visiting the largest unvisited id first.
pub fn collect_reachable_types(index: &Vec<TypeDef>, needed: Vec<String>) -> (r: Vec<TypeDef>)
    ensures
        type_defs_view(r@) == spec_reachable_types(
            WorkState {
                needed: strings_view(needed@),
                visited: Seq::empty(),
                types: Seq::empty(),
            },
            type_defs_view(index@),
        ),
        exists|n: nat|
            spec_done(
                #[trigger] spec_iterate(
                    WorkState { needed: strings_view(needed@), visited: Seq::empty(), types: Seq::empty() },
                    type_defs_view(index@),
                    n,
                ),
            ),
{
    let ghost idx = type_defs_view(index@);
    let ghost init = WorkState {
        needed: strings_view(needed@),
        visited: Seq::empty(),
        types: Seq::empty(),
    };
    let ghost universe = strings_view(needed@) + spec_all_shape_ids(idx);
    let mut pending = needed;
    let mut visited: Vec<String> = Vec::new();
    let mut types: Vec<TypeDef> = Vec::new();
    let ghost mut k: nat = 0;
    proof {
        assert forall|i: int| 0 <= i < strings_view(pending@).len() implies universe.contains(
            #[trigger] strings_view(pending@)[i],
        ) by {
            assert(universe[i] == strings_view(pending@)[i]);
        }
        assert(strings_view(visited@) =~= Seq::<Seq<char>>::empty());
        assert(type_defs_view(types@) =~= Seq::<TypeDefModel>::empty());
        assert((WorkState {
            needed: strings_view(pending@),
            visited: strings_view(visited@),
            types: type_defs_view(types@),
        }) == spec_iterate(init, idx, 0));
    }
    loop
        invariant
            idx == type_defs_view(index@),
            (WorkState {
                needed: strings_view(pending@),
                visited: strings_view(visited@),
                types: type_defs_view(types@),
            }) == spec_iterate(init, idx, k),
            forall|i: int| 0 <= i < strings_view(pending@).len() ==> universe.contains(
                #[trigger] strings_view(pending@)[i],
            ),
            strings_view(visited@).no_duplicates(),
            forall|i: int| 0 <= i < strings_view(visited@).len() ==> universe.contains(
                #[trigger] strings_view(visited@)[i],
            ),
            universe == init.needed + spec_all_shape_ids(idx),
            init == (WorkState {
                needed: strings_view(needed@),
                visited: Seq::empty(),
                types: Seq::empty(),
            }),
        decreases universe.len() - strings_view(visited@).len(),
    {
        proof {
            lemma_distinct_within(strings_view(visited@), universe);
        }
        let picked = pick_unvisited(&pending, &visited);
        let i = match picked {
            None => {
                proof {
                    assert(spec_done(spec_iterate(init, idx, k)));
                    lemma_reachable_types_unique(init, idx, k);
                    assert(type_defs_view(types@) == spec_reachable_types(init, idx));

                }
                return types;
            },
            Some(i) => i,
        };
        let id = pending[i].clone();
        proof {
            lemma_pick_in(strings_view(pending@), strings_view(visited@));
        }
        let ghost vs = strings_view(visited@);
        visited.push(id.clone());
        assert(strings_view(visited@) =~= vs.push(id@));
        assert(universe.contains(id@)) by {
            let w = choose|w: int| 0 <= w < strings_view(pending@).len() && strings_view(pending@)[w] == id@;
        }
        assert(strings_view(visited@).no_duplicates()) by {
            assert forall|a: int, b: int| 0 <= a < b < strings_view(visited@).len() implies strings_view(
                visited@,
            )[a] != strings_view(visited@)[b] by {
                if b == vs.len() {
                    assert(vs[a] == strings_view(visited@)[a]);
                    assert(vs.contains(vs[a]));
                }
            }
        }
        match find_type(index, id.as_str()) {
            None => {},
            Some(j) => {
                let ghost ns = strings_view(pending@);
                collect_shape_types(&index[j].shape, &mut pending);
                let ghost ts = type_defs_view(types@);
                types.push(index[j].clone());
                assert(type_defs_view(types@) =~= ts.push(idx[j as int]));
                proof {
                    lemma_lookup_shape_ids(idx, id@);
                    let added = spec_shape_ids(idx[j as int].shape);
                    assert forall|q: int| 0 <= q < strings_view(pending@).len() implies universe.contains(
                        #[trigger] strings_view(pending@)[q],
                    ) by {
                        if q >= ns.len() {
                            assert(strings_view(pending@)[q] == added[q - ns.len()]);
                            let w = choose|w: int| 0 <= w < spec_all_shape_ids(idx).len()
                                && spec_all_shape_ids(idx)[w] == added[q - ns.len()];
                            assert(universe[init.needed.len() + w] == spec_all_shape_ids(idx)[w]);
                        } else {
                            assert(strings_view(pending@)[q] == ns[q]);
                        }
                    }
                }
            },
        }
        proof {
            lemma_distinct_within(strings_view(visited@), universe);
            k = k + 1;
        }
    }
}

/// Explicit metadata provided to the collector: the package name, the root
/// module, and additional type and error definitions.
#[derive(Debug, Default)]
pub struct CollectorInput {
    package_name: String,
    root_module: ApiModule,
    types: Vec<TypeDef>,
    errors: Vec<ErrorDef>,
}

/// Model of a [`CollectorInput`].
pub struct CollectorInputModel {
    pub package_name: Seq<char>,
    pub root_name: Seq<char>,
    pub endpoints: Seq<EndpointModel>,
    pub registry: RegistryModel,
    pub types: Seq<TypeDefModel>,
    pub errors: Seq<ErrorDefModel>,
}

impl View for CollectorInput {
    type V = CollectorInputModel;

    closed spec fn view(&self) -> CollectorInputModel {
        CollectorInputModel {
            package_name: self.package_name@,
            root_name: self.root_module.name@,
            endpoints: core_endpoints_view(self.root_module.endpoints@),
            registry: self.root_module.registry@,
            types: type_defs_view(self.types@),
            errors: error_defs_view(self.errors@),
        }
    }
}

impl CollectorInput {
    /// Input for `package_name` rooted at the module that `root` exports.
    pub fn from_root<R: IntoApiRoot>(package_name: &str, root: R) -> (r: Self)
        ensures
            r@.package_name == package_name@,
            r@.root_name == root.spec_root_module().name,
            r@.endpoints == root.spec_root_module().endpoints,
            r@.registry == root.spec_root_module().registry,
            r@.types.len() == 0,
            r@.errors.len() == 0,
    {
        let r = CollectorInput {
            package_name: package_name.to_owned(),
            root_module: root.into_api_module(),
            types: Vec::new(),
            errors: Vec::new(),
        };
        assert(type_defs_view(r.types@) =~= Seq::empty());
        assert(error_defs_view(r.errors@) =~= Seq::empty());
        r
    }
}

/// The ids of the types that an endpoint's request and response refer to.
pub open spec fn spec_endpoint_type_ids(e: EndpointModel) -> Seq<Seq<char>> {
    spec_field_ids(e.request.path_params) + spec_field_ids(e.request.query_params) + match e.request.body {
        Some(t) => seq![t.id],
        None => Seq::empty(),
    } + match e.response {
        ResponseShapeModel::Empty => Seq::empty(),
        ResponseShapeModel::Json(t) => seq![t.id],
        ResponseShapeModel::Created(t) => seq![t.id],
        ResponseShapeModel::Stream(t) => seq![t.id],
    }
}

/// The type ids that the endpoints `es` refer to, in order.
pub open spec fn spec_endpoints_type_ids(es: Seq<EndpointModel>) -> Seq<Seq<char>>
    decreases es.len(),
{
    if es.len() == 0 {
        Seq::empty()
    } else {
        spec_endpoints_type_ids(es.drop_last()) + spec_endpoint_type_ids(es.last())
    }
}

/// The error ids that the endpoints `es` declare, in order.
pub open spec fn spec_endpoints_error_ids(es: Seq<EndpointModel>) -> Seq<Seq<char>>
    decreases es.len(),
{
    if es.len() == 0 {
        Seq::empty()
    } else {
        spec_endpoints_error_ids(es.drop_last()) + es.last().errors.map_values(|r: RefModel| r.id)
    }
}

/// The type ids that the fields of error variants refer to.
pub open spec fn spec_error_variant_ids(vs: Seq<ErrorVariantModel>) -> Seq<Seq<char>>
    decreases vs.len(),
{
    if vs.len() == 0 {
        Seq::empty()
    } else {
        spec_error_variant_ids(vs.drop_last()) + spec_field_ids(vs.last().fields)
    }
}

/// The registered errors for `ids`, in order, and the type ids their
/// variants refer to.
pub open spec fn spec_collect_errors(ids: Seq<Seq<char>>, index: Seq<ErrorDefModel>) -> (
    Seq<ErrorDefModel>,
    Seq<Seq<char>>,
)
    decreases ids.len(),
{
    if ids.len() == 0 {
        (Seq::empty(), Seq::empty())
    } else {
        let (errors, needed) = spec_collect_errors(ids.drop_last(), index);
        match spec_lookup_error(index, ids.last()) {
            None => (errors, needed),
            Some(d) => (errors.push(d), needed + spec_error_variant_ids(d.variants)),
        }
    }
}

/// The contract collected from an input: the root module's endpoints, the
/// errors they declare (once each, in id order), and the registered types
/// reachable from endpoint and error shapes.
pub open spec fn spec_collect(input: CollectorInputModel) -> ApiContractModel {
    let type_index = input.registry.types + input.types;
    let error_index = input.registry.errors + input.errors;
    let error_ids = spec_sorted_set(spec_endpoints_error_ids(input.endpoints));
    let (errors, error_type_ids) = spec_collect_errors(error_ids, error_index);
    let needed = spec_endpoints_type_ids(input.endpoints) + error_type_ids;
    ApiContractModel {
        package_name: input.package_name,
        endpoints: input.endpoints,
        types: spec_reachable_types(
            WorkState { needed, visited: Seq::empty(), types: Seq::empty() },
            type_index,
        ),
        errors,
    }
}

fn push_endpoint_type_ids(ids: &mut Vec<String>, endpoint: &crate::ir::Endpoint)
    ensures
        strings_view(final(ids)@) == strings_view(old(ids)@) + spec_endpoint_type_ids(endpoint@),
{
    let ghost start = strings_view(ids@);
    push_field_ids(ids, &endpoint.request.path_params);
    push_field_ids(ids, &endpoint.request.query_params);
    let ghost params = strings_view(ids@);
    match &endpoint.request.body {
        Some(body) => push_ref_id(ids, body),
        None => {},
    }
    let ghost bodied = strings_view(ids@);
    match &endpoint.response {
        crate::ir::ResponseShape::Empty => {},
        crate::ir::ResponseShape::Json(t) | crate::ir::ResponseShape::Created(t)
        | crate::ir::ResponseShape::Stream(t) => push_ref_id(ids, t),
    }
    assert(strings_view(ids@) =~= start + spec_endpoint_type_ids(endpoint@));
}

fn push_error_variant_ids(ids: &mut Vec<String>, variants: &Vec<crate::ir::ErrorVariant>)
    ensures
        strings_view(final(ids)@) == strings_view(old(ids)@) + spec_error_variant_ids(
            crate::ir::error_variants_view(variants@),
        ),
{
    let ghost vs = crate::ir::error_variants_view(variants@);
    let ghost start = strings_view(ids@);
    for i in 0..variants.len()
        invariant
            vs == crate::ir::error_variants_view(variants@),
            strings_view(ids@) == start + spec_error_variant_ids(vs.take(i as int)),
    {
        assert(vs.take(i + 1).drop_last() =~= vs.take(i as int));
        push_field_ids(ids, &variants[i].fields);
        assert(strings_view(ids@) =~= start + spec_error_variant_ids(vs.take(i + 1)));
    }
    assert(vs.take(variants@.len() as int) =~= vs);
}

fn endpoints_ids(endpoints: &Vec<crate::ir::Endpoint>) -> (r: (Vec<String>, Vec<String>))
    ensures
        strings_view(r.0@) == spec_endpoints_type_ids(crate::ir::endpoints_view(endpoints@)),
        strings_view(r.1@) == spec_endpoints_error_ids(crate::ir::endpoints_view(endpoints@)),
{
    let ghost es = crate::ir::endpoints_view(endpoints@);
    let mut type_ids: Vec<String> = Vec::new();
    let mut error_ids: Vec<String> = Vec::new();
    for i in 0..endpoints.len()
        invariant
            es == crate::ir::endpoints_view(endpoints@),
            strings_view(type_ids@) == spec_endpoints_type_ids(es.take(i as int)),
            strings_view(error_ids@) == spec_endpoints_error_ids(es.take(i as int)),
    {
        assert(es.take(i + 1).drop_last() =~= es.take(i as int));
        push_endpoint_type_ids(&mut type_ids, &endpoints[i]);
        let errors = &endpoints[i].errors;
        let ghost base = strings_view(error_ids@);
        for j in 0..errors.len()
            invariant
                strings_view(error_ids@) == base + errors@.take(j as int).map_values(
                    |r: crate::ir::ErrorRef| r@.id,
                ),
        {
            let ghost before = strings_view(error_ids@);
            error_ids.push(errors[j].id.as_str().to_owned());
            assert(strings_view(error_ids@) =~= before.push(errors@[j as int]@.id));
            assert(errors@.take(j + 1).map_values(|r: crate::ir::ErrorRef| r@.id) =~= errors@.take(
                j as int,
            ).map_values(|r: crate::ir::ErrorRef| r@.id).push(errors@[j as int]@.id));
        }
        assert(errors@.take(errors@.len() as int).map_values(|r: crate::ir::ErrorRef| r@.id)
            =~= es[i as int].errors.map_values(|r: RefModel| r.id));
        assert(strings_view(type_ids@) =~= spec_endpoints_type_ids(es.take(i + 1)));
        assert(strings_view(error_ids@) =~= spec_endpoints_error_ids(es.take(i + 1)));
    }
    assert(es.take(endpoints@.len() as int) =~= es);
    (type_ids, error_ids)
}

/// Whether the shape `shape` refers to the type `r`: as the inner type of a
/// newtype, the item of a list or an option, an item of a tuple, the key or
/// the value of a record, or the type of a field of a struct or of an enum
/// variant.
pub open spec fn shape_refers_to(shape: TypeShapeModel, r: RefModel) -> bool {
    match shape {
        TypeShapeModel::Newtype(t) => t == r,
        TypeShapeModel::List(t) => t == r,
        TypeShapeModel::Option(t) => t == r,
        TypeShapeModel::Tuple(items) => items.contains(r),
        TypeShapeModel::Record { key, value } => key == r || value == r,
        TypeShapeModel::Struct(fs) => exists|i: int| 0 <= i < fs.len() && (#[trigger] fs[i]).type_ref == r,
        TypeShapeModel::Enum(vs) => exists|i: int, j: int|
            0 <= i < vs.len() && 0 <= j < vs[i].fields.len() && (#[trigger] vs[i].fields[j]).type_ref == r,
        _ => false,
    }
}

proof fn lemma_variant_field_ids_has(vs: Seq<EnumVariantModel>, i: int, j: int)
    requires
        0 <= i < vs.len(),
        0 <= j < vs[i].fields.len(),
    ensures
        spec_variant_field_ids(vs).contains(vs[i].fields[j].type_ref.id),
    decreases vs.len(),
{
    let prev = spec_variant_field_ids(vs.drop_last());
    let last = spec_field_ids(vs.last().fields);
    if i < vs.len() - 1 {
        lemma_variant_field_ids_has(vs.drop_last(), i, j);
        let k = choose|k: int| 0 <= k < prev.len() && prev[k] == vs[i].fields[j].type_ref.id;
        assert((prev + last)[k] == prev[k]);
    } else {
        assert((prev + last)[prev.len() + j] == last[j]);
    }
}

proof fn lemma_refers_in_shape_ids(shape: TypeShapeModel, r: RefModel) -> (k: int)
    requires
        shape_refers_to(shape, r),
    ensures
        0 <= k < spec_shape_ids(shape).len(),
        spec_shape_ids(shape)[k] == r.id,
{
    match shape {
        TypeShapeModel::Tuple(items) => {
            let k = choose|k: int| 0 <= k < items.len() && items[k] == r;
            k
        },
        TypeShapeModel::Record { key, value } => {
            if key == r { 0 } else { 1 }
        },
        TypeShapeModel::Struct(fs) => {
            let k = choose|k: int| 0 <= k < fs.len() && (#[trigger] fs[k]).type_ref == r;
            k
        },
        TypeShapeModel::Enum(vs) => {
            let (i, j) = choose|i: int, j: int|
                0 <= i < vs.len() && 0 <= j < vs[i].fields.len() && (#[trigger] vs[i].fields[j]).type_ref == r;
            lemma_variant_field_ids_has(vs, i, j);
            let ids = spec_variant_field_ids(vs);
            choose|k: int| 0 <= k < ids.len() && ids[k] == r.id
        },
        _ => 0,
    }
}

/// The collected types are closed under references: for every collected
/// type, each registered type its shape refers to (a record's key and
/// value, a list's or option's item, a newtype's inner type, a tuple's
/// items, the types of struct and enum-variant fields) is collected too.
pub proof fn lemma_collected_types_closed(input: CollectorInputModel, t: TypeDefModel, r: RefModel)
    requires
        spec_collect(input).types.contains(t),
        shape_refers_to(t.shape, r),
        spec_lookup_type(input.registry.types + input.types, r.id) is Some,
    ensures
        spec_collect(input).types.contains(spec_lookup_type(input.registry.types + input.types, r.id).unwrap()),
{
    let idx = input.registry.types + input.types;
    let error_ids = spec_sorted_set(spec_endpoints_error_ids(input.endpoints));
    let (errors, error_type_ids) = spec_collect_errors(error_ids, input.registry.errors + input.errors);
    let needed = spec_endpoints_type_ids(input.endpoints) + error_type_ids;
    let s0 = WorkState { needed, visited: Seq::empty(), types: Seq::empty() };
    lemma_worklist_finishes(needed, idx);
    let n = choose|n: nat| spec_done(#[trigger] spec_iterate(s0, idx, n));
    lemma_reachable_types_closure(needed, idx, n);
    let w = spec_iterate(s0, idx, n);
    assert(spec_collect(input).types == w.types);
    let x = choose|x: Seq<char>| w.visited.contains(x) && #[trigger] spec_lookup_type(idx, x) == Some(t);
    let k = lemma_refers_in_shape_ids(t.shape, r);
    assert(w.visited.to_set().contains(x));
    assert(spec_shape_ids(spec_lookup_type(idx, x).unwrap().shape)[k] == r.id);
    assert(w.visited.to_set().contains(r.id));
    let d = spec_lookup_type(idx, r.id).unwrap();
    assert(w.visited.contains(r.id));
    assert(spec_lookup_type(idx, r.id) == Some(d));
}

/// Whether the endpoint `e` refers to the type `r`: as the type of a route
/// or query parameter, as its request body, or as what its response
/// carries.
pub open spec fn endpoint_refers_to(e: EndpointModel, r: RefModel) -> bool {
    ||| exists|i: int| 0 <= i < e.request.path_params.len() && (#[trigger] e.request.path_params[i]).type_ref == r
    ||| exists|i: int| 0 <= i < e.request.query_params.len() && (#[trigger] e.request.query_params[i]).type_ref == r
    ||| e.request.body == Some(r)
    ||| e.response == ResponseShapeModel::Json(r)
    ||| e.response == ResponseShapeModel::Created(r)
    ||| e.response == ResponseShapeModel::Stream(r)
}

proof fn lemma_endpoints_type_ids_has(es: Seq<EndpointModel>, k: int, r: RefModel)
    requires
        0 <= k < es.len(),
        endpoint_refers_to(es[k], r),
    ensures
        spec_endpoints_type_ids(es).contains(r.id),
    decreases es.len(),
{
    let prev = spec_endpoints_type_ids(es.drop_last());
    let last = spec_endpoint_type_ids(es.last());
    if k < es.len() - 1 {
        lemma_endpoints_type_ids_has(es.drop_last(), k, r);
        let j = choose|j: int| 0 <= j < prev.len() && prev[j] == r.id;
        assert((prev + last)[j] == prev[j]);
    } else {
        let e = es[k];
        let p = spec_field_ids(e.request.path_params);
        let q = spec_field_ids(e.request.query_params);
        let b = match e.request.body {
            Some(t) => seq![t.id],
            None => Seq::<Seq<char>>::empty(),
        };
        let o = match e.response {
            ResponseShapeModel::Empty => Seq::<Seq<char>>::empty(),
            ResponseShapeModel::Json(t) => seq![t.id],
            ResponseShapeModel::Created(t) => seq![t.id],
            ResponseShapeModel::Stream(t) => seq![t.id],
        };
        assert(last == p + q + b + o);
        let j: int = if exists|i: int| 0 <= i < e.request.path_params.len() && (#[trigger] e.request.path_params[i]).type_ref == r {
            let i = choose|i: int| 0 <= i < e.request.path_params.len() && (#[trigger] e.request.path_params[i]).type_ref == r;
            i
        } else if exists|i: int| 0 <= i < e.request.query_params.len() && (#[trigger] e.request.query_params[i]).type_ref == r {
            let i = choose|i: int| 0 <= i < e.request.query_params.len() && (#[trigger] e.request.query_params[i]).type_ref == r;
            p.len() + i
        } else if e.request.body == Some(r) {
            (p.len() + q.len()) as int
        } else {
            (p.len() + q.len() + b.len()) as int
        };
        assert(last[j] == r.id);
        assert((prev + last)[prev.len() + j] == last[j]);
    }
}

/// The types an endpoint refers to are collected: each registered type
/// that a collected endpoint takes as a route or query parameter or as its
/// body, or returns, is among the contract's types.
pub proof fn lemma_endpoint_types_collected(input: CollectorInputModel, k: int, r: RefModel)
    requires
        0 <= k < input.endpoints.len(),
        endpoint_refers_to(input.endpoints[k], r),
        spec_lookup_type(input.registry.types + input.types, r.id) is Some,
    ensures
        spec_collect(input).types.contains(spec_lookup_type(input.registry.types + input.types, r.id).unwrap()),
{
    let idx = input.registry.types + input.types;
    let error_ids = spec_sorted_set(spec_endpoints_error_ids(input.endpoints));
    let (errors, error_type_ids) = spec_collect_errors(error_ids, input.registry.errors + input.errors);
    let eids = spec_endpoints_type_ids(input.endpoints);
    let needed = eids + error_type_ids;
    let s0 = WorkState { needed, visited: Seq::empty(), types: Seq::empty() };
    lemma_worklist_finishes(needed, idx);
    let n = choose|n: nat| spec_done(#[trigger] spec_iterate(s0, idx, n));
    lemma_reachable_types_closure(needed, idx, n);
    let w = spec_iterate(s0, idx, n);
    lemma_endpoints_type_ids_has(input.endpoints, k, r);
    let j = choose|j: int| 0 <= j < eids.len() && eids[j] == r.id;
    assert(needed[j] == r.id);
    assert(needed.contains(r.id));
    assert(w.visited.contains(r.id));
    let d = spec_lookup_type(idx, r.id).unwrap();
    assert(spec_lookup_type(idx, r.id) == Some(d));
}

/// Collects the contract of an input: the root module's endpoints, the
/// declared errors that are registered, and the registered types reachable
/// from them.
pub fn collect_contract(input: CollectorInput) -> (r: ApiContract)
    ensures
        r@ == spec_collect(input@),
{
    let ghost model = input@;
    let CollectorInput { package_name, root_module, types, errors } = input;
    let endpoints = root_module.endpoint_irs();
    let mut type_index = root_module.registry().type_defs();
    let ghost ti = type_defs_view(type_index@);
    for i in 0..types.len()
        invariant
            type_defs_view(type_index@) == ti + type_defs_view(types@).take(i as int),
    {
        let ghost before = type_defs_view(type_index@);
        type_index.push(types[i].clone());
        assert(type_defs_view(type_index@) =~= before.push(types@[i as int]@));
        assert(type_defs_view(types@).take(i + 1) =~= type_defs_view(types@).take(i as int).push(
            types@[i as int]@,
        ));
    }
    assert(type_defs_view(types@).take(types@.len() as int) =~= type_defs_view(types@));
    let mut error_index = root_module.registry().error_defs();
    let ghost ei = error_defs_view(error_index@);
    for i in 0..errors.len()
        invariant
            error_defs_view(error_index@) == ei + error_defs_view(errors@).take(i as int),
    {
        let ghost before = error_defs_view(error_index@);
        error_index.push(errors[i].clone());
        assert(error_defs_view(error_index@) =~= before.push(errors@[i as int]@));
        assert(error_defs_view(errors@).take(i + 1) =~= error_defs_view(errors@).take(i as int).push(
            errors@[i as int]@,
        ));
    }
    assert(error_defs_view(errors@).take(errors@.len() as int) =~= error_defs_view(errors@));
    let (mut needed, error_ids) = endpoints_ids(&endpoints);
    let error_ids = crate::order::sorted_unique_strings(error_ids);
    let ghost eids = strings_view(error_ids@);
    let ghost eidx = error_defs_view(error_index@);
    let ghost endpoint_ids = strings_view(needed@);
    let mut collected: Vec<ErrorDef> = Vec::new();
    for k in 0..error_ids.len()
        invariant
            eids == strings_view(error_ids@),
            eidx == error_defs_view(error_index@),
            (error_defs_view(collected@), strings_view(needed@).skip(endpoint_ids.len() as int))
                == spec_collect_errors(eids.take(k as int), eidx),
            strings_view(needed@).len() >= endpoint_ids.len(),
            strings_view(needed@).take(endpoint_ids.len() as int) == endpoint_ids,
    {
        assert(eids.take(k + 1).drop_last() =~= eids.take(k as int));
        let ghost before_needed = strings_view(needed@);
        let ghost before_collected = error_defs_view(collected@);
        match find_error(&error_index, error_ids[k].as_str()) {
            None => {},
            Some(j) => {
                push_error_variant_ids(&mut needed, &error_index[j].variants);
                collected.push(error_index[j].clone());
                assert(error_defs_view(collected@) =~= before_collected.push(eidx[j as int]));
                assert(strings_view(needed@).skip(endpoint_ids.len() as int) =~= before_needed.skip(
                    endpoint_ids.len() as int,
                ) + spec_error_variant_ids(eidx[j as int].variants));
                assert(strings_view(needed@).take(endpoint_ids.len() as int) =~= before_needed.take(
                    endpoint_ids.len() as int,
                ));
            },
        }
    }
    assert(eids.take(error_ids@.len() as int) =~= eids);
    assert(strings_view(needed@) =~= strings_view(needed@).take(endpoint_ids.len() as int)
        + strings_view(needed@).skip(endpoint_ids.len() as int));
    let types = collect_reachable_types(&type_index, needed);
    ApiContract { package_name, endpoints, types, errors: collected }
}

} // verus!
