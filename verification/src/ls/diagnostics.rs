//! Unused endpoint diagnostics for the editor, the staleness of the usage
//! index, and the merging of reference locations.

use vstd::prelude::*;
use crate::gen::symbols::{opt_string_view, GraphPosition, GraphRange, MetadataModel};
use crate::ir::strings_view;
use crate::lint::{spec_strong_count, strong_count_in, LintEndpointSummary, UsageLintLevel};
use crate::ls::config::{spec_is_generated_uri, WorkspaceConfig};
use crate::ls::graph::{
    group_by_key, groups_view, ls_symbols_view, pairs_view, resolved_uri, spec_group, spec_resolved_uri, values_view,
    LsSymbol, LsSymbolGraph, LsSymbolModel,
};
use crate::ls::paths::{file_uri_to_path, path_starts_with, spec_path_starts_with, uri_decodable, uri_path};
use crate::order::{lemma_sort_map, seq_lt, sort_by, spec_sort, str_eq, str_lt};
use crate::text::{join, join_strings, push_str};

verus! {

/// The usage index as the gateway reads it.
#[derive(Debug, Default, PartialEq, Eq)]
pub struct LsUsageIndex {
    pub schema_version: u32,
    pub contract_hash: String,
    pub endpoints: Vec<LintEndpointSummary>,
}

/// Whether a graph was made for a contract hash: a non-empty hash that is
/// its own or one of its listed hashes.
pub open spec fn spec_has_hash(own: Option<Seq<char>>, listed: Seq<Seq<char>>, h: Seq<char>) -> bool {
    h.len() > 0 && (own == Some(h) || listed.contains(h))
}

impl LsSymbolGraph {
    /// Whether the graph was made for a contract hash.
    pub fn contains_contract_hash(&self, h: &str) -> (r: bool)
        ensures
            r == spec_has_hash(opt_string_view(self.contract_hash), strings_view(self.contract_hashes@), h@),
    {
        if h.is_empty() {
            return false;
        }
        match &self.contract_hash {
            Some(own) => if str_eq(own.as_str(), h) {
                return true;
            },
            None => {},
        }
        crate::ls::graph::contains_string(&self.contract_hashes, h)
    }
}

/// The usage index version the gateway reads.
pub const USAGE_INDEX_SCHEMA_VERSION: u32 = 2;

impl LsUsageIndex {
    /// An index is stale for a graph unless it has the version the gateway
    /// reads and a contract hash the graph was made for.
    pub fn is_stale_for(&self, graph: &LsSymbolGraph) -> (r: bool)
        ensures
            r == (self.schema_version != USAGE_INDEX_SCHEMA_VERSION || !spec_has_hash(
                opt_string_view(graph.contract_hash),
                strings_view(graph.contract_hashes@),
                self.contract_hash@,
            )),
    {
        self.schema_version != USAGE_INDEX_SCHEMA_VERSION || !graph.contains_contract_hash(self.contract_hash.as_str())
    }
}

/// The code of an unused endpoint diagnostic.
pub const UNUSED_ENDPOINT_CODE: &'static str = "api::unused_endpoint";

/// The source the gateway's diagnostics name.
pub const DIAGNOSTIC_SOURCE: &'static str = "api-ls";

/// A diagnostic the gateway publishes.
#[derive(Debug, PartialEq, Eq)]
pub struct LsDiagnostic {
    pub range: GraphRange,
    pub severity: u8,
    pub message: String,
}

/// Model of an [`LsDiagnostic`].
pub struct LsDiagnosticModel {
    pub range: GraphRange,
    pub severity: u8,
    pub message: Seq<char>,
}

impl View for LsDiagnostic {
    type V = LsDiagnosticModel;

    open spec fn view(&self) -> LsDiagnosticModel {
        LsDiagnosticModel { range: self.range, severity: self.severity, message: self.message@ }
    }
}

/// The severity of an unused endpoint diagnostic: an error under `deny`,
/// else a warning.
pub open spec fn spec_severity(level: UsageLintLevel) -> u8 {
    match level {
        UsageLintLevel::Deny => 1,
        _ => 2,
    }
}

/// The text of an unused endpoint diagnostic.
pub open spec fn spec_unused_message(m: MetadataModel) -> Seq<char> {
    let method = match m.method {
        Some(x) => x,
        None => "UNKNOWN"@,
    };
    let route = match m.route {
        Some(x) => x,
        None => "<unknown route>"@,
    };
    let accessor = if m.ts_path.len() == 0 {
        "<unknown accessor>"@
    } else {
        join(m.ts_path, "."@)
    };
    "endpoint is exported but has no strong TypeScript usages\nroute: "@ + method + " "@ + route
        + "\ngenerated accessor: "@ + accessor
        + "\nhelp: call it from Effect code, mark #[api(allow_unused)], or remove it"@
}

/// The unused endpoint diagnostic of a symbol, over its Rust range.
pub open spec fn spec_unused_diagnostic(s: LsSymbolModel, level: UsageLintLevel) -> LsDiagnosticModel {
    LsDiagnosticModel { range: s.rust.range, severity: spec_severity(level), message: spec_unused_message(s.metadata) }
}

/// An endpoint is unused when it is not allowed to be and the index
/// records no strong usage of it.
pub open spec fn spec_is_unused(s: LsSymbolModel, endpoints: Seq<LintEndpointSummary>) -> bool {
    s.kind == "endpoint"@ && !s.metadata.allow_unused && spec_strong_count(endpoints, s.id) == 0
}

/// The unused endpoints' diagnostics with their Rust URIs, in symbol order
/// (endpoints without a Rust URI are left out).
pub open spec fn spec_unused_pairs(
    syms: Seq<LsSymbolModel>,
    endpoints: Seq<LintEndpointSummary>,
    root: Seq<char>,
    level: UsageLintLevel,
) -> Seq<(Seq<char>, LsDiagnosticModel)>
    decreases syms.len(),
{
    if syms.len() == 0 {
        seq![]
    } else {
        let rest = spec_unused_pairs(syms.drop_last(), endpoints, root, level);
        let s = syms.last();
        if spec_is_unused(s, endpoints) {
            match spec_resolved_uri(s.rust, root) {
                Some(u) => rest.push((u, spec_unused_diagnostic(s, level))),
                None => rest,
            }
        } else {
            rest
        }
    }
}

/// Position order, strict: by line, then by character.
pub open spec fn pos_lt(a: GraphPosition, b: GraphPosition) -> bool {
    a.line < b.line || (a.line == b.line && a.character < b.character)
}

/// Diagnostic order: by start position, then by message.
pub open spec fn diag_lt(a: LsDiagnosticModel, b: LsDiagnosticModel) -> bool {
    pos_lt(a.range.start, b.range.start) || (a.range.start == b.range.start && seq_lt(a.message, b.message))
}

/// Diagnostic order as a closure.
pub open spec fn diag_order() -> spec_fn(LsDiagnosticModel, LsDiagnosticModel) -> bool {
    |a: LsDiagnosticModel, b: LsDiagnosticModel| diag_lt(a, b)
}

/// Group order: by URI.
pub open spec fn uri_order() -> spec_fn((Seq<char>, Seq<LsDiagnosticModel>), (Seq<char>, Seq<LsDiagnosticModel>)) -> bool {
    |a: (Seq<char>, Seq<LsDiagnosticModel>), b: (Seq<char>, Seq<LsDiagnosticModel>)| seq_lt(a.0, b.0)
}

/// The unused endpoint diagnostics per document: grouped by Rust URI, the
/// groups sorted by URI and each group's diagnostics by position and text.
pub open spec fn spec_unused_diagnostics(
    syms: Seq<LsSymbolModel>,
    endpoints: Seq<LintEndpointSummary>,
    root: Seq<char>,
    level: UsageLintLevel,
) -> Seq<(Seq<char>, Seq<LsDiagnosticModel>)> {
    spec_sort(spec_group(spec_unused_pairs(syms, endpoints, root, level)), uri_order()).map_values(
        |g: (Seq<char>, Seq<LsDiagnosticModel>)| (g.0, spec_sort(g.1, diag_order())),
    )
}

/// Each document gets exactly the unused-endpoint diagnostics that resolve
/// to its URI, each as often as it occurs, reordered; and every URI that an
/// unused endpoint resolves to gets its document.
pub proof fn lemma_unused_diagnostics_by_document(
    syms: Seq<LsSymbolModel>,
    endpoints: Seq<LintEndpointSummary>,
    root: Seq<char>,
    level: UsageLintLevel,
)
    ensures
        forall|i: int| 0 <= i < spec_unused_diagnostics(syms, endpoints, root, level).len() ==> (
            #[trigger] spec_unused_diagnostics(syms, endpoints, root, level)[i]).1.to_multiset()
            =~= crate::ls::graph::spec_values_for(
            spec_unused_pairs(syms, endpoints, root, level),
            spec_unused_diagnostics(syms, endpoints, root, level)[i].0,
        ).to_multiset(),
        forall|u: Seq<char>|
            #[trigger] crate::ls::graph::spec_values_for(spec_unused_pairs(syms, endpoints, root, level), u).len() > 0
                ==> exists|i: int|
                0 <= i < spec_unused_diagnostics(syms, endpoints, root, level).len()
                    && spec_unused_diagnostics(syms, endpoints, root, level)[i].0 == u,
{
    broadcast use vstd::seq_lib::group_to_multiset_ensures;
    let pairs = spec_unused_pairs(syms, endpoints, root, level);
    let g = crate::ls::graph::spec_group(pairs);
    let sorted = spec_sort(g, uri_order());
    let r = spec_unused_diagnostics(syms, endpoints, root, level);
    crate::ls::graph::lemma_group_values(pairs);
    crate::order::lemma_sort_elems(g, uri_order());
    crate::order::lemma_sort_permutes(g, uri_order());
    assert forall|i: int| 0 <= i < r.len() implies (#[trigger] r[i]).1.to_multiset()
        =~= crate::ls::graph::spec_values_for(pairs, r[i].0).to_multiset() by {
        assert(g.contains(sorted[i]));
        let k = choose|k: int| 0 <= k < g.len() && g[k] == sorted[i];
        assert(g[k].1 == crate::ls::graph::spec_values_for(pairs, g[k].0));
        crate::order::lemma_sort_permutes(sorted[i].1, diag_order());
    }
    assert forall|u: Seq<char>|
        #[trigger] crate::ls::graph::spec_values_for(pairs, u).len() > 0 implies exists|i: int|
        0 <= i < r.len() && r[i].0 == u by {
        if forall|k: int| 0 <= k < g.len() ==> g[k].0 != u {
            assert(crate::ls::graph::spec_values_for(pairs, u) == Seq::<LsDiagnosticModel>::empty());
        }
        let k = choose|k: int| 0 <= k < g.len() && g[k].0 == u;
        assert(g.to_multiset().count(g[k]) > 0);
        assert(sorted.to_multiset().count(g[k]) > 0);
        assert(sorted.contains(g[k]));
        let i = choose|i: int| 0 <= i < sorted.len() && sorted[i] == g[k];
        assert(r[i].0 == u);
    }
}

/// The unused endpoint diagnostic of a symbol.
fn unused_diagnostic(s: &LsSymbol, level: UsageLintLevel) -> (r: LsDiagnostic)
    ensures
        r@ == spec_unused_diagnostic(s@, level),
{
    let m = &s.metadata;
    let mut message = "endpoint is exported but has no strong TypeScript usages\nroute: ".to_owned();
    match &m.method {
        Some(x) => push_str(&mut message, x.as_str()),
        None => push_str(&mut message, "UNKNOWN"),
    }
    push_str(&mut message, " ");
    match &m.route {
        Some(x) => push_str(&mut message, x.as_str()),
        None => push_str(&mut message, "<unknown route>"),
    }
    push_str(&mut message, "\ngenerated accessor: ");
    if m.ts_path.len() == 0 {
        push_str(&mut message, "<unknown accessor>");
    } else {
        let joined = join_strings(&m.ts_path, ".");
        push_str(&mut message, joined.as_str());
    }
    push_str(&mut message, "\nhelp: call it from Effect code, mark #[api(allow_unused)], or remove it");
    let severity: u8 = match level {
        UsageLintLevel::Deny => 1,
        _ => 2,
    };
    LsDiagnostic { range: s.rust.range, severity, message }
}

fn diag_key_lt(a: &LsDiagnostic, b: &LsDiagnostic) -> (r: bool)
    ensures
        r == diag_lt(a@, b@),
{
    let p = a.range.start;
    let q = b.range.start;
    if p.line < q.line || (p.line == q.line && p.character < q.character) {
        return true;
    }
    if !(p.line == q.line && p.character == q.character) {
        return false;
    }
    str_lt(a.message.as_str(), b.message.as_str())
}

fn sort_diagnostics(v: Vec<LsDiagnostic>) -> (r: Vec<LsDiagnostic>)
    ensures
        values_view(r@) == spec_sort(values_view(v@), diag_order()),
{
    let ghost slt = |a: LsDiagnostic, b: LsDiagnostic| diag_lt(a@, b@);
    let lt = |a: &LsDiagnostic, b: &LsDiagnostic| -> (o: bool)
        ensures
            o == diag_lt(a@, b@),
        { diag_key_lt(a, b) };
    let ghost before = v@;
    let sorted = sort_by(v, lt, Ghost(slt));
    proof {
        let f = |d: LsDiagnostic| d@;
        lemma_sort_map(before, f, slt, diag_order());
        assert(before.map_values(f) =~= values_view(before));
        assert(sorted@.map_values(f) =~= values_view(sorted@));
    }
    sorted
}

fn sort_groups(v: Vec<(String, Vec<LsDiagnostic>)>) -> (r: Vec<(String, Vec<LsDiagnostic>)>)
    ensures
        groups_view(r@) == spec_sort(groups_view(v@), uri_order()),
{
    let ghost slt = |a: (String, Vec<LsDiagnostic>), b: (String, Vec<LsDiagnostic>)| seq_lt(a.0@, b.0@);
    let lt = |a: &(String, Vec<LsDiagnostic>), b: &(String, Vec<LsDiagnostic>)| -> (o: bool)
        ensures
            o == seq_lt(a.0@, b.0@),
        { str_lt(a.0.as_str(), b.0.as_str()) };
    let ghost before = v@;
    let sorted = sort_by(v, lt, Ghost(slt));
    proof {
        let f = |g: (String, Vec<LsDiagnostic>)| (g.0@, values_view(g.1@));
        lemma_sort_map(before, f, slt, uri_order());
        assert(before.map_values(f) =~= groups_view(before));
        assert(sorted@.map_values(f) =~= groups_view(sorted@));
    }
    sorted
}

impl LsSymbolGraph {
    /// The unused endpoint diagnostics per document.
    pub fn unused_endpoint_diagnostics(&self, index: &LsUsageIndex, workspace: &WorkspaceConfig) -> (r: Vec<(String, Vec<LsDiagnostic>)>)
        ensures
            groups_view(r@) == spec_unused_diagnostics(
                ls_symbols_view(self.symbols@),
                index.endpoints@,
                workspace.root@,
                workspace.config.unused_endpoint_lints,
            ),
    {
        let ghost syms = ls_symbols_view(self.symbols@);
        let level = workspace.config.unused_endpoint_lints;
        let root = workspace.root.as_str();
        let mut pairs: Vec<(String, LsDiagnostic)> = Vec::new();
        let mut i: usize = 0;
        proof {
            assert(syms.take(0) =~= Seq::<LsSymbolModel>::empty());
        }
        while i < self.symbols.len()
            invariant
                syms == ls_symbols_view(self.symbols@),
                i <= self.symbols@.len(),
                root@ == workspace.root@,
                level == workspace.config.unused_endpoint_lints,
                pairs_view(pairs@) == spec_unused_pairs(syms.take(i as int), index.endpoints@, root@, level),
            decreases self.symbols@.len() - i,
        {
            let s = &self.symbols[i];
            proof {
                assert(syms.take(i + 1).drop_last() =~= syms.take(i as int));
                assert(syms.take(i + 1).last() == s@);
                reveal_strlit("endpoint");
            }
            if str_eq(s.kind.as_str(), "endpoint") && !s.metadata.allow_unused
                && strong_count_in(&index.endpoints, s.id.as_str()) == 0 {
                match resolved_uri(&s.rust, root) {
                    Some(u) => {
                        let ghost before = pairs_view(pairs@);
                        let d = unused_diagnostic(s, level);
                        pairs.push((u, d));
                        proof {
                            assert(pairs_view(pairs@) =~= before.push((u@, d@)));
                        }
                    },
                    None => {},
                }
            }
            i = i + 1;
        }
        proof {
            assert(syms.take(self.symbols@.len() as int) =~= syms);
        }
        let groups = sort_groups(group_by_key(pairs));
        let ghost sorted = groups_view(groups@);
        let mut out: Vec<(String, Vec<LsDiagnostic>)> = Vec::new();
        let mut rest = groups;
        let n = rest.len();
        let mut k: usize = 0;
        while k < n
            invariant
                n == sorted.len(),
                k <= n,
                rest@.len() + k == n,
                groups_view(rest@) == sorted.skip(k as int),
                groups_view(out@) == sorted.take(k as int).map_values(
                    |g: (Seq<char>, Seq<LsDiagnosticModel>)| (g.0, spec_sort(g.1, diag_order())),
                ),
            decreases n - k,
        {
            let ghost old_rest = rest@;
            let (u, ds) = rest.remove(0);
            proof {
                assert(groups_view(old_rest)[0] == sorted[k as int]);
                assert(rest@ =~= old_rest.skip(1));
                assert forall|j: int| 0 <= j < rest@.len() implies #[trigger] groups_view(rest@)[j] == sorted.skip(k + 1)[j] by {
                    assert(groups_view(old_rest)[j + 1] == sorted.skip(k as int)[j + 1]);
                }
                assert(groups_view(rest@) =~= sorted.skip(k + 1));
            }
            let ghost before = groups_view(out@);
            let sorted_ds = sort_diagnostics(ds);
            let ghost entry = (u@, values_view(sorted_ds@));
            out.push((u, sorted_ds));
            proof {
                assert(groups_view(out@) =~= before.push(entry));
                assert(sorted.take(k + 1) =~= sorted.take(k as int).push(sorted[k as int]));
                assert(groups_view(out@) =~= sorted.take(k + 1).map_values(
                    |g: (Seq<char>, Seq<LsDiagnosticModel>)| (g.0, spec_sort(g.1, diag_order())),
                ));
            }
            k = k + 1;
        }
        proof {
            assert(sorted.take(n as int) =~= sorted);
        }
        out
    }
}

/// The diagnostics to publish once the client is initialized: none when
/// the lints are off, the graph or the index is missing, or the index is
/// stale for the graph; else the unused endpoint diagnostics.
pub open spec fn spec_diagnostics_to_publish(
    workspace: WorkspaceConfig,
    graph: Option<(Option<Seq<char>>, Seq<Seq<char>>, Seq<LsSymbolModel>)>,
    index: Option<(u32, Seq<char>, Seq<LintEndpointSummary>)>,
) -> Seq<(Seq<char>, Seq<LsDiagnosticModel>)> {
    if workspace.config.unused_endpoint_lints == UsageLintLevel::Off {
        seq![]
    } else {
        match (graph, index) {
            (Some((own, listed, syms)), Some((version, hash, endpoints))) => if version != USAGE_INDEX_SCHEMA_VERSION
                || !spec_has_hash(own, listed, hash) {
                seq![]
            } else {
                spec_unused_diagnostics(syms, endpoints, workspace.root@, workspace.config.unused_endpoint_lints)
            },
            _ => seq![],
        }
    }
}

/// The diagnostics to publish once the client is initialized.
pub fn diagnostics_to_publish(
    workspace: &WorkspaceConfig,
    graph: Option<&LsSymbolGraph>,
    index: Option<&LsUsageIndex>,
) -> (r: Vec<(String, Vec<LsDiagnostic>)>)
    ensures
        groups_view(r@) == spec_diagnostics_to_publish(
            *workspace,
            match graph {
                Some(g) => Some((opt_string_view(g.contract_hash), strings_view(g.contract_hashes@), ls_symbols_view(g.symbols@))),
                None => None,
            },
            match index {
                Some(x) => Some((x.schema_version, x.contract_hash@, x.endpoints@)),
                None => None,
            },
        ),
{
    let empty: Vec<(String, Vec<LsDiagnostic>)> = Vec::new();
    proof {
        assert(groups_view(empty@) =~= Seq::<(Seq<char>, Seq<LsDiagnosticModel>)>::empty());
    }
    if workspace.config.unused_endpoint_lints == UsageLintLevel::Off {
        return empty;
    }
    match (graph, index) {
        (Some(g), Some(x)) => {
            if x.is_stale_for(g) {
                empty
            } else {
                g.unused_endpoint_diagnostics(x, workspace)
            }
        },
        _ => empty,
    }
}

/// A location a references answer holds: its URI, if it has one, and the
/// canonical JSON text of its range.
#[derive(Clone, Debug, PartialEq, Eq)]
pub struct RawLocation {
    pub uri: Option<String>,
    pub range_key: String,
}

/// Model of a [`RawLocation`].
pub struct RawLocationModel {
    pub uri: Option<Seq<char>>,
    pub range_key: Seq<char>,
}

impl View for RawLocation {
    type V = RawLocationModel;

    open spec fn view(&self) -> RawLocationModel {
        RawLocationModel { uri: opt_string_view(self.uri), range_key: self.range_key@ }
    }
}

/// Whether a kept location has the same URI and range as another.
pub open spec fn seen_before(locs: Seq<RawLocationModel>, kept: Seq<int>, u: Seq<char>, key: Seq<char>) -> bool {
    exists|j: int| 0 <= j < kept.len() && locs[kept[j]].uri == Some(u) && locs[#[trigger] kept[j]].range_key == key
}

/// The positions of the locations a merged references answer keeps, in
/// order: those with a URI outside the generated cache, each URI and range
/// once.
pub open spec fn spec_dedupe(locs: Seq<RawLocationModel>, cache_dir: Seq<char>, n: int) -> Seq<int>
    decreases n,
{
    if n <= 0 || n > locs.len() {
        seq![]
    } else {
        let kept = spec_dedupe(locs, cache_dir, n - 1);
        let l = locs[n - 1];
        match l.uri {
            None => kept,
            Some(u) => if (match uri_path(u) {
                Some(p) => spec_path_starts_with(p, cache_dir),
                None => false,
            }) || seen_before(locs, kept, u, l.range_key) {
                kept
            } else {
                kept.push(n - 1)
            },
        }
    }
}

/// Whether every location's URI decodes.
pub open spec fn raw_uris_decodable(locs: Seq<RawLocationModel>) -> bool {
    forall|i: int| 0 <= i < locs.len() ==> (match (#[trigger] locs[i]).uri {
        Some(u) => uri_decodable(u),
        None => true,
    })
}

/// The positions of the locations a merged references answer keeps.
pub fn dedupe_locations(locations: &Vec<RawLocation>, generated_cache_dir: &str) -> (r: Vec<usize>)
    requires
        raw_uris_decodable(locations@.map_values(|l: RawLocation| l@)),
    ensures
        r@.map_values(|i: usize| i as int) == spec_dedupe(
            locations@.map_values(|l: RawLocation| l@),
            generated_cache_dir@,
            locations@.len() as int,
        ),
{
    let ghost locs = locations@.map_values(|l: RawLocation| l@);
    let mut kept: Vec<usize> = Vec::new();
    let mut i: usize = 0;
    while i < locations.len()
        invariant
            locs == locations@.map_values(|l: RawLocation| l@),
            raw_uris_decodable(locs),
            i <= locations@.len(),
            kept@.map_values(|x: usize| x as int) == spec_dedupe(locs, generated_cache_dir@, i as int),
            forall|j: int| 0 <= j < kept@.len() ==> kept@[j] < i,
        decreases locations@.len() - i,
    {
        let l = &locations[i];
        let ghost kv = kept@.map_values(|x: usize| x as int);
        proof {
            assert(locs[i as int] == l@);
        }
        match &l.uri {
            None => {},
            Some(u) => {
                let generated = match file_uri_to_path(u.as_str()) {
                    Some(p) => path_starts_with(p.as_str(), generated_cache_dir),
                    None => false,
                };
                let mut seen = false;
                if !generated {
                    let mut j: usize = 0;
                    while j < kept.len() && !seen
                        invariant
                            locs == locations@.map_values(|l: RawLocation| l@),
                            kv == kept@.map_values(|x: usize| x as int),
                            forall|t: int| 0 <= t < kept@.len() ==> kept@[t] < locations@.len(),
                            j <= kept@.len(),
                            seen ==> seen_before(locs, kv, u@, l.range_key@),
                            !seen ==> forall|t: int| 0 <= t < j ==> !(locs[kv[t]].uri == Some(u@) && locs[kv[t]].range_key == l.range_key@),
                        decreases kept@.len() - j,
                    {
                        let other = &locations[kept[j]];
                        proof {
                            assert(locs[kv[j as int]] == other@);
                        }
                        match &other.uri {
                            Some(ou) => {
                                if str_eq(ou.as_str(), u.as_str()) && str_eq(other.range_key.as_str(), l.range_key.as_str()) {
                                    seen = true;
                                    proof {
                                        assert(locs[kv[j as int]].uri == Some(u@) && locs[kv[j as int]].range_key == l.range_key@);
                                    }
                                }
                            },
                            None => {},
                        }
                        j = j + 1;
                    }
                }
                if !generated && !seen {
                    kept.push(i);
                    proof {
                        assert(kept@.map_values(|x: usize| x as int) =~= kv.push(i as int));
                    }
                }
            },
        }
        i = i + 1;
    }
    kept
}

/// A merged references answer keeps each URI and range once, in their
/// order, and only locations with a URI outside the generated cache.
pub proof fn lemma_dedupe_keeps_each_once(locs: Seq<RawLocationModel>, cache_dir: Seq<char>, n: int)
    requires
        0 <= n <= locs.len(),
    ensures
        ({
            let kept = spec_dedupe(locs, cache_dir, n);
            &&& forall|i: int| 0 <= i < kept.len() ==> 0 <= #[trigger] kept[i] < n
            &&& forall|i: int| 0 <= i < kept.len() ==> match locs[#[trigger] kept[i]].uri {
                Some(u) => !(match uri_path(u) {
                    Some(p) => spec_path_starts_with(p, cache_dir),
                    None => false,
                }),
                None => false,
            }
            &&& forall|i: int, j: int| 0 <= i < j < kept.len() ==> #[trigger] kept[i] < #[trigger] kept[j]
            &&& forall|i: int, j: int|
                0 <= i < j < kept.len() ==> !(locs[#[trigger] kept[i]].uri == locs[#[trigger] kept[j]].uri
                    && locs[kept[i]].range_key == locs[kept[j]].range_key)
        }),
    decreases n,
{
    if n > 0 {
        lemma_dedupe_keeps_each_once(locs, cache_dir, n - 1);
        let prev = spec_dedupe(locs, cache_dir, n - 1);
        let kept = spec_dedupe(locs, cache_dir, n);
        let l = locs[n - 1];
        if kept != prev {
            assert(kept == prev.push(n - 1));
            let u = l.uri->0;
            assert(!seen_before(locs, prev, u, l.range_key));
            assert forall|i: int, j: int|
                0 <= i < j < kept.len() implies !(locs[#[trigger] kept[i]].uri == locs[#[trigger] kept[j]].uri
                    && locs[kept[i]].range_key == locs[kept[j]].range_key) by {
                if j == kept.len() - 1 {
                    assert(kept[i] == prev[i]);
                    if locs[prev[i]].uri == Some(u) && locs[prev[i]].range_key == l.range_key {
                        assert(seen_before(locs, prev, u, l.range_key));
                    }
                } else {
                    assert(kept[i] == prev[i]);
                    assert(kept[j] == prev[j]);
                }
            }
        }
    }
}

/// Nothing is published with the lints off, without a graph or an index,
/// or with an index that is stale for the graph.
pub proof fn lemma_publish_needs_fresh_index(
    workspace: WorkspaceConfig,
    graph: Option<(Option<Seq<char>>, Seq<Seq<char>>, Seq<LsSymbolModel>)>,
    index: Option<(u32, Seq<char>, Seq<LintEndpointSummary>)>,
)
    ensures
        workspace.config.unused_endpoint_lints == UsageLintLevel::Off ==> spec_diagnostics_to_publish(workspace, graph, index).len() == 0,
        graph is None || index is None ==> spec_diagnostics_to_publish(workspace, graph, index).len() == 0,
        (match (graph, index) {
            (Some((own, listed, _)), Some((version, hash, _))) => version != USAGE_INDEX_SCHEMA_VERSION || !spec_has_hash(own, listed, hash),
            _ => false,
        }) ==> spec_diagnostics_to_publish(workspace, graph, index).len() == 0,
{
}

} // verus!
