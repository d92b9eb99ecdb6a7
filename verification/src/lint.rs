//! Build usage lints: which exported endpoints have no strong TypeScript
//! usage, and what a build prints and generates for them.

use vstd::prelude::*;
use crate::ir::strings_view;
use crate::order::{seq_lt, sort_by, spec_sort, str_eq, str_lt};
use crate::text::{concat_map, join, join_strings, json_string, push_str, spec_json_string};

verus! {

/// Unused endpoint build lint policy.
#[derive(Clone, Copy, Debug, PartialEq, Eq, Structural)]
pub enum UsageLintLevel {
    Off,
    Warn,
    Deny,
}

impl Default for UsageLintLevel {
    fn default() -> (r: Self)
        ensures
            r == UsageLintLevel::Warn,
    {
        UsageLintLevel::Warn
    }
}

/// The level a setting names: `off`, `warn` or `deny`, in lower case,
/// capitalized or upper case.
pub open spec fn spec_level_named(value: Seq<char>) -> Option<UsageLintLevel> {
    if value == "off"@ || value == "Off"@ || value == "OFF"@ {
        Some(UsageLintLevel::Off)
    } else if value == "warn"@ || value == "Warn"@ || value == "WARN"@ {
        Some(UsageLintLevel::Warn)
    } else if value == "deny"@ || value == "Deny"@ || value == "DENY"@ {
        Some(UsageLintLevel::Deny)
    } else {
        None
    }
}

impl UsageLintLevel {
    /// Parses a lint level setting.
    pub fn parse(value: &str) -> (r: Option<Self>)
        ensures
            r == spec_level_named(value@),
    {
        if str_eq(value, "off") || str_eq(value, "Off") || str_eq(value, "OFF") {
            Some(UsageLintLevel::Off)
        } else if str_eq(value, "warn") || str_eq(value, "Warn") || str_eq(value, "WARN") {
            Some(UsageLintLevel::Warn)
        } else if str_eq(value, "deny") || str_eq(value, "Deny") || str_eq(value, "DENY") {
            Some(UsageLintLevel::Deny)
        } else {
            None
        }
    }
}

/// Whether usage lints are built in.
pub fn usage_lints_available() -> (r: bool)
    ensures
        r,
{
    true
}

/// Paths and policy used by the build usage lint bridge.
#[derive(Clone, Debug, PartialEq, Eq)]
pub struct UsageLintConfig {
    pub usage_index: String,
    pub symbol_graph: String,
    pub lint_level: UsageLintLevel,
    pub generated_lint_path: String,
}

/// One build-facing usage lint diagnostic.
#[derive(Debug, PartialEq, Eq)]
pub struct UsageLintDiagnostic {
    pub endpoint_id: Option<String>,
    pub route: Option<String>,
    pub accessor: Option<String>,
    pub message: String,
}

/// Model of a [`UsageLintDiagnostic`].
pub struct LintDiagnosticModel {
    pub endpoint_id: Option<Seq<char>>,
    pub route: Option<Seq<char>>,
    pub accessor: Option<Seq<char>>,
    pub message: Seq<char>,
}

/// The view of an optional string.
pub open spec fn opt_view(o: Option<String>) -> Option<Seq<char>> {
    match o {
        Some(s) => Some(s@),
        None => None,
    }
}

impl View for UsageLintDiagnostic {
    type V = LintDiagnosticModel;

    open spec fn view(&self) -> LintDiagnosticModel {
        LintDiagnosticModel {
            endpoint_id: opt_view(self.endpoint_id),
            route: opt_view(self.route),
            accessor: opt_view(self.accessor),
            message: self.message@,
        }
    }
}

/// The models of a list of diagnostics.
pub open spec fn lint_diags_view(v: Seq<UsageLintDiagnostic>) -> Seq<LintDiagnosticModel> {
    v.map_values(|d: UsageLintDiagnostic| d@)
}

/// Result of evaluating usage lints.
#[derive(Debug, Default, PartialEq, Eq)]
pub struct UsageLintReport {
    pub diagnostics: Vec<UsageLintDiagnostic>,
    pub stale: bool,
}

/// Model of a [`UsageLintReport`].
pub struct LintReportModel {
    pub diagnostics: Seq<LintDiagnosticModel>,
    pub stale: bool,
}

impl View for UsageLintReport {
    type V = LintReportModel;

    open spec fn view(&self) -> LintReportModel {
        LintReportModel { diagnostics: lint_diags_view(self.diagnostics@), stale: self.stale }
    }
}

/// Error returned when usage lint inputs cannot be read or parsed.
#[derive(Debug)]
pub struct UsageLintError {
    message: String,
}

impl View for UsageLintError {
    type V = Seq<char>;

    closed spec fn view(&self) -> Seq<char> {
        self.message@
    }
}

impl UsageLintError {
    /// An error with the given message.
    pub fn new(message: String) -> (r: Self)
        ensures
            r@ == message@,
    {
        UsageLintError { message }
    }

    /// The error's message.
    pub fn message(&self) -> (r: &str)
        ensures
            r@ == self@,
    {
        self.message.as_str()
    }
}

/// Per-endpoint strong usage count, as the usage index records it.
#[derive(Debug, PartialEq, Eq)]
pub struct LintEndpointSummary {
    pub endpoint_id: String,
    pub strong: u64,
}

/// The part of the usage index that the lints read.
#[derive(Debug, Default, PartialEq, Eq)]
pub struct LintUsageIndex {
    pub endpoints: Vec<LintEndpointSummary>,
}

/// The metadata of a linked symbol that the lints read.
#[derive(Debug, Default, PartialEq, Eq)]
pub struct SymbolMetadata {
    pub method: Option<String>,
    pub route: Option<String>,
    pub ts_path: Vec<String>,
    pub allow_unused: bool,
}

/// A symbol of the Rust/TypeScript symbol graph.
#[derive(Debug, PartialEq, Eq)]
pub struct LinkedSymbol {
    pub id: String,
    pub kind: String,
    pub metadata: SymbolMetadata,
}

/// The part of the symbol graph that the lints read.
#[derive(Debug, Default, PartialEq, Eq)]
pub struct SymbolGraph {
    pub symbols: Vec<LinkedSymbol>,
}

/// How reading one JSON input of the lints went.
#[derive(Debug, PartialEq, Eq)]
pub enum LintInput<T> {
    /// The path is not a file.
    Missing,
    /// The file could not be read; the reader's error.
    ReadFailed(String),
    /// The file did not parse; the parser's error.
    ParseFailed(String),
    Loaded(T),
}

/// What the lints read from disk: both inputs, and their modification
/// times where the file system reports them.
#[derive(Debug, PartialEq, Eq)]
pub struct UsageLintInputs {
    pub usage_index: LintInput<LintUsageIndex>,
    pub symbol_graph: LintInput<SymbolGraph>,
    pub usage_index_modified: Option<u128>,
    pub symbol_graph_modified: Option<u128>,
}

} // verus!

verus! {

/// The strong usage count that the first summary of `endpoint_id` records;
/// zero when the index has none.
pub open spec fn spec_strong_count(endpoints: Seq<LintEndpointSummary>, endpoint_id: Seq<char>) -> u64
    decreases endpoints.len(),
{
    if endpoints.len() == 0 {
        0
    } else if endpoints[0].endpoint_id@ == endpoint_id {
        endpoints[0].strong
    } else {
        spec_strong_count(endpoints.drop_first(), endpoint_id)
    }
}

fn strong_usage_count(index: &LintUsageIndex, endpoint_id: &str) -> (r: u64)
    ensures
        r == spec_strong_count(index.endpoints@, endpoint_id@),
{
    strong_count_in(&index.endpoints, endpoint_id)
}

/// The strong usage count that the first summary of `endpoint_id` records.
pub(crate) fn strong_count_in(endpoints: &Vec<LintEndpointSummary>, endpoint_id: &str) -> (r: u64)
    ensures
        r == spec_strong_count(endpoints@, endpoint_id@),
{
    let ghost es = endpoints@;
    assert(es.subrange(0, es.len() as int) =~= es);
    for k in 0..endpoints.len()
        invariant
            es == endpoints@,
            spec_strong_count(es, endpoint_id@) == spec_strong_count(es.subrange(k as int, es.len() as int), endpoint_id@),
    {
        let ghost rest = es.subrange(k as int, es.len() as int);
        assert(rest[0] == es[k as int]);
        if str_eq(endpoints[k].endpoint_id.as_str(), endpoint_id) {
            return endpoints[k].strong;
        }
        assert(rest.drop_first() =~= es.subrange(k + 1, es.len() as int));
    }
    assert(es.subrange(es.len() as int, es.len() as int) =~= Seq::<LintEndpointSummary>::empty());
    0
}

/// The route of a symbol as a diagnostic shows it.
pub open spec fn spec_route_label(m: SymbolMetadata) -> Seq<char> {
    match (m.method, m.route) {
        (Some(method), Some(route)) => method@ + " "@ + route@,
        (Some(method), None) => method@ + " <unknown route>"@,
        (None, Some(route)) => route@,
        (None, None) => "<unknown route>"@,
    }
}

/// The generated accessor of a symbol as a diagnostic shows it.
pub open spec fn spec_accessor_label(m: SymbolMetadata) -> Seq<char> {
    if m.ts_path@.len() == 0 {
        "<unknown accessor>"@
    } else {
        join(strings_view(m.ts_path@), "."@)
    }
}

fn route_label(m: &SymbolMetadata) -> (r: String)
    ensures
        r@ == spec_route_label(*m),
{
    match (&m.method, &m.route) {
        (Some(method), Some(route)) => {
            let mut out = method.clone();
            push_str(&mut out, " ");
            push_str(&mut out, route.as_str());
            out
        },
        (Some(method), None) => {
            let mut out = method.clone();
            push_str(&mut out, " <unknown route>");
            out
        },
        (None, Some(route)) => route.clone(),
        (None, None) => "<unknown route>".to_owned(),
    }
}

fn accessor_label(m: &SymbolMetadata) -> (r: String)
    ensures
        r@ == spec_accessor_label(*m),
{
    if m.ts_path.len() == 0 {
        "<unknown accessor>".to_owned()
    } else {
        assert(m.ts_path@.map_values(|s: String| s@) =~= strings_view(m.ts_path@));
        join_strings(&m.ts_path, ".")
    }
}

/// The message of an endpoint with no strong usage.
pub open spec fn spec_unused_message(route: Seq<char>, accessor: Seq<char>) -> Seq<char> {
    "warning[api::unused_endpoint]: endpoint is exported but has no strong TypeScript usages; route: "@
        + route + "; generated accessor: "@ + accessor
        + "; help: call it from Effect code, mark #[api(allow_unused)], or remove it"@
}

/// Whether a symbol is an endpoint, not allowed to go unused, with no
/// strong usage in the index.
pub open spec fn spec_flags_unused(s: LinkedSymbol, index: Seq<LintEndpointSummary>) -> bool {
    s.kind@ == "endpoint"@ && !s.metadata.allow_unused && spec_strong_count(index, s.id@) == 0
}

/// The diagnostic of an unused endpoint.
pub open spec fn spec_unused_diagnostic(s: LinkedSymbol) -> LintDiagnosticModel {
    LintDiagnosticModel {
        endpoint_id: Some(s.id@),
        route: Some(spec_route_label(s.metadata)),
        accessor: Some(spec_accessor_label(s.metadata)),
        message: spec_unused_message(spec_route_label(s.metadata), spec_accessor_label(s.metadata)),
    }
}

/// The diagnostics of the unused endpoints among `symbols`, in order.
pub open spec fn spec_unused_diagnostics(
    symbols: Seq<LinkedSymbol>,
    index: Seq<LintEndpointSummary>,
) -> Seq<LintDiagnosticModel>
    decreases symbols.len(),
{
    if symbols.len() == 0 {
        Seq::empty()
    } else {
        let prev = spec_unused_diagnostics(symbols.drop_last(), index);
        if spec_flags_unused(symbols.last(), index) {
            prev.push(spec_unused_diagnostic(symbols.last()))
        } else {
            prev
        }
    }
}

/// A diagnostic that names no endpoint.
pub open spec fn spec_note(message: Seq<char>) -> LintDiagnosticModel {
    LintDiagnosticModel { endpoint_id: None, route: None, accessor: None, message }
}

/// `None` before any string, strings in text order.
pub open spec fn opt_lt(a: Option<Seq<char>>, b: Option<Seq<char>>) -> bool {
    match (a, b) {
        (None, Some(_)) => true,
        (Some(x), Some(y)) => seq_lt(x, y),
        _ => false,
    }
}

/// Diagnostics are ordered by route, then accessor, then message.
pub open spec fn lint_lt(a: LintDiagnosticModel, b: LintDiagnosticModel) -> bool {
    opt_lt(a.route, b.route) || (a.route == b.route && (opt_lt(a.accessor, b.accessor) || (a.accessor
        == b.accessor && seq_lt(a.message, b.message))))
}

/// The order of a report's diagnostics.
pub open spec fn lint_order() -> spec_fn(LintDiagnosticModel, LintDiagnosticModel) -> bool {
    |a: LintDiagnosticModel, b: LintDiagnosticModel| lint_lt(a, b)
}

/// Whether the usage index is older than the symbol graph.
pub open spec fn spec_stale(usage_modified: Option<u128>, graph_modified: Option<u128>) -> bool {
    match (usage_modified, graph_modified) {
        (Some(u), Some(g)) => u < g,
        _ => false,
    }
}

/// The message of a missing usage index.
pub open spec fn spec_missing_index_message(path: Seq<char>) -> Seq<char> {
    "missing Effect usage index `"@ + path
        + "`; run `api check-usages` or start api-ls to generate target/api-contract/graph/effect-usage-index.json"@
}

/// The message of a missing symbol graph.
pub open spec fn spec_missing_graph_message(path: Seq<char>) -> Seq<char> {
    "missing API symbol graph `"@ + path + "`; regenerate the API contract before checking endpoint usage"@
}

/// The message of a usage index older than the symbol graph.
pub open spec fn spec_stale_message(index_path: Seq<char>, graph_path: Seq<char>) -> Seq<char> {
    "stale Effect usage index `"@ + index_path + "`; regenerate it after the newer symbol graph `"@
        + graph_path + "`"@
}

/// The error of an input that could not be read or parsed.
pub open spec fn spec_input_error(verb: Seq<char>, label: Seq<char>, path: Seq<char>, e: Seq<char>) -> Seq<char> {
    "failed to "@ + verb + " "@ + label + " `"@ + path + "`: "@ + e
}

/// A report of one note.
pub open spec fn spec_note_report(message: Seq<char>) -> LintReportModel {
    LintReportModel { diagnostics: seq![spec_note(message)], stale: false }
}

/// The report over a loaded usage index and symbol graph.
pub open spec fn spec_loaded_report(
    index_path: Seq<char>,
    graph_path: Seq<char>,
    index: LintUsageIndex,
    graph: SymbolGraph,
    stale: bool,
) -> LintReportModel {
    let notes = if stale {
        seq![spec_note(spec_stale_message(index_path, graph_path))]
    } else {
        Seq::empty()
    };
    LintReportModel {
        diagnostics: spec_sort(notes + spec_unused_diagnostics(graph.symbols@, index.endpoints@), lint_order()),
        stale,
    }
}

/// What the lints report for a configuration and what was read: nothing
/// when they are off; a note when an input is missing; an error when one
/// could not be read or parsed; else the unused endpoints, after a note
/// when the usage index is older than the symbol graph.
pub open spec fn spec_check(config: UsageLintConfig, inputs: UsageLintInputs) -> Result<LintReportModel, Seq<char>> {
    let ip = config.usage_index@;
    let gp = config.symbol_graph@;
    if config.lint_level == UsageLintLevel::Off {
        Ok(LintReportModel { diagnostics: Seq::empty(), stale: false })
    } else if inputs.usage_index is Missing {
        Ok(spec_note_report(spec_missing_index_message(ip)))
    } else if inputs.symbol_graph is Missing {
        Ok(spec_note_report(spec_missing_graph_message(gp)))
    } else {
        match inputs.usage_index {
            LintInput::ReadFailed(e) => Err(spec_input_error("read"@, "usage index"@, ip, e@)),
            LintInput::ParseFailed(e) => Err(spec_input_error("parse"@, "usage index"@, ip, e@)),
            LintInput::Loaded(index) => match inputs.symbol_graph {
                LintInput::ReadFailed(e) => Err(spec_input_error("read"@, "symbol graph"@, gp, e@)),
                LintInput::ParseFailed(e) => Err(spec_input_error("parse"@, "symbol graph"@, gp, e@)),
                LintInput::Loaded(graph) => Ok(
                    spec_loaded_report(
                        ip,
                        gp,
                        index,
                        graph,
                        spec_stale(inputs.usage_index_modified, inputs.symbol_graph_modified),
                    ),
                ),
                LintInput::Missing => Err(Seq::empty()),
            },
            LintInput::Missing => Err(Seq::empty()),
        }
    }
}

proof fn lemma_opt_lt_three(a: Option<Seq<char>>, b: Option<Seq<char>>, c: Option<Seq<char>>)
    ensures
        !opt_lt(a, a) && !opt_lt(b, b) && !opt_lt(c, c),
        opt_lt(a, b) ==> !opt_lt(b, a),
        opt_lt(a, c) ==> !opt_lt(c, a),
        opt_lt(b, c) ==> !opt_lt(c, b),
        opt_lt(a, b) && opt_lt(b, c) ==> opt_lt(a, c),
        opt_lt(a, c) && opt_lt(c, b) ==> opt_lt(a, b),
        opt_lt(b, a) && opt_lt(a, c) ==> opt_lt(b, c),
        opt_lt(b, c) && opt_lt(c, a) ==> opt_lt(b, a),
        opt_lt(c, a) && opt_lt(a, b) ==> opt_lt(c, b),
        opt_lt(c, b) && opt_lt(b, a) ==> opt_lt(c, a),
        a != b ==> opt_lt(a, b) || opt_lt(b, a),
        a != c ==> opt_lt(a, c) || opt_lt(c, a),
        b != c ==> opt_lt(b, c) || opt_lt(c, b),
{
    let e = Seq::<char>::empty();
    crate::order::lemma_seq_lt_three(
        match a { Some(x) => x, None => e },
        match b { Some(x) => x, None => e },
        match c { Some(x) => x, None => e },
    );
}

/// Diagnostics are compared by route, then accessor, then message: a strict
/// weak order, under which diagnostics that agree on all three are tied.
pub proof fn lemma_lint_order_weak()
    ensures
        crate::order::strict_weak(lint_order()),
{
    assert forall|a: LintDiagnosticModel| !#[trigger] lint_order()(a, a) by {
        lemma_opt_lt_three(a.route, a.route, a.route);
        lemma_opt_lt_three(a.accessor, a.accessor, a.accessor);
        crate::order::lemma_seq_lt_three(a.message, a.message, a.message);
    }
    assert forall|a: LintDiagnosticModel, b: LintDiagnosticModel, c: LintDiagnosticModel|
        #[trigger] lint_order()(a, b) && #[trigger] lint_order()(b, c) implies lint_order()(a, c) by {
        lemma_opt_lt_three(a.route, b.route, c.route);
        lemma_opt_lt_three(a.accessor, b.accessor, c.accessor);
        crate::order::lemma_seq_lt_three(a.message, b.message, c.message);
    }
    assert forall|a: LintDiagnosticModel, b: LintDiagnosticModel, c: LintDiagnosticModel|
        #[trigger] lint_order()(a, b) implies #[trigger] lint_order()(a, c) || lint_order()(c, b) by {
        lemma_opt_lt_three(a.route, b.route, c.route);
        lemma_opt_lt_three(a.accessor, b.accessor, c.accessor);
        crate::order::lemma_seq_lt_three(a.message, b.message, c.message);
    }
}

/// Warning and denying read the same inputs the same way: whenever the
/// lints are on, the level makes no difference to the report.
pub proof fn lemma_lint_levels_report_alike(warn: UsageLintConfig, deny: UsageLintConfig, inputs: UsageLintInputs)
    requires
        warn.lint_level == UsageLintLevel::Warn,
        deny.lint_level == UsageLintLevel::Deny,
        warn.usage_index@ == deny.usage_index@,
        warn.symbol_graph@ == deny.symbol_graph@,
    ensures
        spec_check(warn, inputs) == spec_check(deny, inputs),
{
}

proof fn lemma_unused_diagnostics_members(symbols: Seq<LinkedSymbol>, index: Seq<LintEndpointSummary>, d: LintDiagnosticModel)
    ensures
        spec_unused_diagnostics(symbols, index).contains(d) <==> exists|i: int|
            0 <= i < symbols.len() && spec_flags_unused(symbols[i], index) && d == #[trigger] spec_unused_diagnostic(symbols[i]),
    decreases symbols.len(),
{
    if symbols.len() > 0 {
        let prev = symbols.drop_last();
        lemma_unused_diagnostics_members(prev, index, d);
        let u = spec_unused_diagnostics(symbols, index);
        if u.contains(d) {
            let k = choose|k: int| 0 <= k < u.len() && u[k] == d;
            if k < spec_unused_diagnostics(prev, index).len() {
                assert(spec_unused_diagnostics(prev, index)[k] == d);
                let i = choose|i: int|
                    0 <= i < prev.len() && spec_flags_unused(prev[i], index) && d == #[trigger] spec_unused_diagnostic(prev[i]);
                assert(symbols[i] == prev[i]);
            } else {
                assert(spec_unused_diagnostic(symbols[symbols.len() - 1]) == d);
            }
        }
        if exists|i: int|
            0 <= i < symbols.len() && spec_flags_unused(symbols[i], index) && d == #[trigger] spec_unused_diagnostic(symbols[i]) {
            let i = choose|i: int|
                0 <= i < symbols.len() && spec_flags_unused(symbols[i], index) && d == #[trigger] spec_unused_diagnostic(symbols[i]);
            if i < prev.len() {
                assert(prev[i] == symbols[i]);
                let p = spec_unused_diagnostics(prev, index);
                let k = choose|k: int| 0 <= k < p.len() && p[k] == d;
                assert(u[k] == d);
            } else {
                assert(u[u.len() - 1] == d);
            }
        }
    }
}

/// Over a loaded usage index and symbol graph, the report holds exactly
/// the notes and the unused-endpoint diagnostics, each as often as they
/// occur, reordered; the diagnostics that name an endpoint are those of the
/// endpoints that are not allowed to go unused and have no strong usage;
/// and the staleness note is there exactly when the index is older than
/// the graph; the diagnostics come sorted by route, then accessor, then
/// message.
pub proof fn lemma_loaded_report_contents(
    index_path: Seq<char>,
    graph_path: Seq<char>,
    index: LintUsageIndex,
    graph: SymbolGraph,
    stale: bool,
    d: LintDiagnosticModel,
)
    ensures
        ({
            let notes = if stale {
                seq![spec_note(spec_stale_message(index_path, graph_path))]
            } else {
                Seq::empty()
            };
            spec_loaded_report(index_path, graph_path, index, graph, stale).diagnostics.to_multiset()
                =~= (notes + spec_unused_diagnostics(graph.symbols@, index.endpoints@)).to_multiset()
        }),
        d.endpoint_id is Some ==> (spec_loaded_report(index_path, graph_path, index, graph, stale).diagnostics.contains(d)
            <==> exists|i: int|
            0 <= i < graph.symbols@.len() && spec_flags_unused(graph.symbols@[i], index.endpoints@) && d
                == #[trigger] spec_unused_diagnostic(graph.symbols@[i])),
        spec_loaded_report(index_path, graph_path, index, graph, stale).diagnostics.contains(
            spec_note(spec_stale_message(index_path, graph_path)),
        ) == stale,
        crate::order::sorted_by(spec_loaded_report(index_path, graph_path, index, graph, stale).diagnostics, lint_order()),
{
    lemma_lint_order_weak();
    crate::order::lemma_sort_sorted_weak(
        (if stale {
            seq![spec_note(spec_stale_message(index_path, graph_path))]
        } else {
            Seq::empty()
        }) + spec_unused_diagnostics(graph.symbols@, index.endpoints@),
        lint_order(),
    );
    broadcast use vstd::seq_lib::group_to_multiset_ensures;
    let notes = if stale {
        seq![spec_note(spec_stale_message(index_path, graph_path))]
    } else {
        Seq::<LintDiagnosticModel>::empty()
    };
    let unused = spec_unused_diagnostics(graph.symbols@, index.endpoints@);
    let all = notes + unused;
    let sorted = spec_loaded_report(index_path, graph_path, index, graph, stale).diagnostics;
    crate::order::lemma_sort_permutes(all, lint_order());
    assert(sorted.contains(d) == all.contains(d)) by {
        assert(sorted.to_multiset().count(d) == all.to_multiset().count(d));
    }
    lemma_unused_diagnostics_members(graph.symbols@, index.endpoints@, d);
    if d.endpoint_id is Some {
        if all.contains(d) {
            let k = choose|k: int| 0 <= k < all.len() && all[k] == d;
            if k >= notes.len() {
                assert(unused[k - notes.len()] == d);
            }
        }
        if unused.contains(d) {
            let k = choose|k: int| 0 <= k < unused.len() && unused[k] == d;
            assert(all[k + notes.len()] == d);
        }
    }
    let note = spec_note(spec_stale_message(index_path, graph_path));
    lemma_unused_diagnostics_members(graph.symbols@, index.endpoints@, note);
    assert(sorted.contains(note) == all.contains(note)) by {
        assert(sorted.to_multiset().count(note) == all.to_multiset().count(note));
    }
    if stale {
        assert(all[0] == note);
    } else {
        if all.contains(note) {
            let k = choose|k: int| 0 <= k < all.len() && all[k] == note;
            assert(unused[k] == note);
        }
    }
}

/// Only endpoints are linted: whatever the level and the inputs, a
/// diagnostic of the report that names a symbol names an endpoint symbol of
/// the loaded symbol graph, one not allowed to go unused and without strong
/// usages in the loaded index; and with the lints on and both files loaded,
/// every such endpoint symbol gets its diagnostic.
pub proof fn lemma_only_endpoints_linted(config: UsageLintConfig, inputs: UsageLintInputs, d: LintDiagnosticModel)
    ensures
        (spec_check(config, inputs) matches Ok(rep) && rep.diagnostics.contains(d) && d.endpoint_id is Some)
            ==> (inputs.symbol_graph matches LintInput::Loaded(graph) && inputs.usage_index matches LintInput::Loaded(
            index,
        ) && exists|i: int|
            0 <= i < graph.symbols@.len() && (#[trigger] graph.symbols@[i]).kind@ == "endpoint"@ && d.endpoint_id
                == Some(graph.symbols@[i].id@) && !graph.symbols@[i].metadata.allow_unused && spec_strong_count(
                index.endpoints@,
                graph.symbols@[i].id@,
            ) == 0),
        inputs.symbol_graph matches LintInput::Loaded(graph) ==> (inputs.usage_index matches LintInput::Loaded(index)
            ==> (config.lint_level != UsageLintLevel::Off ==> forall|i: int|
            0 <= i < graph.symbols@.len() && (#[trigger] graph.symbols@[i]).kind@ == "endpoint"@
                && !graph.symbols@[i].metadata.allow_unused && spec_strong_count(index.endpoints@, graph.symbols@[i].id@)
                == 0 ==> (spec_check(config, inputs) matches Ok(rep) && rep.diagnostics.contains(
                spec_unused_diagnostic(graph.symbols@[i]),
            )))),
{
    let ip = config.usage_index@;
    let gp = config.symbol_graph@;
    if config.lint_level != UsageLintLevel::Off {
        if let LintInput::Loaded(index) = inputs.usage_index {
            if let LintInput::Loaded(graph) = inputs.symbol_graph {
                let stale = spec_stale(inputs.usage_index_modified, inputs.symbol_graph_modified);
                lemma_loaded_report_contents(ip, gp, index, graph, stale, d);
                assert forall|i: int|
                    0 <= i < graph.symbols@.len() && (#[trigger] graph.symbols@[i]).kind@ == "endpoint"@
                        && !graph.symbols@[i].metadata.allow_unused && spec_strong_count(
                        index.endpoints@,
                        graph.symbols@[i].id@,
                    ) == 0 implies (spec_check(config, inputs) matches Ok(rep) && rep.diagnostics.contains(
                    spec_unused_diagnostic(graph.symbols@[i]),
                )) by {
                    lemma_loaded_report_contents(ip, gp, index, graph, stale, spec_unused_diagnostic(graph.symbols@[i]));
                    assert(spec_flags_unused(graph.symbols@[i], index.endpoints@));
                }
            }
        }
    }
}

/// The model of a lint result.
pub open spec fn lint_result_view(r: Result<UsageLintReport, UsageLintError>) -> Result<LintReportModel, Seq<char>> {
    match r {
        Ok(report) => Ok(report@),
        Err(e) => Err(e@),
    }
}

} // verus!

verus! {

fn clone_opt(o: &Option<String>) -> (r: Option<String>)
    ensures
        opt_view(r) == opt_view(*o),
{
    match o {
        Some(s) => Some(s.clone()),
        None => None,
    }
}

fn note(message: String) -> (r: UsageLintDiagnostic)
    ensures
        r@ == spec_note(message@),
{
    UsageLintDiagnostic { endpoint_id: None, route: None, accessor: None, message }
}

fn unused_diagnostic(s: &LinkedSymbol) -> (r: UsageLintDiagnostic)
    ensures
        r@ == spec_unused_diagnostic(*s),
{
    let route = route_label(&s.metadata);
    let accessor = accessor_label(&s.metadata);
    let mut message = "warning[api::unused_endpoint]: endpoint is exported but has no strong TypeScript usages; route: ".to_owned();
    push_str(&mut message, route.as_str());
    push_str(&mut message, "; generated accessor: ");
    push_str(&mut message, accessor.as_str());
    push_str(
        &mut message,
        "; help: call it from Effect code, mark #[api(allow_unused)], or remove it",
    );
    UsageLintDiagnostic {
        endpoint_id: Some(s.id.clone()),
        route: Some(route),
        accessor: Some(accessor),
        message,
    }
}

fn opt_key_lt(a: &Option<String>, b: &Option<String>) -> (r: bool)
    ensures
        r == opt_lt(opt_view(*a), opt_view(*b)),
{
    match (a, b) {
        (None, Some(_)) => true,
        (Some(x), Some(y)) => str_lt(x.as_str(), y.as_str()),
        _ => false,
    }
}

fn opt_key_eq(a: &Option<String>, b: &Option<String>) -> (r: bool)
    ensures
        r == (opt_view(*a) == opt_view(*b)),
{
    match (a, b) {
        (None, None) => true,
        (Some(x), Some(y)) => str_eq(x.as_str(), y.as_str()),
        _ => false,
    }
}

fn lint_key_lt(a: &UsageLintDiagnostic, b: &UsageLintDiagnostic) -> (r: bool)
    ensures
        r == lint_lt(a@, b@),
{
    if opt_key_lt(&a.route, &b.route) {
        return true;
    }
    if !opt_key_eq(&a.route, &b.route) {
        return false;
    }
    if opt_key_lt(&a.accessor, &b.accessor) {
        return true;
    }
    if !opt_key_eq(&a.accessor, &b.accessor) {
        return false;
    }
    str_lt(a.message.as_str(), b.message.as_str())
}

fn sort_lint_diagnostics(v: Vec<UsageLintDiagnostic>) -> (r: Vec<UsageLintDiagnostic>)
    ensures
        lint_diags_view(r@) == spec_sort(lint_diags_view(v@), lint_order()),
{
    let ghost slt = |a: UsageLintDiagnostic, b: UsageLintDiagnostic| lint_lt(a@, b@);
    let lt = |a: &UsageLintDiagnostic, b: &UsageLintDiagnostic| -> (o: bool)
        ensures
            o == lint_lt(a@, b@),
        { lint_key_lt(a, b) };
    let ghost before = v@;
    let sorted = sort_by(v, lt, Ghost(slt));
    proof {
        let f = |d: UsageLintDiagnostic| d@;
        crate::order::lemma_sort_map(before, f, slt, lint_order());
        assert(before.map_values(f) =~= lint_diags_view(before));
        assert(sorted@.map_values(f) =~= lint_diags_view(sorted@));
    }
    sorted
}

fn push_unused_diagnostics(out: &mut Vec<UsageLintDiagnostic>, graph: &SymbolGraph, index: &LintUsageIndex)
    ensures
        lint_diags_view(final(out)@) == lint_diags_view(old(out)@) + spec_unused_diagnostics(
            graph.symbols@,
            index.endpoints@,
        ),
{
    let ghost start = lint_diags_view(out@);
    let ghost syms = graph.symbols@;
    for i in 0..graph.symbols.len()
        invariant
            syms == graph.symbols@,
            lint_diags_view(out@) == start + spec_unused_diagnostics(syms.take(i as int), index.endpoints@),
    {
        assert(syms.take(i + 1).drop_last() =~= syms.take(i as int));
        assert(syms.take(i + 1).last() == syms[i as int]);
        let s = &graph.symbols[i];
        let ghost before = lint_diags_view(out@);
        if str_eq(s.kind.as_str(), "endpoint") && !s.metadata.allow_unused && strong_usage_count(
            index,
            s.id.as_str(),
        ) == 0 {
            proof {
                reveal_strlit("endpoint");
            }
            let d = unused_diagnostic(s);
            out.push(d);
            assert(lint_diags_view(out@) =~= before.push(d@));
        } else {
            proof {
                reveal_strlit("endpoint");
            }
        }
    }
    assert(syms.take(syms.len() as int) =~= syms);
}

fn input_error(verb: &str, label: &str, path: &str, e: &str) -> (r: UsageLintError)
    ensures
        r@ == spec_input_error(verb@, label@, path@, e@),
{
    let mut m = "failed to ".to_owned();
    push_str(&mut m, verb);
    push_str(&mut m, " ");
    push_str(&mut m, label);
    push_str(&mut m, " `");
    push_str(&mut m, path);
    push_str(&mut m, "`: ");
    push_str(&mut m, e);
    UsageLintError::new(m)
}

fn loaded_report(
    config: &UsageLintConfig,
    index: &LintUsageIndex,
    graph: &SymbolGraph,
    stale: bool,
) -> (r: UsageLintReport)
    ensures
        r@ == spec_loaded_report(config.usage_index@, config.symbol_graph@, *index, *graph, stale),
{
    let mut diagnostics: Vec<UsageLintDiagnostic> = Vec::new();
    if stale {
        let mut m = "stale Effect usage index `".to_owned();
        push_str(&mut m, config.usage_index.as_str());
        push_str(&mut m, "`; regenerate it after the newer symbol graph `");
        push_str(&mut m, config.symbol_graph.as_str());
        push_str(&mut m, "`");
        diagnostics.push(note(m));
    }
    let ghost notes = lint_diags_view(diagnostics@);
    assert(notes =~= if stale {
        seq![spec_note(spec_stale_message(config.usage_index@, config.symbol_graph@))]
    } else {
        Seq::<LintDiagnosticModel>::empty()
    });
    push_unused_diagnostics(&mut diagnostics, graph, index);
    UsageLintReport { diagnostics: sort_lint_diagnostics(diagnostics), stale }
}

fn note_report(message: String) -> (r: UsageLintReport)
    ensures
        r@ == spec_note_report(message@),
{
    let mut diagnostics: Vec<UsageLintDiagnostic> = Vec::new();
    diagnostics.push(note(message));
    let r = UsageLintReport { diagnostics, stale: false };
    assert(r@.diagnostics =~= seq![spec_note(message@)]);
    r
}

/// Evaluates the usage lints over what was read from disk.
pub fn check_usage_lints(config: &UsageLintConfig, inputs: &UsageLintInputs) -> (r: Result<
    UsageLintReport,
    UsageLintError,
>)
    ensures
        lint_result_view(r) == spec_check(*config, *inputs),
{
    if config.lint_level == UsageLintLevel::Off {
        let r = UsageLintReport { diagnostics: Vec::new(), stale: false };
        assert(r@.diagnostics =~= Seq::<LintDiagnosticModel>::empty());
        return Ok(r);
    }
    if let LintInput::Missing = &inputs.usage_index {
        let mut m = "missing Effect usage index `".to_owned();
        push_str(&mut m, config.usage_index.as_str());
        push_str(
            &mut m,
            "`; run `api check-usages` or start api-ls to generate target/api-contract/graph/effect-usage-index.json",
        );
        return Ok(note_report(m));
    }
    if let LintInput::Missing = &inputs.symbol_graph {
        let mut m = "missing API symbol graph `".to_owned();
        push_str(&mut m, config.symbol_graph.as_str());
        push_str(&mut m, "`; regenerate the API contract before checking endpoint usage");
        return Ok(note_report(m));
    }
    let index = match &inputs.usage_index {
        LintInput::ReadFailed(e) => {
            return Err(input_error("read", "usage index", config.usage_index.as_str(), e.as_str()));
        },
        LintInput::ParseFailed(e) => {
            return Err(input_error("parse", "usage index", config.usage_index.as_str(), e.as_str()));
        },
        LintInput::Loaded(index) => index,
        LintInput::Missing => {
            return Err(UsageLintError::new(String::new()));
        },
    };
    let graph = match &inputs.symbol_graph {
        LintInput::ReadFailed(e) => {
            return Err(input_error("read", "symbol graph", config.symbol_graph.as_str(), e.as_str()));
        },
        LintInput::ParseFailed(e) => {
            return Err(input_error("parse", "symbol graph", config.symbol_graph.as_str(), e.as_str()));
        },
        LintInput::Loaded(graph) => graph,
        LintInput::Missing => {
            return Err(UsageLintError::new(String::new()));
        },
    };
    let stale = match (inputs.usage_index_modified, inputs.symbol_graph_modified) {
        (Some(u), Some(g)) => u < g,
        _ => false,
    };
    Ok(loaded_report(config, index, graph, stale))
}

} // verus!

verus! {

/// The header of the generated lint glue.
pub open spec fn spec_glue_header() -> Seq<char> {
    "// Generated by api-build. Do not edit.\n"@
}

/// The `compile_error!` line of one diagnostic message.
pub open spec fn spec_compile_error(message: Seq<char>) -> Seq<char> {
    "compile_error!("@ + spec_json_string(message) + ");\n"@
}

/// The generated lint glue: the header, then in deny mode one
/// `compile_error!` per diagnostic.
pub open spec fn spec_lint_glue(level: UsageLintLevel, diagnostics: Seq<LintDiagnosticModel>) -> Seq<char> {
    spec_glue_header() + if level == UsageLintLevel::Deny {
        concat_map(diagnostics, |d: LintDiagnosticModel| spec_compile_error(d.message))
    } else {
        Seq::empty()
    }
}

/// The build warnings: each diagnostic's message, unless lints are off.
pub open spec fn spec_lint_warnings(level: UsageLintLevel, diagnostics: Seq<LintDiagnosticModel>) -> Seq<Seq<char>> {
    if level == UsageLintLevel::Off {
        Seq::empty()
    } else {
        diagnostics.map_values(|d: LintDiagnosticModel| d.message)
    }
}

/// What a build emits for a lint report: the warnings it prints and the
/// lint glue it writes.
#[derive(Debug, PartialEq, Eq)]
pub struct LintOutputs {
    pub warnings: Vec<String>,
    pub glue: String,
}

/// Renders the generated lint glue.
pub fn render_lint_glue(level: UsageLintLevel, diagnostics: &Vec<UsageLintDiagnostic>) -> (r: String)
    ensures
        r@ == spec_lint_glue(level, lint_diags_view(diagnostics@)),
{
    let ghost ds = lint_diags_view(diagnostics@);
    let ghost f = |d: LintDiagnosticModel| spec_compile_error(d.message);
    let mut output = "// Generated by api-build. Do not edit.\n".to_owned();
    if level == UsageLintLevel::Deny {
        let ghost start = output@;
        for i in 0..diagnostics.len()
            invariant
                ds == lint_diags_view(diagnostics@),
                f == (|d: LintDiagnosticModel| spec_compile_error(d.message)),
                output@ == start + concat_map(ds.take(i as int), f),
        {
            proof {
                crate::text::lemma_concat_map_step(ds, f, i as int);
            }
            push_str(&mut output, "compile_error!(");
            let quoted = json_string(diagnostics[i].message.as_str());
            push_str(&mut output, quoted.as_str());
            push_str(&mut output, ");\n");
            assert(ds[i as int] == diagnostics@[i as int]@);
            assert(f(ds[i as int]) == "compile_error!("@ + quoted@ + ");\n"@);
            assert(output@ =~= start + concat_map(ds.take(i + 1), f));
        }
        proof {
            crate::text::lemma_take_all(ds);
        }
    } else {
        assert(output@ =~= output@ + Seq::<char>::empty());
    }
    output
}

/// The warnings a build prints and the glue it writes for `diagnostics`.
pub fn lint_outputs(level: UsageLintLevel, diagnostics: &Vec<UsageLintDiagnostic>) -> (r: LintOutputs)
    ensures
        strings_view(r.warnings@) == spec_lint_warnings(level, lint_diags_view(diagnostics@)),
        r.glue@ == spec_lint_glue(level, lint_diags_view(diagnostics@)),
{
    let mut warnings: Vec<String> = Vec::new();
    if level != UsageLintLevel::Off {
        for i in 0..diagnostics.len()
            invariant
                warnings@.len() == i,
                forall|j: int| 0 <= j < i ==> #[trigger] warnings@[j]@ == diagnostics@[j].message@,
        {
            warnings.push(diagnostics[i].message.clone());
        }
        assert(strings_view(warnings@) =~= lint_diags_view(diagnostics@).map_values(
            |d: LintDiagnosticModel| d.message,
        ));
    } else {
        assert(strings_view(warnings@) =~= Seq::<Seq<char>>::empty());
    }
    LintOutputs { warnings, glue: render_lint_glue(level, diagnostics) }
}

/// The diagnostic recorded when the lint bridge itself fails.
pub fn bridge_failure_diagnostic(error: &UsageLintError) -> (r: UsageLintDiagnostic)
    ensures
        r@ == spec_note("api usage lint bridge failed: "@ + error@),
{
    let mut m = "api usage lint bridge failed: ".to_owned();
    push_str(&mut m, error.message());
    note(m)
}

} // verus!
