//! The symbol graph as the gateway reads it, and the queries it answers
//! across languages: definition, references, hover and rename.

use vstd::prelude::*;
use crate::gen::symbols::{opt_string_view, GraphPosition, GraphRange, MetadataModel, SymbolMetadata};
use crate::ir::strings_view;
use crate::ls::config::{absolutize_from, spec_absolutize};
use crate::ls::gateway::uri_is_decodable;
use crate::ls::paths::{opt_chars, path_to_file_uri, same_uri, spec_file_uri, spec_same_uri, uri_decodable};
use crate::order::str_eq;
use crate::text::{chars_of, decimal, join, join_strings, push_decimal, push_str};

verus! {

/// Where a symbol appears: a URI, or a file resolved from the workspace
/// root, and a range.
#[derive(Clone, Debug, PartialEq, Eq)]
pub struct LsLocation {
    pub uri: Option<String>,
    pub file: Option<String>,
    pub range: GraphRange,
    pub generated: bool,
    pub renamable: Option<bool>,
}

/// Model of an [`LsLocation`].
pub struct LsLocationModel {
    pub uri: Option<Seq<char>>,
    pub file: Option<Seq<char>>,
    pub range: GraphRange,
    pub generated: bool,
    pub renamable: Option<bool>,
}

impl View for LsLocation {
    type V = LsLocationModel;

    open spec fn view(&self) -> LsLocationModel {
        LsLocationModel {
            uri: opt_string_view(self.uri),
            file: opt_string_view(self.file),
            range: self.range,
            generated: self.generated,
            renamable: self.renamable,
        }
    }
}

/// The models of a list of locations.
pub open spec fn ls_locations_view(v: Seq<LsLocation>) -> Seq<LsLocationModel> {
    v.map_values(|l: LsLocation| l@)
}

/// A symbol of the graph: its Rust location, its TypeScript locations and
/// its metadata.
#[derive(Debug, PartialEq, Eq)]
pub struct LsSymbol {
    pub id: String,
    pub kind: String,
    pub rust: LsLocation,
    pub typescript: Vec<LsLocation>,
    pub metadata: SymbolMetadata,
}

/// Model of an [`LsSymbol`].
pub struct LsSymbolModel {
    pub id: Seq<char>,
    pub kind: Seq<char>,
    pub rust: LsLocationModel,
    pub typescript: Seq<LsLocationModel>,
    pub metadata: MetadataModel,
}

impl View for LsSymbol {
    type V = LsSymbolModel;

    open spec fn view(&self) -> LsSymbolModel {
        LsSymbolModel {
            id: self.id@,
            kind: self.kind@,
            rust: self.rust@,
            typescript: ls_locations_view(self.typescript@),
            metadata: self.metadata@,
        }
    }
}

/// The models of a list of symbols.
pub open spec fn ls_symbols_view(v: Seq<LsSymbol>) -> Seq<LsSymbolModel> {
    v.map_values(|s: LsSymbol| s@)
}

/// The symbol graph the gateway loads: the contract hashes it was made for
/// and its symbols.
#[derive(Debug, PartialEq, Eq)]
pub struct LsSymbolGraph {
    pub contract_hash: Option<String>,
    pub contract_hashes: Vec<String>,
    pub symbols: Vec<LsSymbol>,
}

/// A position in a document that a request asks about.
#[derive(Clone, Debug, PartialEq, Eq)]
pub struct TextPositionQuery {
    pub uri: String,
    pub position: GraphPosition,
    pub include_declaration: bool,
}

/// Model of a [`TextPositionQuery`].
pub struct QueryModel {
    pub uri: Seq<char>,
    pub position: GraphPosition,
    pub include_declaration: bool,
}

impl View for TextPositionQuery {
    type V = QueryModel;

    open spec fn view(&self) -> QueryModel {
        QueryModel { uri: self.uri@, position: self.position, include_declaration: self.include_declaration }
    }
}

/// A location as the protocol sends it.
#[derive(Clone, Debug, PartialEq, Eq)]
pub struct LspLocation {
    pub uri: String,
    pub range: GraphRange,
}

/// Model of an [`LspLocation`].
pub struct LspLocationModel {
    pub uri: Seq<char>,
    pub range: GraphRange,
}

impl View for LspLocation {
    type V = LspLocationModel;

    open spec fn view(&self) -> LspLocationModel {
        LspLocationModel { uri: self.uri@, range: self.range }
    }
}

/// The models of a list of protocol locations.
pub open spec fn lsp_locations_view(v: Seq<LspLocation>) -> Seq<LspLocationModel> {
    v.map_values(|l: LspLocation| l@)
}

/// The URI of a location: its own, else the `file://` URI of its file
/// resolved from the workspace root.
pub open spec fn spec_resolved_uri(l: LsLocationModel, root: Seq<char>) -> Option<Seq<char>> {
    match l.uri {
        Some(u) => Some(u),
        None => match l.file {
            Some(f) => Some(spec_file_uri(spec_absolutize(root, f))),
            None => None,
        },
    }
}

/// The URI of a location.
pub fn resolved_uri(l: &LsLocation, root: &str) -> (r: Option<String>)
    ensures
        opt_chars(r) == spec_resolved_uri(l@, root@),
{
    match &l.uri {
        Some(u) => Some(u.clone()),
        None => match &l.file {
            Some(f) => {
                let path = absolutize_from(root, f.as_str());
                Some(path_to_file_uri(path.as_str()))
            },
            None => None,
        },
    }
}

/// A location can be renamed when it says so, else when it is not
/// generated.
pub open spec fn spec_renamable(l: LsLocationModel) -> bool {
    match l.renamable {
        Some(b) => b,
        None => !l.generated,
    }
}

/// Whether a location can be renamed.
pub fn is_renamable(l: &LsLocation) -> (r: bool)
    ensures
        r == spec_renamable(l@),
{
    match l.renamable {
        Some(b) => b,
        None => !l.generated,
    }
}

/// Position order: by line, then by character.
pub open spec fn pos_le(a: GraphPosition, b: GraphPosition) -> bool {
    a.line < b.line || (a.line == b.line && a.character <= b.character)
}

/// Whether a range holds a position, both ends included.
pub open spec fn spec_contains(r: GraphRange, p: GraphPosition) -> bool {
    pos_le(r.start, p) && pos_le(p, r.end)
}

/// Whether a range holds a position, both ends included.
pub fn range_contains(r: GraphRange, p: GraphPosition) -> (b: bool)
    ensures
        b == spec_contains(r, p),
{
    let after_start = r.start.line < p.line || (r.start.line == p.line && r.start.character <= p.character);
    let before_end = p.line < r.end.line || (p.line == r.end.line && p.character <= r.end.character);
    after_start && before_end
}

/// The values paired with key `u`, in order.
pub open spec fn spec_values_for<T>(pairs: Seq<(Seq<char>, T)>, u: Seq<char>) -> Seq<T>
    decreases pairs.len(),
{
    if pairs.len() == 0 {
        seq![]
    } else {
        let rest = spec_values_for(pairs.drop_last(), u);
        if pairs.last().0 == u {
            rest.push(pairs.last().1)
        } else {
            rest
        }
    }
}

/// Each group holds exactly the values paired with its key, in order, and
/// a key that no group has is paired with no value.
pub proof fn lemma_group_values<T>(pairs: Seq<(Seq<char>, T)>)
    ensures
        forall|k: int| 0 <= k < spec_group(pairs).len() ==> #[trigger] spec_group(pairs)[k].1
            == spec_values_for(pairs, spec_group(pairs)[k].0),
        forall|u: Seq<char>|
            (forall|k: int| 0 <= k < spec_group(pairs).len() ==> spec_group(pairs)[k].0 != u) ==> #[trigger] spec_values_for(
                pairs,
                u,
            ) == Seq::<T>::empty(),
    decreases pairs.len(),
{
    if pairs.len() > 0 {
        let pd = pairs.drop_last();
        let g = spec_group(pd);
        let u = pairs.last().0;
        let v = pairs.last().1;
        lemma_group_values(pd);
        lemma_group_keys_distinct(pd);
        lemma_key_pos(g, u, 0);
        let k0 = spec_key_pos(g, u, 0);
        let r = spec_group(pairs);
        if k0 >= 0 {
            assert forall|k: int| 0 <= k < r.len() implies #[trigger] r[k].1 == spec_values_for(pairs, r[k].0) by {
                if k != k0 {
                    assert(r[k] == g[k]);
                    if g[k].0 == u {
                        if k < k0 {
                            assert(g[k].0 != g[k0].0);
                        } else {
                            assert(g[k0].0 != g[k].0);
                        }
                    }
                }
            }
            assert forall|w: Seq<char>|
                (forall|k: int| 0 <= k < r.len() ==> r[k].0 != w) implies #[trigger] spec_values_for(pairs, w)
                == Seq::<T>::empty() by {
                assert(r[k0].0 == u);
                assert forall|k: int| 0 <= k < g.len() implies g[k].0 != w by {
                    if k != k0 {
                        assert(r[k] == g[k]);
                    }
                }
                assert(w != u);
                assert(spec_values_for(pd, w) == Seq::<T>::empty());
            }
        } else {
            assert(spec_values_for(pd, u) == Seq::<T>::empty());
            assert forall|k: int| 0 <= k < r.len() implies #[trigger] r[k].1 == spec_values_for(pairs, r[k].0) by {
                if k < g.len() {
                    assert(r[k] == g[k]);
                } else {
                    assert(spec_values_for(pairs, u) =~= seq![v]);
                }
            }
            assert forall|w: Seq<char>|
                (forall|k: int| 0 <= k < r.len() ==> r[k].0 != w) implies #[trigger] spec_values_for(pairs, w)
                == Seq::<T>::empty() by {
                assert(r[g.len() as int].0 == u);
                assert forall|k: int| 0 <= k < g.len() implies g[k].0 != w by {
                    assert(r[k] == g[k]);
                }
                assert(w != u);
                assert(spec_values_for(pd, w) == Seq::<T>::empty());
            }
        }
    }
}

/// Whether a location is the queried document and holds the queried
/// position; `None` where comparing the URIs would read an escape across a
/// character boundary.
pub open spec fn spec_loc_matches(l: LsLocationModel, q: QueryModel, root: Seq<char>) -> Option<bool> {
    match spec_resolved_uri(l, root) {
        None => Some(false),
        Some(u) => if uri_decodable(u) && uri_decodable(q.uri) {
            Some(spec_same_uri(u, q.uri) && spec_contains(l.range, q.position))
        } else {
            None
        },
    }
}

/// Whether a location is the queried document and holds the queried
/// position.
pub fn location_matches(l: &LsLocation, q: &TextPositionQuery, root: &str) -> (r: bool)
    requires
        spec_loc_matches(l@, q@, root@) is Some,
    ensures
        spec_loc_matches(l@, q@, root@) == Some(r),
{
    match resolved_uri(l, root) {
        None => false,
        Some(u) => same_uri(u.as_str(), q.uri.as_str()) && range_contains(l.range, q.position),
    }
}

/// Whether some location from `j` on matches, scanning in order and
/// stopping at the first match.
pub open spec fn spec_any_match(ts: Seq<LsLocationModel>, q: QueryModel, root: Seq<char>, j: int) -> Option<bool>
    decreases ts.len() - j,
{
    if j < 0 || j >= ts.len() {
        Some(false)
    } else {
        match spec_loc_matches(ts[j], q, root) {
            None => None,
            Some(true) => Some(true),
            Some(false) => spec_any_match(ts, q, root, j + 1),
        }
    }
}

/// Whether some location matches.
pub fn any_match(ts: &Vec<LsLocation>, q: &TextPositionQuery, root: &str) -> (r: bool)
    requires
        spec_any_match(ls_locations_view(ts@), q@, root@, 0) is Some,
    ensures
        spec_any_match(ls_locations_view(ts@), q@, root@, 0) == Some(r),
{
    let ghost v = ls_locations_view(ts@);
    let mut j: usize = 0;
    while j < ts.len()
        invariant
            v == ls_locations_view(ts@),
            j <= ts@.len(),
            spec_any_match(v, q@, root@, 0) == spec_any_match(v, q@, root@, j as int),
            spec_any_match(v, q@, root@, 0) is Some,
        decreases ts@.len() - j,
    {
        assert(v[j as int] == ts@[j as int]@);
        if location_matches(&ts[j], q, root) {
            return true;
        }
        j = j + 1;
    }
    false
}

/// The first location from `j` on that matches; `Some(None)` when none
/// does.
pub open spec fn spec_find_match(ts: Seq<LsLocationModel>, q: QueryModel, root: Seq<char>, j: int) -> Option<Option<int>>
    decreases ts.len() - j,
{
    if j < 0 || j >= ts.len() {
        Some(None)
    } else {
        match spec_loc_matches(ts[j], q, root) {
            None => None,
            Some(true) => Some(Some(j)),
            Some(false) => spec_find_match(ts, q, root, j + 1),
        }
    }
}

/// The first location that matches.
pub fn find_match(ts: &Vec<LsLocation>, q: &TextPositionQuery, root: &str) -> (r: Option<usize>)
    requires
        spec_find_match(ls_locations_view(ts@), q@, root@, 0) is Some,
    ensures
        spec_find_match(ls_locations_view(ts@), q@, root@, 0) == Some(
            match r {
                Some(j) => Some(j as int),
                None => None::<int>,
            },
        ),
        r matches Some(j) ==> j < ts@.len(),
{
    let ghost v = ls_locations_view(ts@);
    let mut j: usize = 0;
    while j < ts.len()
        invariant
            v == ls_locations_view(ts@),
            j <= ts@.len(),
            spec_find_match(v, q@, root@, 0) == spec_find_match(v, q@, root@, j as int),
            spec_find_match(v, q@, root@, 0) is Some,
        decreases ts@.len() - j,
    {
        assert(v[j as int] == ts@[j as int]@);
        if location_matches(&ts[j], q, root) {
            return Some(j);
        }
        j = j + 1;
    }
    None
}

/// The protocol location of a graph location (an empty URI when it has
/// none).
pub open spec fn spec_lsp_location(l: LsLocationModel, root: Seq<char>) -> LspLocationModel {
    LspLocationModel {
        uri: match spec_resolved_uri(l, root) {
            Some(u) => u,
            None => Seq::empty(),
        },
        range: l.range,
    }
}

/// The protocol location of a graph location.
pub fn to_lsp_location(l: &LsLocation, root: &str) -> (r: LspLocation)
    ensures
        r@ == spec_lsp_location(l@, root@),
{
    let uri = match resolved_uri(l, root) {
        Some(u) => u,
        None => String::new(),
    };
    LspLocation { uri, range: l.range }
}

/// The protocol locations of the locations that are not generated, in
/// order.
pub open spec fn spec_visible(ts: Seq<LsLocationModel>, root: Seq<char>) -> Seq<LspLocationModel>
    decreases ts.len(),
{
    if ts.len() == 0 {
        seq![]
    } else if ts.last().generated {
        spec_visible(ts.drop_last(), root)
    } else {
        spec_visible(ts.drop_last(), root).push(spec_lsp_location(ts.last(), root))
    }
}

/// Appends the protocol locations of the locations that are not generated.
pub fn push_visible(out: &mut Vec<LspLocation>, ts: &Vec<LsLocation>, root: &str)
    ensures
        lsp_locations_view(final(out)@) == lsp_locations_view(old(out)@) + spec_visible(ls_locations_view(ts@), root@),
{
    let ghost v = ls_locations_view(ts@);
    let ghost start = lsp_locations_view(out@);
    let mut j: usize = 0;
    while j < ts.len()
        invariant
            v == ls_locations_view(ts@),
            j <= ts@.len(),
            lsp_locations_view(out@) == start + spec_visible(v.take(j as int), root@),
        decreases ts@.len() - j,
    {
        proof {
            assert(v.take(j + 1).drop_last() =~= v.take(j as int));
            assert(v.take(j + 1).last() == ts@[j as int]@);
        }
        if !ts[j].generated {
            let ghost before = out@;
            let l = to_lsp_location(&ts[j], root);
            out.push(l);
            proof {
                assert(lsp_locations_view(out@) =~= lsp_locations_view(before).push(l@));
            }
        }
        j = j + 1;
    }
    proof {
        assert(v.take(ts@.len() as int) =~= v);
    }
}

/// The answer to a definition request from the graph: the TypeScript
/// locations of a Rust symbol, or the Rust location of a TypeScript one.
#[derive(Debug, PartialEq, Eq)]
pub enum Definition {
    Many(Vec<LspLocation>),
    One(LspLocation),
}

/// Model of a [`Definition`].
pub enum DefinitionModel {
    Many(Seq<LspLocationModel>),
    One(LspLocationModel),
}

impl View for Definition {
    type V = DefinitionModel;

    open spec fn view(&self) -> DefinitionModel {
        match self {
            Definition::Many(v) => DefinitionModel::Many(lsp_locations_view(v@)),
            Definition::One(l) => DefinitionModel::One(l@),
        }
    }
}

/// The graph's answer to a definition request, scanning symbols from `i`:
/// at the first symbol whose Rust location matches and that has visible
/// TypeScript locations, those; else at the first symbol with a matching
/// TypeScript location, its Rust location. The outer `None` marks a URI
/// that cannot be compared.
pub open spec fn spec_definition_from(syms: Seq<LsSymbolModel>, q: QueryModel, root: Seq<char>, i: int) -> Option<Option<DefinitionModel>>
    decreases syms.len() - i,
{
    if i < 0 || i >= syms.len() {
        Some(None)
    } else {
        let s = syms[i];
        match spec_loc_matches(s.rust, q, root) {
            None => None,
            Some(m) => if m && spec_visible(s.typescript, root).len() > 0 {
                Some(Some(DefinitionModel::Many(spec_visible(s.typescript, root))))
            } else {
                match spec_any_match(s.typescript, q, root, 0) {
                    None => None,
                    Some(true) => Some(Some(DefinitionModel::One(spec_lsp_location(s.rust, root)))),
                    Some(false) => spec_definition_from(syms, q, root, i + 1),
                }
            },
        }
    }
}

/// The optional model of an optional answer.
pub open spec fn opt_view<T: View>(o: Option<T>) -> Option<T::V> {
    match o {
        Some(x) => Some(x@),
        None => None,
    }
}

impl LsSymbolGraph {
    /// Answers a definition request across languages, when the graph
    /// knows the queried position.
    pub fn definition(&self, q: &TextPositionQuery, root: &str) -> (r: Option<Definition>)
        requires
            spec_definition_from(ls_symbols_view(self.symbols@), q@, root@, 0) is Some,
        ensures
            spec_definition_from(ls_symbols_view(self.symbols@), q@, root@, 0) == Some(opt_view(r)),
    {
        let ghost syms = ls_symbols_view(self.symbols@);
        let mut i: usize = 0;
        while i < self.symbols.len()
            invariant
                syms == ls_symbols_view(self.symbols@),
                i <= self.symbols@.len(),
                spec_definition_from(syms, q@, root@, 0) == spec_definition_from(syms, q@, root@, i as int),
                spec_definition_from(syms, q@, root@, 0) is Some,
            decreases self.symbols@.len() - i,
        {
            let s = &self.symbols[i];
            assert(syms[i as int] == s@);
            let m = location_matches(&s.rust, q, root);
            if m {
                let mut locations: Vec<LspLocation> = Vec::new();
                push_visible(&mut locations, &s.typescript, root);
                proof {
                    assert(lsp_locations_view(locations@) =~= spec_visible(s.typescript@.map_values(|l: LsLocation| l@), root@));
                }
                if locations.len() > 0 {
                    return Some(Definition::Many(locations));
                }
            }
            if any_match(&s.typescript, q, root) {
                return Some(Definition::One(to_lsp_location(&s.rust, root)));
            }
            i = i + 1;
        }
        None
    }
}

/// The graph's answer to a references request, scanning symbols from
/// `i`: at the first symbol with a matching Rust or TypeScript location,
/// its Rust location (when the declaration is asked for or the match is in
/// TypeScript) followed by its visible TypeScript locations.
pub open spec fn spec_references_from(syms: Seq<LsSymbolModel>, q: QueryModel, root: Seq<char>, i: int) -> Option<Option<Seq<LspLocationModel>>>
    decreases syms.len() - i,
{
    if i < 0 || i >= syms.len() {
        Some(None)
    } else {
        let s = syms[i];
        match (spec_loc_matches(s.rust, q, root), spec_any_match(s.typescript, q, root, 0)) {
            (Some(rm), Some(tm)) => if !rm && !tm {
                spec_references_from(syms, q, root, i + 1)
            } else {
                Some(Some(
                    (if q.include_declaration || tm {
                        seq![spec_lsp_location(s.rust, root)]
                    } else {
                        seq![]
                    }) + spec_visible(s.typescript, root),
                ))
            },
            _ => None,
        }
    }
}

impl LsSymbolGraph {
    /// The locations the graph links to the queried position, when it
    /// knows it.
    pub fn references(&self, q: &TextPositionQuery, root: &str) -> (r: Option<Vec<LspLocation>>)
        requires
            spec_references_from(ls_symbols_view(self.symbols@), q@, root@, 0) is Some,
        ensures
            spec_references_from(ls_symbols_view(self.symbols@), q@, root@, 0) == Some(
                match r {
                    Some(v) => Some(lsp_locations_view(v@)),
                    None => None::<Seq<LspLocationModel>>,
                },
            ),
    {
        let ghost syms = ls_symbols_view(self.symbols@);
        let mut i: usize = 0;
        while i < self.symbols.len()
            invariant
                syms == ls_symbols_view(self.symbols@),
                i <= self.symbols@.len(),
                spec_references_from(syms, q@, root@, 0) == spec_references_from(syms, q@, root@, i as int),
                spec_references_from(syms, q@, root@, 0) is Some,
            decreases self.symbols@.len() - i,
        {
            let s = &self.symbols[i];
            assert(syms[i as int] == s@);
            let rust_match = location_matches(&s.rust, q, root);
            let typescript_match = any_match(&s.typescript, q, root);
            if rust_match || typescript_match {
                let mut locations: Vec<LspLocation> = Vec::new();
                if q.include_declaration || typescript_match {
                    locations.push(to_lsp_location(&s.rust, root));
                }
                let ghost head = lsp_locations_view(locations@);
                push_visible(&mut locations, &s.typescript, root);
                proof {
                    if q.include_declaration || typescript_match {
                        assert(head =~= seq![spec_lsp_location(s.rust@, root@)]);
                    } else {
                        assert(head =~= Seq::<LspLocationModel>::empty());
                    }
                }
                return Some(locations);
            }
            i = i + 1;
        }
        None
    }
}

/// The lines of the hover text of a symbol.
pub open spec fn spec_hover_lines(s: LsSymbolModel, root: Seq<char>) -> Seq<Seq<char>> {
    let m = s.metadata;
    let head = seq!["**API "@ + s.kind + "** `"@ + s.id + "`"@];
    let route = match (m.method, m.route) {
        (Some(method), Some(route)) => seq!["Route: `"@ + method + " "@ + route + "`"@],
        _ => seq![],
    };
    let effect = match m.effect_signature {
        Some(e) => seq!["Effect: `"@ + e + "`"@],
        None => seq![],
    };
    let errors = if m.errors.len() > 0 {
        seq!["Errors: `"@ + join(m.errors, " | "@) + "`"@]
    } else {
        seq![]
    };
    let rust = if m.rust_path.len() > 0 {
        seq!["Rust: `"@ + join(m.rust_path, "::"@) + "`"@]
    } else {
        match spec_resolved_uri(s.rust, root) {
            Some(u) => seq!["Rust source: `"@ + u + "`"@],
            None => seq![],
        }
    };
    let ts = if m.ts_path.len() > 0 {
        seq!["TypeScript: `"@ + join(m.ts_path, "."@) + "`"@]
    } else {
        seq![]
    };
    let usage = seq![
        "Usage count: `"@ + (match m.usage_count {
            Some(c) => decimal(c as nat),
            None => "pending"@,
        }) + "`"@
    ];
    head + route + effect + errors + rust + ts + usage
}

/// The hover text of a symbol: its lines separated by blank lines.
pub open spec fn spec_hover_markdown(s: LsSymbolModel, root: Seq<char>) -> Seq<char> {
    join(spec_hover_lines(s, root), "\n\n"@)
}

/// Text that is three pieces concatenated.
fn concat3(a: &str, b: &str, c: &str) -> (r: String)
    ensures
        r@ == a@ + b@ + c@,
{
    let mut out = a.to_owned();
    push_str(&mut out, b);
    push_str(&mut out, c);
    out
}

/// The hover text of a symbol.
pub fn hover_markdown(s: &LsSymbol, root: &str) -> (r: String)
    ensures
        r@ == spec_hover_markdown(s@, root@),
{
    let m = &s.metadata;
    let mut lines: Vec<String> = Vec::new();
    let mut head = "**API ".to_owned();
    push_str(&mut head, s.kind.as_str());
    push_str(&mut head, "** `");
    push_str(&mut head, s.id.as_str());
    push_str(&mut head, "`");
    lines.push(head);
    let ghost l1 = lines@.map_values(|x: String| x@);
    match (&m.method, &m.route) {
        (Some(method), Some(route)) => {
            let mut line = "Route: `".to_owned();
            push_str(&mut line, method.as_str());
            push_str(&mut line, " ");
            push_str(&mut line, route.as_str());
            push_str(&mut line, "`");
            lines.push(line);
        },
        _ => {},
    }
    let ghost l2 = lines@.map_values(|x: String| x@);
    match &m.effect_signature {
        Some(e) => {
            lines.push(concat3("Effect: `", e.as_str(), "`"));
        },
        None => {},
    }
    let ghost l3 = lines@.map_values(|x: String| x@);
    if m.errors.len() > 0 {
        let joined = join_strings(&m.errors, " | ");
        lines.push(concat3("Errors: `", joined.as_str(), "`"));
    }
    let ghost l4 = lines@.map_values(|x: String| x@);
    if m.rust_path.len() > 0 {
        let joined = join_strings(&m.rust_path, "::");
        lines.push(concat3("Rust: `", joined.as_str(), "`"));
    } else {
        match resolved_uri(&s.rust, root) {
            Some(u) => {
                lines.push(concat3("Rust source: `", u.as_str(), "`"));
            },
            None => {},
        }
    }
    let ghost l5 = lines@.map_values(|x: String| x@);
    if m.ts_path.len() > 0 {
        let joined = join_strings(&m.ts_path, ".");
        lines.push(concat3("TypeScript: `", joined.as_str(), "`"));
    }
    let ghost l6 = lines@.map_values(|x: String| x@);
    let mut usage = "Usage count: `".to_owned();
    match m.usage_count {
        Some(c) => push_decimal(&mut usage, c),
        None => push_str(&mut usage, "pending"),
    }
    push_str(&mut usage, "`");
    lines.push(usage);
    proof {
        let sm = s@;
        let mm = sm.metadata;
        assert(l1 =~= seq!["**API "@ + sm.kind + "** `"@ + sm.id + "`"@]);
        assert(l2 =~= l1 + match (mm.method, mm.route) {
            (Some(method), Some(route)) => seq!["Route: `"@ + method + " "@ + route + "`"@],
            _ => Seq::<Seq<char>>::empty(),
        });
        assert(l3 =~= l2 + match mm.effect_signature {
            Some(e) => seq!["Effect: `"@ + e + "`"@],
            None => Seq::<Seq<char>>::empty(),
        });
        assert(l4 =~= l3 + if mm.errors.len() > 0 {
            seq!["Errors: `"@ + join(mm.errors, " | "@) + "`"@]
        } else {
            Seq::<Seq<char>>::empty()
        });
        assert(l5 =~= l4 + if mm.rust_path.len() > 0 {
            seq!["Rust: `"@ + join(mm.rust_path, "::"@) + "`"@]
        } else {
            match spec_resolved_uri(sm.rust, root@) {
                Some(u) => seq!["Rust source: `"@ + u + "`"@],
                None => Seq::<Seq<char>>::empty(),
            }
        });
        assert(l6 =~= l5 + if mm.ts_path.len() > 0 {
            seq!["TypeScript: `"@ + join(mm.ts_path, "."@) + "`"@]
        } else {
            Seq::<Seq<char>>::empty()
        });
        assert(lines@.map_values(|x: String| x@) =~= spec_hover_lines(sm, root@));
    }
    join_strings(&lines, "\n\n")
}

/// A hover answer: markdown text and the range it covers.
#[derive(Debug, PartialEq, Eq)]
pub struct Hover {
    pub markdown: String,
    pub range: GraphRange,
}

/// Model of a [`Hover`].
pub struct HoverModel {
    pub markdown: Seq<char>,
    pub range: GraphRange,
}

impl View for Hover {
    type V = HoverModel;

    open spec fn view(&self) -> HoverModel {
        HoverModel { markdown: self.markdown@, range: self.range }
    }
}

/// The graph's answer to a hover request, scanning symbols from `i`: at
/// the first symbol whose Rust location, else one of whose TypeScript
/// locations, matches, its hover text over the matched range.
pub open spec fn spec_hover_from(syms: Seq<LsSymbolModel>, q: QueryModel, root: Seq<char>, i: int) -> Option<Option<HoverModel>>
    decreases syms.len() - i,
{
    if i < 0 || i >= syms.len() {
        Some(None)
    } else {
        let s = syms[i];
        match spec_loc_matches(s.rust, q, root) {
            None => None,
            Some(true) => Some(Some(HoverModel { markdown: spec_hover_markdown(s, root), range: s.rust.range })),
            Some(false) => match spec_find_match(s.typescript, q, root, 0) {
                None => None,
                Some(Some(j)) => Some(Some(HoverModel { markdown: spec_hover_markdown(s, root), range: s.typescript[j].range })),
                Some(None) => spec_hover_from(syms, q, root, i + 1),
            },
        }
    }
}

impl LsSymbolGraph {
    /// Answers a hover request with the symbol's API metadata, when the
    /// graph knows the queried position.
    pub fn hover(&self, q: &TextPositionQuery, root: &str) -> (r: Option<Hover>)
        requires
            spec_hover_from(ls_symbols_view(self.symbols@), q@, root@, 0) is Some,
        ensures
            spec_hover_from(ls_symbols_view(self.symbols@), q@, root@, 0) == Some(opt_view(r)),
    {
        let ghost syms = ls_symbols_view(self.symbols@);
        let mut i: usize = 0;
        while i < self.symbols.len()
            invariant
                syms == ls_symbols_view(self.symbols@),
                i <= self.symbols@.len(),
                spec_hover_from(syms, q@, root@, 0) == spec_hover_from(syms, q@, root@, i as int),
                spec_hover_from(syms, q@, root@, 0) is Some,
            decreases self.symbols@.len() - i,
        {
            let s = &self.symbols[i];
            assert(syms[i as int] == s@);
            if location_matches(&s.rust, q, root) {
                return Some(Hover { markdown: hover_markdown(s, root), range: s.rust.range });
            }
            match find_match(&s.typescript, q, root) {
                Some(j) => {
                    assert(s@.typescript[j as int] == s.typescript@[j as int]@);
                    return Some(Hover { markdown: hover_markdown(s, root), range: s.typescript[j].range });
                },
                None => {},
            }
            i = i + 1;
        }
        None
    }
}

/// The first renamable location from `j` on that matches.
pub open spec fn spec_find_renamable(ts: Seq<LsLocationModel>, q: QueryModel, root: Seq<char>, j: int) -> Option<Option<int>>
    decreases ts.len() - j,
{
    if j < 0 || j >= ts.len() {
        Some(None)
    } else if !spec_renamable(ts[j]) {
        spec_find_renamable(ts, q, root, j + 1)
    } else {
        match spec_loc_matches(ts[j], q, root) {
            None => None,
            Some(true) => Some(Some(j)),
            Some(false) => spec_find_renamable(ts, q, root, j + 1),
        }
    }
}

/// The first renamable location that matches.
pub fn find_renamable(ts: &Vec<LsLocation>, q: &TextPositionQuery, root: &str) -> (r: Option<usize>)
    requires
        spec_find_renamable(ls_locations_view(ts@), q@, root@, 0) is Some,
    ensures
        spec_find_renamable(ls_locations_view(ts@), q@, root@, 0) == Some(
            match r {
                Some(j) => Some(j as int),
                None => None::<int>,
            },
        ),
        r matches Some(j) ==> j < ts@.len(),
{
    let ghost v = ls_locations_view(ts@);
    let mut j: usize = 0;
    while j < ts.len()
        invariant
            v == ls_locations_view(ts@),
            j <= ts@.len(),
            spec_find_renamable(v, q@, root@, 0) == spec_find_renamable(v, q@, root@, j as int),
            spec_find_renamable(v, q@, root@, 0) is Some,
        decreases ts@.len() - j,
    {
        assert(v[j as int] == ts@[j as int]@);
        if is_renamable(&ts[j]) && location_matches(&ts[j], q, root) {
            return Some(j);
        }
        j = j + 1;
    }
    None
}

/// The symbol a rename at the queried position renames, and the location
/// the position is in: the first symbol whose Rust location, else one of
/// whose TypeScript locations, is renamable and matches. `None` for the
/// Rust location itself.
pub open spec fn spec_rename_at_from(syms: Seq<LsSymbolModel>, q: QueryModel, root: Seq<char>, i: int) -> Option<Option<(int, Option<int>)>>
    decreases syms.len() - i,
{
    if i < 0 || i >= syms.len() {
        Some(None)
    } else {
        let s = syms[i];
        let rust_hit = if spec_renamable(s.rust) {
            spec_loc_matches(s.rust, q, root)
        } else {
            Some(false)
        };
        match rust_hit {
            None => None,
            Some(true) => Some(Some((i, None))),
            Some(false) => match spec_find_renamable(s.typescript, q, root, 0) {
                None => None,
                Some(Some(j)) => Some(Some((i, Some(j)))),
                Some(None) => spec_rename_at_from(syms, q, root, i + 1),
            },
        }
    }
}

impl LsSymbolGraph {
    /// The symbol a rename at the queried position renames, and which of
    /// its locations the position is in.
    pub fn rename_symbol_at(&self, q: &TextPositionQuery, root: &str) -> (r: Option<(usize, Option<usize>)>)
        requires
            spec_rename_at_from(ls_symbols_view(self.symbols@), q@, root@, 0) is Some,
        ensures
            spec_rename_at_from(ls_symbols_view(self.symbols@), q@, root@, 0) == Some(
                match r {
                    Some((i, j)) => Some((i as int, match j {
                        Some(k) => Some(k as int),
                        None => None::<int>,
                    })),
                    None => None::<(int, Option<int>)>,
                },
            ),
            r matches Some((i, j)) ==> i < self.symbols@.len() && (j matches Some(k) ==> k < self.symbols@[i as int].typescript@.len()),
    {
        let ghost syms = ls_symbols_view(self.symbols@);
        let mut i: usize = 0;
        while i < self.symbols.len()
            invariant
                syms == ls_symbols_view(self.symbols@),
                i <= self.symbols@.len(),
                spec_rename_at_from(syms, q@, root@, 0) == spec_rename_at_from(syms, q@, root@, i as int),
                spec_rename_at_from(syms, q@, root@, 0) is Some,
            decreases self.symbols@.len() - i,
        {
            let s = &self.symbols[i];
            assert(syms[i as int] == s@);
            if is_renamable(&s.rust) && location_matches(&s.rust, q, root) {
                return Some((i, None));
            }
            match find_renamable(&s.typescript, q, root) {
                Some(j) => {
                    return Some((i, Some(j)));
                },
                None => {},
            }
            i = i + 1;
        }
        None
    }
}

/// The text after the last `:` of an id (all of it when it has none).
pub open spec fn spec_after_last_colon(id: Seq<char>) -> Seq<char>
    decreases id.len(),
{
    if id.len() == 0 {
        id
    } else if id.last() == ':' {
        seq![]
    } else {
        spec_after_last_colon(id.drop_last()).push(id.last())
    }
}

/// The name a rename starts from: the configured placeholder, else the
/// last TypeScript path segment, else the last Rust path segment, else
/// the id's last `:`-separated part.
pub open spec fn spec_rename_placeholder(s: LsSymbolModel) -> Seq<char> {
    match s.metadata.rename_placeholder {
        Some(p) => p,
        None => if s.metadata.ts_path.len() > 0 {
            s.metadata.ts_path.last()
        } else if s.metadata.rust_path.len() > 0 {
            s.metadata.rust_path.last()
        } else {
            spec_after_last_colon(s.id)
        },
    }
}

/// The name a rename of a symbol starts from.
pub fn rename_placeholder(s: &LsSymbol) -> (r: String)
    ensures
        r@ == spec_rename_placeholder(s@),
{
    let m = &s.metadata;
    match &m.rename_placeholder {
        Some(p) => return p.clone(),
        None => {},
    }
    if m.ts_path.len() > 0 {
        return m.ts_path[m.ts_path.len() - 1].clone();
    }
    if m.rust_path.len() > 0 {
        return m.rust_path[m.rust_path.len() - 1].clone();
    }
    let chars = chars_of(s.id.as_str());
    let mut start: usize = 0;
    let mut k: usize = 0;
    while k < chars.len()
        invariant
            chars@ == s.id@,
            k <= chars@.len(),
            start <= k,
            chars@.subrange(start as int, k as int) == spec_after_last_colon(chars@.take(k as int)),
        decreases chars@.len() - k,
    {
        proof {
            assert(chars@.take(k + 1).drop_last() =~= chars@.take(k as int));
            assert(chars@.take(k + 1).last() == chars@[k as int]);
        }
        if chars[k] == ':' {
            start = k + 1;
            proof {
                assert(chars@.subrange(start as int, k + 1) =~= Seq::<char>::empty());
            }
        } else {
            proof {
                assert(chars@.subrange(start as int, k + 1) =~= chars@.subrange(start as int, k as int).push(chars@[k as int]));
            }
        }
        k = k + 1;
    }
    proof {
        assert(chars@.take(chars@.len() as int) =~= chars@);
    }
    let mut out = String::new();
    let mut t: usize = start;
    while t < chars.len()
        invariant
            start <= t <= chars@.len(),
            out@ == chars@.subrange(start as int, t as int),
        decreases chars@.len() - t,
    {
        crate::text::push_char(&mut out, chars[t]);
        proof {
            assert(chars@.subrange(start as int, t + 1) =~= chars@.subrange(start as int, t as int).push(chars@[t as int]));
        }
        t = t + 1;
    }
    out
}

/// A prepare-rename answer: the range to rename and the name to start from.
#[derive(Debug, PartialEq, Eq)]
pub struct PrepareRename {
    pub range: GraphRange,
    pub placeholder: String,
}

/// The location of a symbol that a rename target names.
pub open spec fn spec_target_location(s: LsSymbolModel, j: Option<int>) -> LsLocationModel {
    match j {
        Some(k) => s.typescript[k],
        None => s.rust,
    }
}

/// The graph's answer to a prepare-rename request: the matched location's
/// range and the symbol's placeholder.
pub open spec fn spec_prepare_rename(syms: Seq<LsSymbolModel>, q: QueryModel, root: Seq<char>) -> Option<Option<(GraphRange, Seq<char>)>> {
    match spec_rename_at_from(syms, q, root, 0) {
        None => None,
        Some(None) => Some(None),
        Some(Some((i, j))) => Some(Some((spec_target_location(syms[i], j).range, spec_rename_placeholder(syms[i])))),
    }
}

impl LsSymbolGraph {
    /// Answers a prepare-rename request, when the graph knows a renamable
    /// symbol at the queried position.
    pub fn prepare_rename(&self, q: &TextPositionQuery, root: &str) -> (r: Option<PrepareRename>)
        requires
            spec_rename_at_from(ls_symbols_view(self.symbols@), q@, root@, 0) is Some,
        ensures
            spec_prepare_rename(ls_symbols_view(self.symbols@), q@, root@) == Some(
                match r {
                    Some(p) => Some((p.range, p.placeholder@)),
                    None => None::<(GraphRange, Seq<char>)>,
                },
            ),
    {
        match self.rename_symbol_at(q, root) {
            None => None,
            Some((i, j)) => {
                let s = &self.symbols[i];
                proof {
                    assert(ls_symbols_view(self.symbols@)[i as int] == s@);
                }
                let range = match j {
                    Some(k) => {
                        assert(s@.typescript[k as int] == s.typescript@[k as int]@);
                        s.typescript[k].range
                    },
                    None => s.rust.range,
                };
                Some(PrepareRename { range, placeholder: rename_placeholder(s) })
            },
        }
    }
}

/// Whether a character is an ASCII letter.
pub open spec fn is_ascii_alpha(c: char) -> bool {
    ('a' <= c && c <= 'z') || ('A' <= c && c <= 'Z')
}

/// Whether a character may continue an identifier.
pub open spec fn is_ident_continue(c: char) -> bool {
    c == '_' || is_ascii_alpha(c) || ('0' <= c && c <= '9')
}

/// Why a rename target is refused, if it is: it is empty, does not start
/// with a letter or underscore, or holds another character than letters,
/// digits and underscores.
pub open spec fn spec_rename_name_error(name: Seq<char>) -> Option<Seq<char>> {
    if name.len() == 0 {
        Some("rename target cannot be empty"@)
    } else if !(name[0] == '_' || is_ascii_alpha(name[0])) {
        Some("rename target `"@ + name + "` must start with a letter or underscore"@)
    } else if exists|i: int| 1 <= i < name.len() && !is_ident_continue(#[trigger] name[i]) {
        Some("rename target `"@ + name + "` must be a Rust/TypeScript identifier"@)
    } else {
        None
    }
}

/// Checks that a rename target is a Rust and TypeScript identifier.
pub fn validate_rename_name(name: &str) -> (r: Result<(), String>)
    ensures
        match (r, spec_rename_name_error(name@)) {
            (Ok(()), None) => true,
            (Err(e), Some(m)) => e@ == m,
            _ => false,
        },
{
    let chars = chars_of(name);
    if chars.len() == 0 {
        return Err("rename target cannot be empty".to_owned());
    }
    let first = chars[0];
    if !(first == '_' || ('a' <= first && first <= 'z') || ('A' <= first && first <= 'Z')) {
        return Err(concat3("rename target `", name, "` must start with a letter or underscore"));
    }
    let mut i: usize = 1;
    while i < chars.len()
        invariant
            chars@ == name@,
            1 <= i <= chars@.len(),
            chars@[0] == '_' || is_ascii_alpha(chars@[0]),
            forall|k: int| 1 <= k < i ==> is_ident_continue(#[trigger] chars@[k]),
        decreases chars@.len() - i,
    {
        let c = chars[i];
        if !(c == '_' || ('a' <= c && c <= 'z') || ('A' <= c && c <= 'Z') || ('0' <= c && c <= '9')) {
            proof {
                assert(!is_ident_continue(name@[i as int]));
            }
            return Err(concat3("rename target `", name, "` must be a Rust/TypeScript identifier"));
        }
        i = i + 1;
    }
    Ok(())
}

/// The position of the first group keyed by `u`, from `k` on; -1 when
/// none is.
pub open spec fn spec_key_pos<T>(g: Seq<(Seq<char>, Seq<T>)>, u: Seq<char>, k: int) -> int
    decreases g.len() - k,
{
    if k < 0 || k >= g.len() {
        -1
    } else if g[k].0 == u {
        k
    } else {
        spec_key_pos(g, u, k + 1)
    }
}

/// Groups values by key in the order the keys first appear, keeping the
/// order of the values within each group.
pub open spec fn spec_group<T>(pairs: Seq<(Seq<char>, T)>) -> Seq<(Seq<char>, Seq<T>)>
    decreases pairs.len(),
{
    if pairs.len() == 0 {
        seq![]
    } else {
        let g = spec_group(pairs.drop_last());
        let u = pairs.last().0;
        let v = pairs.last().1;
        let k = spec_key_pos(g, u, 0);
        if k >= 0 {
            g.update(k, (u, g[k].1.push(v)))
        } else {
            g.push((u, seq![v]))
        }
    }
}

/// The key position is -1 or a position holding the key.
proof fn lemma_key_pos<T>(g: Seq<(Seq<char>, Seq<T>)>, u: Seq<char>, k: int)
    requires
        0 <= k <= g.len(),
    ensures
        spec_key_pos(g, u, k) == -1 || (k <= spec_key_pos(g, u, k) < g.len() && g[spec_key_pos(g, u, k)].0 == u),
        spec_key_pos(g, u, k) == -1 ==> forall|j: int| k <= j < g.len() ==> g[j].0 != u,
    decreases g.len() - k,
{
    if k < g.len() && g[k].0 != u {
        lemma_key_pos(g, u, k + 1);
    }
}

/// The keyed view of a list of pairs.
pub open spec fn pairs_view<T: View>(v: Seq<(String, T)>) -> Seq<(Seq<char>, T::V)> {
    v.map_values(|p: (String, T)| (p.0@, p.1@))
}

/// The views of a list of values.
pub open spec fn values_view<T: View>(v: Seq<T>) -> Seq<T::V> {
    v.map_values(|x: T| x@)
}

/// The keyed view of a list of groups.
pub open spec fn groups_view<T: View>(v: Seq<(String, Vec<T>)>) -> Seq<(Seq<char>, Seq<T::V>)> {
    v.map_values(|p: (String, Vec<T>)| (p.0@, values_view(p.1@)))
}

/// Groups values by key in the order the keys first appear.
pub fn group_by_key<T: View>(pairs: Vec<(String, T)>) -> (r: Vec<(String, Vec<T>)>)
    ensures
        groups_view(r@) == spec_group(pairs_view(pairs@)),
{
    let ghost all = pairs_view(pairs@);
    let n = pairs.len();
    let mut rest = pairs;
    let mut groups: Vec<(String, Vec<T>)> = Vec::new();
    let mut i: usize = 0;
    proof {
        assert(all.take(0) =~= Seq::<(Seq<char>, T::V)>::empty());
    }
    while i < n
        invariant
            n == all.len(),
            i <= n,
            rest@.len() + i == n,
            pairs_view(rest@) == all.skip(i as int),
            groups_view(groups@) == spec_group(all.take(i as int)),
        decreases n - i,
    {
        let ghost g = groups_view(groups@);
        proof {
            assert(pairs_view(rest@)[0] == all[i as int]);
            assert(all.take(i + 1).drop_last() =~= all.take(i as int));
            assert(all.take(i + 1).last() == all[i as int]);
        }
        let ghost old_rest = rest@;
        let (u, v) = rest.remove(0);
        proof {
            assert(rest@ =~= old_rest.skip(1));
            assert forall|j: int| 0 <= j < rest@.len() implies #[trigger] pairs_view(rest@)[j] == all.skip(i + 1)[j] by {
                assert(pairs_view(old_rest)[j + 1] == all.skip(i as int)[j + 1]);
            }
            assert(pairs_view(rest@) =~= all.skip(i + 1));
        }
        let mut k: usize = 0;
        let mut found = false;
        while k < groups.len() && !found
            invariant
                g == groups_view(groups@),
                k <= groups@.len(),
                found ==> k < groups@.len() && spec_key_pos(g, u@, 0) == k,
                !found ==> spec_key_pos(g, u@, 0) == spec_key_pos(g, u@, k as int),
            decreases groups@.len() - k + (if found { 0int } else { 1int }),
        {
            assert(g[k as int].0 == groups@[k as int].0@);
            if str_eq(groups[k].0.as_str(), u.as_str()) {
                found = true;
            } else {
                k = k + 1;
            }
        }
        proof {
            lemma_key_pos(g, u@, 0);
        }
        if found {
            let ghost key = spec_key_pos(g, u@, 0);
            assert(key == k);
            let (gk, mut gv) = groups.remove(k);
            let ghost gv0 = gv@;
            let ghost vv = v@;
            gv.push(v);
            proof {
                assert(values_view(gv@) =~= values_view(gv0).push(vv));
            }
            groups.insert(k, (gk, gv));
            proof {
                assert(groups_view(groups@) =~= g.update(k as int, (u@, g[k as int].1.push(vv))));
            }
        } else {
            let ghost vv = v@;
            let mut gv: Vec<T> = Vec::new();
            gv.push(v);
            proof {
                assert(values_view(gv@) =~= seq![vv]);
            }
            groups.push((u, gv));
            proof {
                assert(groups_view(groups@) =~= g.push((u@, seq![vv])));
            }
        }
        i = i + 1;
    }
    proof {
        assert(all.take(n as int) =~= all);
    }
    groups
}

/// The renamable locations' URIs and ranges, in order; locations without
/// a URI are left out.
pub open spec fn spec_rename_pairs(locs: Seq<LsLocationModel>, root: Seq<char>) -> Seq<(Seq<char>, GraphRange)>
    decreases locs.len(),
{
    if locs.len() == 0 {
        seq![]
    } else {
        let rest = spec_rename_pairs(locs.drop_last(), root);
        let l = locs.last();
        if spec_renamable(l) {
            match spec_resolved_uri(l, root) {
                Some(u) => rest.push((u, l.range)),
                None => rest,
            }
        } else {
            rest
        }
    }
}

/// The error of a rename onto a name the symbol reserves.
pub open spec fn spec_rename_conflict(name: Seq<char>) -> Seq<char> {
    "rename `"@ + name + "` conflicts with an existing API symbol"@
}

/// The graph's answer to a rename request: `Ok(None)` when it knows no
/// renamable symbol at the position; else an error for an invalid or
/// reserved name; else, per URI in order of first appearance, the ranges
/// of the symbol's renamable Rust and TypeScript locations to replace.
pub open spec fn spec_rename(
    syms: Seq<LsSymbolModel>,
    q: QueryModel,
    root: Seq<char>,
    name: Seq<char>,
) -> Option<Result<Option<Seq<(Seq<char>, Seq<GraphRange>)>>, Seq<char>>> {
    match spec_rename_at_from(syms, q, root, 0) {
        None => None,
        Some(None) => Some(Ok(None)),
        Some(Some((i, _))) => match spec_rename_name_error(name) {
            Some(e) => Some(Err(e)),
            None => if syms[i].metadata.reserved_names.contains(name) {
                Some(Err(spec_rename_conflict(name)))
            } else {
                Some(Ok(Some(spec_group(spec_rename_pairs(seq![syms[i].rust] + syms[i].typescript, root)))))
            },
        },
    }
}

/// The result view of a rename answer.
pub open spec fn rename_view(r: Result<Option<Vec<(String, Vec<GraphRange>)>>, String>) -> Result<Option<Seq<(Seq<char>, Seq<GraphRange>)>>, Seq<char>> {
    match r {
        Ok(Some(g)) => Ok(Some(groups_view(g@))),
        Ok(None) => Ok(None),
        Err(e) => Err(e@),
    }
}

/// Whether a list of strings holds a string.
pub fn contains_string(items: &Vec<String>, s: &str) -> (r: bool)
    ensures
        r == strings_view(items@).contains(s@),
{
    let mut i: usize = 0;
    while i < items.len()
        invariant
            i <= items@.len(),
            forall|j: int| 0 <= j < i ==> items@[j]@ != s@,
        decreases items@.len() - i,
    {
        if str_eq(items[i].as_str(), s) {
            proof {
                assert(strings_view(items@)[i as int] == s@);
            }
            return true;
        }
        i = i + 1;
    }
    proof {
        if strings_view(items@).contains(s@) {
            let j = choose|j: int| 0 <= j < strings_view(items@).len() && strings_view(items@)[j] == s@;
            assert(items@[j]@ == s@);
        }
    }
    false
}

/// The URIs and ranges of the renamable locations of a symbol.
fn rename_pairs(s: &LsSymbol, root: &str) -> (r: Vec<(String, GraphRange)>)
    ensures
        pairs_view(r@) == spec_rename_pairs(seq![s@.rust] + s@.typescript, root@),
{
    let ghost locs = seq![s@.rust] + s@.typescript;
    let mut out: Vec<(String, GraphRange)> = Vec::new();
    proof {
        assert(locs.take(0) =~= Seq::<LsLocationModel>::empty());
        assert(locs.take(1).drop_last() =~= locs.take(0));
        assert(locs.take(1).last() == s.rust@);
    }
    if is_renamable(&s.rust) {
        match resolved_uri(&s.rust, root) {
            Some(u) => {
                out.push((u, s.rust.range));
                proof {
                    assert(pairs_view(out@) =~= seq![(u@, s.rust.range)]);
                }
            },
            None => {},
        }
    }
    proof {
        assert(spec_rename_pairs(locs.take(0), root@) =~= Seq::<(Seq<char>, GraphRange)>::empty());
        assert(pairs_view(out@) =~= spec_rename_pairs(locs.take(1), root@));
    }
    let mut j: usize = 0;
    while j < s.typescript.len()
        invariant
            locs == seq![s@.rust] + s@.typescript,
            j <= s.typescript@.len(),
            pairs_view(out@) == spec_rename_pairs(locs.take(j + 1), root@),
        decreases s.typescript@.len() - j,
    {
        proof {
            assert(locs.take(j + 2).drop_last() =~= locs.take(j + 1));
            assert(locs.take(j + 2).last() == s.typescript@[j as int]@);
        }
        let l = &s.typescript[j];
        if is_renamable(l) {
            match resolved_uri(l, root) {
                Some(u) => {
                    let ghost before = pairs_view(out@);
                    out.push((u, l.range));
                    proof {
                        assert(pairs_view(out@) =~= before.push((u@, l.range)));
                    }
                },
                None => {},
            }
        }
        j = j + 1;
    }
    proof {
        assert(locs.take(s.typescript@.len() as int + 1) =~= locs);
    }
    out
}

impl LsSymbolGraph {
    /// Answers a rename request across languages.
    pub fn rename(&self, q: &TextPositionQuery, name: &str, root: &str) -> (r: Result<Option<Vec<(String, Vec<GraphRange>)>>, String>)
        requires
            spec_rename_at_from(ls_symbols_view(self.symbols@), q@, root@, 0) is Some,
        ensures
            spec_rename(ls_symbols_view(self.symbols@), q@, root@, name@) == Some(rename_view(r)),
    {
        match self.rename_symbol_at(q, root) {
            None => Ok(None),
            Some((i, _)) => {
                let s = &self.symbols[i];
                proof {
                    assert(ls_symbols_view(self.symbols@)[i as int] == s@);
                }
                match validate_rename_name(name) {
                    Err(e) => return Err(e),
                    Ok(()) => {},
                }
                if contains_string(&s.metadata.reserved_names, name) {
                    return Err(concat3("rename `", name, "` conflicts with an existing API symbol"));
                }
                let pairs = rename_pairs(s, root);
                Ok(Some(group_by_key(pairs)))
            },
        }
    }
}

/// Grouping keeps one group per key: the keys of the groups are pairwise
/// distinct.
pub proof fn lemma_group_keys_distinct<T>(pairs: Seq<(Seq<char>, T)>)
    ensures
        forall|i: int, j: int| 0 <= i < j < spec_group(pairs).len() ==> #[trigger] spec_group(pairs)[i].0 != #[trigger] spec_group(pairs)[j].0,
    decreases pairs.len(),
{
    if pairs.len() > 0 {
        let g = spec_group(pairs.drop_last());
        let u = pairs.last().0;
        lemma_group_keys_distinct(pairs.drop_last());
        lemma_key_pos(g, u, 0);
        let k = spec_key_pos(g, u, 0);
        let r = spec_group(pairs);
        if k >= 0 {
            assert forall|i: int, j: int| 0 <= i < j < r.len() implies #[trigger] r[i].0 != #[trigger] r[j].0 by {
                assert(r[i].0 == g[i].0);
                assert(r[j].0 == g[j].0);
            }
        } else {
            assert forall|i: int, j: int| 0 <= i < j < r.len() implies #[trigger] r[i].0 != #[trigger] r[j].0 by {
                if j < g.len() {
                    assert(r[i].0 == g[i].0);
                    assert(r[j].0 == g[j].0);
                } else {
                    assert(r[j].0 == u);
                    assert(r[i].0 == g[i].0);
                }
            }
        }
    }
}

/// Whether a location is the queried document and holds the queried
/// position; `None` where comparing the URIs would read an escape across a
/// character boundary.
pub fn location_match_checked(l: &LsLocation, q: &TextPositionQuery, root: &str) -> (r: Option<bool>)
    ensures
        r == spec_loc_matches(l@, q@, root@),
{
    match resolved_uri(l, root) {
        None => Some(false),
        Some(u) => if uri_is_decodable(u.as_str()) && uri_is_decodable(q.uri.as_str()) {
            Some(same_uri(u.as_str(), q.uri.as_str()) && range_contains(l.range, q.position))
        } else {
            None
        },
    }
}

/// [`spec_any_match`], or `None` where a URI cannot be compared.
fn any_match_checked(ts: &Vec<LsLocation>, q: &TextPositionQuery, root: &str) -> (r: Option<bool>)
    ensures
        r == spec_any_match(ls_locations_view(ts@), q@, root@, 0),
{
    let ghost v = ls_locations_view(ts@);
    let mut j: usize = 0;
    while j < ts.len()
        invariant
            v == ls_locations_view(ts@),
            j <= ts@.len(),
            spec_any_match(v, q@, root@, 0) == spec_any_match(v, q@, root@, j as int),
        decreases ts@.len() - j,
    {
        assert(v[j as int] == ts@[j as int]@);
        match location_match_checked(&ts[j], q, root) {
            None => return None,
            Some(true) => return Some(true),
            Some(false) => {},
        }
        j = j + 1;
    }
    Some(false)
}

/// Whether [`spec_find_match`] is defined: no URI it compares is
/// undecodable.
fn find_match_defined(ts: &Vec<LsLocation>, q: &TextPositionQuery, root: &str) -> (r: bool)
    ensures
        r == (spec_find_match(ls_locations_view(ts@), q@, root@, 0) is Some),
{
    let ghost v = ls_locations_view(ts@);
    let mut j: usize = 0;
    while j < ts.len()
        invariant
            v == ls_locations_view(ts@),
            j <= ts@.len(),
            spec_find_match(v, q@, root@, 0) == spec_find_match(v, q@, root@, j as int),
        decreases ts@.len() - j,
    {
        assert(v[j as int] == ts@[j as int]@);
        match location_match_checked(&ts[j], q, root) {
            None => return false,
            Some(true) => return true,
            Some(false) => {},
        }
        j = j + 1;
    }
    true
}

/// Whether [`spec_find_renamable`] is defined.
fn find_renamable_defined(ts: &Vec<LsLocation>, q: &TextPositionQuery, root: &str) -> (r: bool)
    ensures
        r == (spec_find_renamable(ls_locations_view(ts@), q@, root@, 0) is Some),
{
    let ghost v = ls_locations_view(ts@);
    let mut j: usize = 0;
    while j < ts.len()
        invariant
            v == ls_locations_view(ts@),
            j <= ts@.len(),
            spec_find_renamable(v, q@, root@, 0) == spec_find_renamable(v, q@, root@, j as int),
        decreases ts@.len() - j,
    {
        assert(v[j as int] == ts@[j as int]@);
        if is_renamable(&ts[j]) {
            match location_match_checked(&ts[j], q, root) {
                None => return false,
                Some(true) => return true,
                Some(false) => {},
            }
        }
        j = j + 1;
    }
    true
}

impl LsSymbolGraph {
    /// Whether a definition request can be answered: no URI the scan
    /// compares reads an escape across a character boundary.
    pub fn definition_defined(&self, q: &TextPositionQuery, root: &str) -> (r: bool)
        ensures
            r == (spec_definition_from(ls_symbols_view(self.symbols@), q@, root@, 0) is Some),
    {
        let ghost syms = ls_symbols_view(self.symbols@);
        let mut i: usize = 0;
        while i < self.symbols.len()
            invariant
                syms == ls_symbols_view(self.symbols@),
                i <= self.symbols@.len(),
                spec_definition_from(syms, q@, root@, 0) == spec_definition_from(syms, q@, root@, i as int),
            decreases self.symbols@.len() - i,
        {
            let s = &self.symbols[i];
            assert(syms[i as int] == s@);
            match location_match_checked(&s.rust, q, root) {
                None => return false,
                Some(m) => {
                    if m {
                        let mut locations: Vec<LspLocation> = Vec::new();
                        push_visible(&mut locations, &s.typescript, root);
                        proof {
                            assert(lsp_locations_view(locations@) =~= spec_visible(s.typescript@.map_values(|l: LsLocation| l@), root@));
                        }
                        if locations.len() > 0 {
                            return true;
                        }
                    }
                },
            }
            match any_match_checked(&s.typescript, q, root) {
                None => return false,
                Some(true) => return true,
                Some(false) => {},
            }
            i = i + 1;
        }
        true
    }

    /// Whether a references request can be answered (see
    /// [`Self::definition_defined`]).
    pub fn references_defined(&self, q: &TextPositionQuery, root: &str) -> (r: bool)
        ensures
            r == (spec_references_from(ls_symbols_view(self.symbols@), q@, root@, 0) is Some),
    {
        let ghost syms = ls_symbols_view(self.symbols@);
        let mut i: usize = 0;
        while i < self.symbols.len()
            invariant
                syms == ls_symbols_view(self.symbols@),
                i <= self.symbols@.len(),
                spec_references_from(syms, q@, root@, 0) == spec_references_from(syms, q@, root@, i as int),
            decreases self.symbols@.len() - i,
        {
            let s = &self.symbols[i];
            assert(syms[i as int] == s@);
            match (location_match_checked(&s.rust, q, root), any_match_checked(&s.typescript, q, root)) {
                (Some(rm), Some(tm)) => if rm || tm {
                    return true;
                },
                _ => return false,
            }
            i = i + 1;
        }
        true
    }

    /// Whether a hover request can be answered (see
    /// [`Self::definition_defined`]).
    pub fn hover_defined(&self, q: &TextPositionQuery, root: &str) -> (r: bool)
        ensures
            r == (spec_hover_from(ls_symbols_view(self.symbols@), q@, root@, 0) is Some),
    {
        let ghost syms = ls_symbols_view(self.symbols@);
        let mut i: usize = 0;
        while i < self.symbols.len()
            invariant
                syms == ls_symbols_view(self.symbols@),
                i <= self.symbols@.len(),
                spec_hover_from(syms, q@, root@, 0) == spec_hover_from(syms, q@, root@, i as int),
            decreases self.symbols@.len() - i,
        {
            let s = &self.symbols[i];
            assert(syms[i as int] == s@);
            match location_match_checked(&s.rust, q, root) {
                None => return false,
                Some(true) => return true,
                Some(false) => {},
            }
            if !find_match_defined(&s.typescript, q, root) {
                return false;
            }
            match find_match(&s.typescript, q, root) {
                Some(_) => return true,
                None => {},
            }
            i = i + 1;
        }
        true
    }

    /// Whether a rename or prepare-rename request can be answered (see
    /// [`Self::definition_defined`]).
    pub fn rename_defined(&self, q: &TextPositionQuery, root: &str) -> (r: bool)
        ensures
            r == (spec_rename_at_from(ls_symbols_view(self.symbols@), q@, root@, 0) is Some),
    {
        let ghost syms = ls_symbols_view(self.symbols@);
        let mut i: usize = 0;
        while i < self.symbols.len()
            invariant
                syms == ls_symbols_view(self.symbols@),
                i <= self.symbols@.len(),
                spec_rename_at_from(syms, q@, root@, 0) == spec_rename_at_from(syms, q@, root@, i as int),
            decreases self.symbols@.len() - i,
        {
            let s = &self.symbols[i];
            assert(syms[i as int] == s@);
            if is_renamable(&s.rust) {
                match location_match_checked(&s.rust, q, root) {
                    None => return false,
                    Some(true) => return true,
                    Some(false) => {},
                }
            }
            if !find_renamable_defined(&s.typescript, q, root) {
                return false;
            }
            match find_renamable(&s.typescript, q, root) {
                Some(_) => return true,
                None => {},
            }
            i = i + 1;
        }
        true
    }
}

} // verus!
