//! Endpoint usage indexing: the references that a semantic scan of
//! TypeScript sources reports, classified with Effect diagnostics, the
//! import-only usages found line by line, and per-endpoint counters.

use vstd::prelude::*;
use vstd::string::StringSliceAdditionalSpecFns;
use crate::gen::endpoints::{
    endpoint_function_name, endpoint_namespace, spec_function_name, spec_namespace,
};
use crate::gen::text::{is_ascii_alpha, is_ascii_digit};
use crate::ir::{
    ApiContract, ApiContractModel, Endpoint, EndpointModel, endpoints_view, SourceRange, SourceRangeModel, SymbolId, FNV_OFFSET_BASIS, fnv1a,
    spec_fnv1a, strings_view,
};
use crate::scan::{
    contains_str, lines, spec_find, spec_lines, spec_split, spec_split_once, spec_starts_with,
    spec_trim, split_char, split_once, starts_with, trim,
};
use crate::order::{seq_lt, sort_by, spec_sort, str_eq, str_lt};
use crate::text::{hex_fixed, push_hex, push_str};

verus! {

/// The version of the persisted usage index format.
pub const EFFECT_USAGE_INDEX_SCHEMA_VERSION: u32 = 2;

/// A stable content hash: FNV-1a over the bytes, in fixed-width hex.
pub open spec fn spec_stable_hash(bytes: Seq<u8>) -> Seq<char> {
    "fnv1a64:"@ + hex_fixed(spec_fnv1a(FNV_OFFSET_BASIS, bytes) as nat, 16)
}

/// Hashes bytes to `fnv1a64:` followed by sixteen lower-case hex digits.
pub fn stable_hash(bytes: &[u8]) -> (r: String)
    ensures
        r@ == spec_stable_hash(bytes@),
{
    let hash = fnv1a(FNV_OFFSET_BASIS, bytes);
    let mut out = "fnv1a64:".to_owned();
    push_hex(&mut out, hash, 16);
    out
}

/// TypeScript source file scanned for generated Effect endpoint usages.
#[derive(Debug, PartialEq, Eq)]
pub struct TypeScriptSourceFile {
    pub path: String,
    pub contents: String,
}

/// Source file digest included in a persisted TypeScript usage index.
#[derive(Debug, PartialEq, Eq)]
pub struct TypeScriptSourceSummary {
    pub path: String,
    pub hash: String,
}

/// The path and hash of a source summary.
pub open spec fn summary_view(s: TypeScriptSourceSummary) -> (Seq<char>, Seq<char>) {
    (s.path@, s.hash@)
}

/// The paths and hashes of a list of source summaries.
pub open spec fn summaries_view(v: Seq<TypeScriptSourceSummary>) -> Seq<(Seq<char>, Seq<char>)> {
    v.map_values(|s: TypeScriptSourceSummary| summary_view(s))
}

/// Summaries are ordered by path.
pub open spec fn summary_order() -> spec_fn((Seq<char>, Seq<char>), (Seq<char>, Seq<char>)) -> bool {
    |a: (Seq<char>, Seq<char>), b: (Seq<char>, Seq<char>)| seq_lt(a.0, b.0)
}

/// The path and content hash of each file, in path order.
pub open spec fn spec_source_summaries(files: Seq<TypeScriptSourceFile>) -> Seq<(Seq<char>, Seq<char>)> {
    spec_sort(
        files.map_values(
            |f: TypeScriptSourceFile| (f.path@, spec_stable_hash(vstd::utf8::encode_utf8(f.contents@))),
        ),
        summary_order(),
    )
}

/// The path and content hash of each file, in path order.
pub fn source_file_summaries(files: &Vec<TypeScriptSourceFile>) -> (r: Vec<TypeScriptSourceSummary>)
    ensures
        summaries_view(r@) == spec_source_summaries(files@),
{
    let mut summaries: Vec<TypeScriptSourceSummary> = Vec::new();
    for i in 0..files.len()
        invariant
            summaries@.len() == i,
            forall|j: int| 0 <= j < i ==> #[trigger] summary_view(summaries@[j]) == (
                files@[j].path@,
                spec_stable_hash(vstd::utf8::encode_utf8(files@[j].contents@)),
            ),
    {
        let file = &files[i];
        summaries.push(
            TypeScriptSourceSummary {
                path: file.path.clone(),
                hash: stable_hash(file.contents.as_str().as_bytes()),
            },
        );
    }
    let ghost slt = |a: TypeScriptSourceSummary, b: TypeScriptSourceSummary| seq_lt(a.path@, b.path@);
    let lt = |a: &TypeScriptSourceSummary, b: &TypeScriptSourceSummary| -> (o: bool)
        ensures
            o == seq_lt(a.path@, b.path@),
        { str_lt(a.path.as_str(), b.path.as_str()) };
    let ghost before = summaries@;
    let sorted = sort_by(summaries, lt, Ghost(slt));
    proof {
        let f = |s: TypeScriptSourceSummary| summary_view(s);
        crate::order::lemma_sort_map(before, f, slt, summary_order());
        assert(before.map_values(f) =~= files@.map_values(
            |f: TypeScriptSourceFile| (f.path@, spec_stable_hash(vstd::utf8::encode_utf8(f.contents@))),
        ));
        assert(sorted@.map_values(f) =~= summaries_view(sorted@));
    }
    sorted
}

/// The bytes hashed for a TypeScript program: each path and hash followed
/// by a zero byte.
pub open spec fn spec_program_bytes(sources: Seq<(Seq<char>, Seq<char>)>) -> Seq<u8>
    decreases sources.len(),
{
    if sources.len() == 0 {
        Seq::empty()
    } else {
        let s = sources.last();
        spec_program_bytes(sources.drop_last()) + vstd::utf8::encode_utf8(s.0) + seq![0u8]
            + vstd::utf8::encode_utf8(s.1) + seq![0u8]
    }
}

/// The hash of a TypeScript program: of each source path and hash, in order.
pub fn hash_ts_program(sources: &Vec<TypeScriptSourceSummary>) -> (r: String)
    ensures
        r@ == spec_stable_hash(spec_program_bytes(summaries_view(sources@))),
{
    let ghost ss = summaries_view(sources@);
    let mut bytes: Vec<u8> = Vec::new();
    for i in 0..sources.len()
        invariant
            ss == summaries_view(sources@),
            bytes@ == spec_program_bytes(ss.take(i as int)),
    {
        assert(ss.take(i + 1).drop_last() =~= ss.take(i as int));
        let path = sources[i].path.as_str().as_bytes();
        for j in 0..path.len()
            invariant
                bytes@ == spec_program_bytes(ss.take(i as int)) + path@.take(j as int),
        {
            bytes.push(path[j]);
            assert(path@.take(j + 1) =~= path@.take(j as int).push(path@[j as int]));
        }
        assert(path@.take(path@.len() as int) =~= path@);
        bytes.push(0u8);
        let ghost mid = bytes@;
        let hash = sources[i].hash.as_str().as_bytes();
        for j in 0..hash.len()
            invariant
                bytes@ == mid + hash@.take(j as int),
        {
            bytes.push(hash[j]);
            assert(hash@.take(j + 1) =~= hash@.take(j as int).push(hash@[j as int]));
        }
        assert(hash@.take(hash@.len() as int) =~= hash@);
        bytes.push(0u8);
        assert(bytes@ =~= spec_program_bytes(ss.take(i + 1)));
    }
    assert(ss.take(sources@.len() as int) =~= ss);
    stable_hash(bytes.as_slice())
}

/// Effect language-service diagnostic associated with a usage, when
/// available.
#[derive(Debug, PartialEq, Eq)]
pub struct EffectUsageDiagnostic {
    pub code: Option<String>,
    pub message: String,
    pub source: SourceRange,
}

/// Model of an [`EffectUsageDiagnostic`].
pub struct DiagnosticModel {
    pub code: Option<Seq<char>>,
    pub message: Seq<char>,
    pub source: SourceRangeModel,
}

impl View for EffectUsageDiagnostic {
    type V = DiagnosticModel;

    open spec fn view(&self) -> DiagnosticModel {
        DiagnosticModel {
            code: match self.code {
                Some(c) => Some(c@),
                None => None,
            },
            message: self.message@,
            source: self.source@,
        }
    }
}

impl Clone for EffectUsageDiagnostic {
    fn clone(&self) -> (r: Self)
        ensures
            r@ == self@,
    {
        let code = match &self.code {
            Some(c) => Some(c.clone()),
            None => None,
        };
        EffectUsageDiagnostic { code, message: self.message.clone(), source: self.source.clone() }
    }
}

/// The models of a list of diagnostics.
pub open spec fn diags_view(v: Seq<EffectUsageDiagnostic>) -> Seq<DiagnosticModel> {
    v.map_values(|d: EffectUsageDiagnostic| d@)
}

/// Clones a list of diagnostics.
pub fn clone_diagnostics(v: &Vec<EffectUsageDiagnostic>) -> (r: Vec<EffectUsageDiagnostic>)
    ensures
        diags_view(r@) == diags_view(v@),
{
    let mut out: Vec<EffectUsageDiagnostic> = Vec::new();
    for i in 0..v.len()
        invariant
            out@.len() == i,
            forall|j: int| 0 <= j < i ==> #[trigger] out@[j]@ == v@[j]@,
    {
        out.push(v[i].clone());
    }
    assert(diags_view(out@) =~= diags_view(v@));
    out
}

/// Configurable diagnostic-code handling for Effect-aware usage
/// classification: codes that make a usage invalid, and codes that make it
/// unknown.
#[derive(Debug, Default, PartialEq, Eq)]
pub struct EffectUsageDiagnosticCodeRules {
    pub invalid: Vec<String>,
    pub unknown: Vec<String>,
}

/// Options for semantic TypeScript/Effect usage scanning.
#[derive(Debug, Default, PartialEq, Eq)]
pub struct EffectUsageScanConfig {
    pub diagnostic_codes: EffectUsageDiagnosticCodeRules,
}

/// Usage strength used by unused endpoint lints.
#[derive(Clone, Copy, Debug, PartialEq, Eq, Structural)]
pub enum UsageStrength {
    Strong,
    Weak,
    Invalid,
    Unknown,
}

/// Read/write shape of a generated API field reference.
#[derive(Clone, Copy, Debug, PartialEq, Eq, Structural)]
pub enum FieldUsageAccess {
    Read,
    Write,
}

/// The diagnostics that cover a usage: same file, and a line span that
/// contains the usage's lines.
pub open spec fn spec_covers(d: DiagnosticModel, file: Seq<char>, source: SourceRangeModel) -> bool {
    d.source.file == file && d.source.start_line <= source.start_line && d.source.end_line
        >= source.end_line
}

/// The diagnostics of `all` that cover a usage, in order.
pub open spec fn spec_diagnostics_for(
    all: Seq<DiagnosticModel>,
    file: Seq<char>,
    source: SourceRangeModel,
) -> Seq<DiagnosticModel>
    decreases all.len(),
{
    if all.len() == 0 {
        Seq::empty()
    } else {
        let prev = spec_diagnostics_for(all.drop_last(), file, source);
        if spec_covers(all.last(), file, source) {
            prev.push(all.last())
        } else {
            prev
        }
    }
}

/// The diagnostics that cover a usage in `file` at `source`.
pub fn diagnostics_for_usage(
    diagnostics: &Vec<EffectUsageDiagnostic>,
    file: &str,
    source: &SourceRange,
) -> (r: Vec<EffectUsageDiagnostic>)
    ensures
        diags_view(r@) == spec_diagnostics_for(diags_view(diagnostics@), file@, source@),
{
    let ghost all = diags_view(diagnostics@);
    let mut out: Vec<EffectUsageDiagnostic> = Vec::new();
    for i in 0..diagnostics.len()
        invariant
            all == diags_view(diagnostics@),
            diags_view(out@) == spec_diagnostics_for(all.take(i as int), file@, source@),
    {
        let d = &diagnostics[i];
        let ghost before = diags_view(out@);
        assert(all.take(i + 1).drop_last() =~= all.take(i as int));
        assert(all.take(i + 1).last() == all[i as int]);
        if str_eq(d.source.file.as_str(), file) && d.source.start_line <= source.start_line
            && d.source.end_line >= source.end_line {
            out.push(d.clone());
            assert(diags_view(out@) =~= before.push(d@));
        }
    }
    assert(all.take(diagnostics@.len() as int) =~= all);
    out
}

/// Whether a diagnostic's code is one of `codes`.
pub open spec fn spec_code_matches(d: DiagnosticModel, codes: Seq<Seq<char>>) -> bool {
    match d.code {
        Some(c) => codes.contains(c),
        None => false,
    }
}

/// Whether a diagnostic's code is one of `codes`.
pub fn diagnostic_code_matches(diagnostic: &EffectUsageDiagnostic, codes: &Vec<String>) -> (r: bool)
    ensures
        r == spec_code_matches(diagnostic@, strings_view(codes@)),
{
    match &diagnostic.code {
        None => false,
        Some(code) => crate::collector::contains_str(codes, code.as_str()),
    }
}

/// The reason given when a diagnostic reclassifies a usage.
pub open spec fn spec_override_reason(classification: Seq<char>, d: DiagnosticModel) -> Seq<char> {
    match d.code {
        Some(c) => "Effect diagnostic "@ + c + " marks endpoint usage "@ + classification + ": "@
            + d.message,
        None => "Effect diagnostic marks endpoint usage "@ + classification + ": "@ + d.message,
    }
}

/// The reason given when a diagnostic reclassifies a usage.
pub fn diagnostic_override_reason(classification: &str, diagnostic: &EffectUsageDiagnostic) -> (r: String)
    ensures
        r@ == spec_override_reason(classification@, diagnostic@),
{
    let mut out = String::new();
    match &diagnostic.code {
        Some(code) => {
            push_str(&mut out, "Effect diagnostic ");
            push_str(&mut out, code.as_str());
            push_str(&mut out, " marks endpoint usage ");
        },
        None => {
            push_str(&mut out, "Effect diagnostic marks endpoint usage ");
        },
    }
    push_str(&mut out, classification);
    push_str(&mut out, ": ");
    push_str(&mut out, diagnostic.message.as_str());
    out
}

/// The first diagnostic of `ds` whose code is one of `codes`.
pub open spec fn spec_first_match(ds: Seq<DiagnosticModel>, codes: Seq<Seq<char>>) -> Option<DiagnosticModel>
    decreases ds.len(),
{
    if ds.len() == 0 {
        None
    } else if spec_code_matches(ds[0], codes) {
        Some(ds[0])
    } else {
        spec_first_match(ds.drop_first(), codes)
    }
}

fn first_match(ds: &Vec<EffectUsageDiagnostic>, codes: &Vec<String>) -> (r: Option<usize>)
    ensures
        match spec_first_match(diags_view(ds@), strings_view(codes@)) {
            Some(d) => r matches Some(i) && i < ds@.len() && ds@[i as int]@ == d,
            None => r is None,
        },
{
    let ghost all = diags_view(ds@);
    assert(all.skip(0) =~= all);
    for i in 0..ds.len()
        invariant
            all == diags_view(ds@),
            spec_first_match(all, strings_view(codes@)) == spec_first_match(
                all.skip(i as int),
                strings_view(codes@),
            ),
    {
        assert(all.skip(i as int)[0] == all[i as int]);
        assert(all.skip(i as int).drop_first() =~= all.skip(i + 1));
        if diagnostic_code_matches(&ds[i], codes) {
            return Some(i);
        }
    }
    assert(all.skip(ds@.len() as int) =~= Seq::<DiagnosticModel>::empty());
    None
}

/// The classification of a usage after its diagnostics: the first one with
/// an invalid code makes it invalid, else the first one with an unknown code
/// makes it unknown, else it stays as the scan classified it.
pub open spec fn spec_classify(
    strength: UsageStrength,
    reason: Seq<char>,
    ds: Seq<DiagnosticModel>,
    invalid: Seq<Seq<char>>,
    unknown: Seq<Seq<char>>,
) -> (UsageStrength, Seq<char>) {
    match spec_first_match(ds, invalid) {
        Some(d) => (UsageStrength::Invalid, spec_override_reason("invalid"@, d)),
        None => match spec_first_match(ds, unknown) {
            Some(d) => (UsageStrength::Unknown, spec_override_reason("unknown"@, d)),
            None => (strength, reason),
        },
    }
}

/// Reclassifies a usage by its diagnostics' codes.
pub fn diagnostic_classification_override(
    strength: UsageStrength,
    reason: String,
    diagnostics: &Vec<EffectUsageDiagnostic>,
    rules: &EffectUsageDiagnosticCodeRules,
) -> (r: (UsageStrength, String))
    ensures
        (r.0, r.1@) == spec_classify(
            strength,
            reason@,
            diags_view(diagnostics@),
            strings_view(rules.invalid@),
            strings_view(rules.unknown@),
        ),
{
    match first_match(diagnostics, &rules.invalid) {
        Some(i) => (UsageStrength::Invalid, diagnostic_override_reason("invalid", &diagnostics[i])),
        None => match first_match(diagnostics, &rules.unknown) {
            Some(i) => (UsageStrength::Unknown, diagnostic_override_reason("unknown", &diagnostics[i])),
            None => (strength, reason),
        },
    }
}

/// The source range of a usage found on `line`, starting at byte `column`
/// and `width` bytes wide; columns are one-based and saturate at `u32::MAX`.
pub open spec fn spec_usage_range(file: Seq<char>, line: u32, column: int, width: int) -> SourceRangeModel {
    SourceRangeModel {
        file,
        start_line: line,
        start_column: if column + 1 > u32::MAX {
            u32::MAX
        } else {
            (column + 1) as u32
        },
        end_line: line,
        end_column: if column + width + 1 > u32::MAX {
            u32::MAX
        } else {
            (column + width + 1) as u32
        },
        full_range: None,
    }
}

/// The source range of a usage found on `line` at byte `column`.
pub fn usage_source_range(file: &str, line: u32, column: usize, width: usize) -> (r: SourceRange)
    ensures
        r@ == spec_usage_range(file@, line, column as int, width as int),
{
    let start = column.saturating_add(1);
    let end = column.saturating_add(width).saturating_add(1);
    let start_column: u32 = if start > 4294967295usize {
        4294967295u32
    } else {
        start as u32
    };
    let end_column: u32 = if end > 4294967295usize {
        4294967295u32
    } else {
        end as u32
    };
    SourceRange {
        file: file.to_owned(),
        start_line: line,
        start_column,
        end_line: line,
        end_column,
        full_range: None,
    }
}

/// One generated endpoint accessor reference found in TypeScript.
#[derive(Debug, PartialEq, Eq)]
pub struct EndpointUsage {
    pub endpoint_id: SymbolId,
    pub accessor_path: Vec<String>,
    pub file: String,
    pub source: SourceRange,
    pub strength: UsageStrength,
    pub reason: String,
    pub diagnostics: Vec<EffectUsageDiagnostic>,
}

/// Model of an [`EndpointUsage`].
pub struct UsageModel {
    pub endpoint_id: Seq<char>,
    pub accessor_path: Seq<Seq<char>>,
    pub file: Seq<char>,
    pub source: SourceRangeModel,
    pub strength: UsageStrength,
    pub reason: Seq<char>,
    pub diagnostics: Seq<DiagnosticModel>,
}

impl View for EndpointUsage {
    type V = UsageModel;

    open spec fn view(&self) -> UsageModel {
        UsageModel {
            endpoint_id: self.endpoint_id@,
            accessor_path: strings_view(self.accessor_path@),
            file: self.file@,
            source: self.source@,
            strength: self.strength,
            reason: self.reason@,
            diagnostics: diags_view(self.diagnostics@),
        }
    }
}

/// The models of a list of usages.
pub open spec fn usages_view(v: Seq<EndpointUsage>) -> Seq<UsageModel> {
    v.map_values(|u: EndpointUsage| u@)
}

/// One generated error symbol reference found in TypeScript.
#[derive(Debug, PartialEq, Eq)]
pub struct ErrorUsage {
    pub symbol_id: SymbolId,
    pub file: String,
    pub source: SourceRange,
    pub reason: String,
    pub diagnostics: Vec<EffectUsageDiagnostic>,
}

/// One generated field reference found in TypeScript.
#[derive(Debug, PartialEq, Eq)]
pub struct FieldUsage {
    pub field_id: SymbolId,
    pub file: String,
    pub source: SourceRange,
    pub access: FieldUsageAccess,
    pub reason: String,
    pub diagnostics: Vec<EffectUsageDiagnostic>,
}

/// An endpoint reference reported by the semantic TypeScript scan.
#[derive(Debug, PartialEq, Eq)]
pub struct SemanticEndpointReference {
    pub endpoint_id: SymbolId,
    pub accessor_path: Vec<String>,
    pub file: String,
    pub source: SourceRange,
    pub strength: UsageStrength,
    pub reason: String,
}

/// An error symbol reference reported by the semantic TypeScript scan.
#[derive(Debug, PartialEq, Eq)]
pub struct SemanticErrorReference {
    pub symbol_id: SymbolId,
    pub file: String,
    pub source: SourceRange,
    pub reason: String,
}

/// A field reference reported by the semantic TypeScript scan.
#[derive(Debug, PartialEq, Eq)]
pub struct SemanticFieldReference {
    pub field_id: SymbolId,
    pub file: String,
    pub source: SourceRange,
    pub access: FieldUsageAccess,
    pub reason: String,
}

/// What the semantic TypeScript scan reports about a set of sources.
#[derive(Debug, Default, PartialEq, Eq)]
pub struct SemanticScannerOutput {
    pub references: Vec<SemanticEndpointReference>,
    pub error_references: Vec<SemanticErrorReference>,
    pub field_references: Vec<SemanticFieldReference>,
    pub diagnostics: Vec<EffectUsageDiagnostic>,
}

/// An endpoint as TypeScript code reaches it: its id, accessor path and
/// namespace, with the shapes the semantic scan needs.
#[derive(Debug)]
pub struct EndpointAccessor {
    pub endpoint_id: SymbolId,
    pub accessor_path: Vec<String>,
    pub namespace: String,
    pub transport: crate::ir::Transport,
    pub request: crate::ir::RequestShape,
    pub response: crate::ir::ResponseShape,
    pub errors: Vec<crate::ir::ErrorRef>,
}

/// The id, accessor path and namespace of an accessor.
pub struct AccessorModel {
    pub endpoint_id: Seq<char>,
    pub accessor_path: Seq<Seq<char>>,
    pub namespace: Seq<char>,
}

impl View for EndpointAccessor {
    type V = AccessorModel;

    open spec fn view(&self) -> AccessorModel {
        AccessorModel {
            endpoint_id: self.endpoint_id@,
            accessor_path: strings_view(self.accessor_path@),
            namespace: self.namespace@,
        }
    }
}

/// The accessor of an endpoint: `namespace.function`.
pub open spec fn spec_accessor(e: EndpointModel) -> AccessorModel {
    AccessorModel {
        endpoint_id: e.id,
        accessor_path: seq![spec_namespace(e), spec_function_name(e)],
        namespace: spec_namespace(e),
    }
}

impl EndpointAccessor {
    /// The accessor through which TypeScript code reaches `endpoint`.
    pub fn from_endpoint(endpoint: &Endpoint) -> (r: Self)
        ensures
            r@ == spec_accessor(endpoint@),
            r.transport == endpoint.transport,
            r.request@ == endpoint.request@,
            r.response@ == endpoint.response@,
            crate::ir::error_refs_view(r.errors@) == crate::ir::error_refs_view(endpoint.errors@),
    {
        let namespace = endpoint_namespace(endpoint);
        let function_name = endpoint_function_name(endpoint);
        let mut accessor_path: Vec<String> = Vec::new();
        accessor_path.push(namespace.clone());
        accessor_path.push(function_name);
        let r = EndpointAccessor {
            endpoint_id: endpoint.id.clone(),
            accessor_path,
            namespace,
            transport: endpoint.transport,
            request: endpoint.request.clone(),
            response: endpoint.response.clone(),
            errors: crate::ir::clone_error_refs(&endpoint.errors),
        };
        assert(strings_view(r.accessor_path@) =~= seq![spec_namespace(endpoint@), spec_function_name(endpoint@)]);
        r
    }
}

/// The models of a list of accessors.
pub open spec fn accessors_view(v: Seq<EndpointAccessor>) -> Seq<AccessorModel> {
    v.map_values(|a: EndpointAccessor| a@)
}

/// An identifier: a letter or `_`, then letters, digits or `_`.
pub open spec fn spec_is_identifier(s: Seq<char>) -> bool {
    &&& s.len() > 0
    &&& (s[0] == '_' || is_ascii_alpha(s[0]))
    &&& forall|i: int| 1 <= i < s.len() ==> (#[trigger] s[i] == '_' || is_ascii_alpha(s[i]) || is_ascii_digit(s[i]))
}

/// Whether `value` is an identifier.
pub fn is_identifier(value: &str) -> (r: bool)
    ensures
        r == spec_is_identifier(value@),
{
    let chars = crate::text::chars_of(value);
    if chars.len() == 0 {
        return false;
    }
    let first = chars[0];
    if !(first == '_' || ('a' <= first && first <= 'z') || ('A' <= first && first <= 'Z')) {
        return false;
    }
    for i in 1..chars.len()
        invariant
            chars@ == value@,
            forall|j: int| 1 <= j < i ==> (#[trigger] value@[j] == '_' || is_ascii_alpha(value@[j]) || is_ascii_digit(value@[j])),
    {
        let c = chars[i];
        if !(c == '_' || ('a' <= c && c <= 'z') || ('A' <= c && c <= 'Z') || ('0' <= c && c <= '9')) {
            return false;
        }
    }
    true
}

/// The `(name, alias)` pair a named import declares, when both are
/// identifiers.
pub open spec fn spec_part_alias(part: Seq<char>) -> Seq<(Seq<char>, Seq<char>)> {
    let p = spec_trim(part);
    if p.len() == 0 {
        Seq::empty()
    } else {
        let (original, alias) = match spec_split_once(p, " as "@) {
            Some((a, b)) => (spec_trim(a), spec_trim(b)),
            None => (p, p),
        };
        if spec_is_identifier(original) && spec_is_identifier(alias) {
            seq![(original, alias)]
        } else {
            Seq::empty()
        }
    }
}

/// The pairs that the comma-separated named imports `parts` declare.
pub open spec fn spec_parts_aliases(parts: Seq<Seq<char>>) -> Seq<(Seq<char>, Seq<char>)>
    decreases parts.len(),
{
    if parts.len() == 0 {
        Seq::empty()
    } else {
        spec_parts_aliases(parts.drop_last()) + spec_part_alias(parts.last())
    }
}

/// The pairs that one line declares: only value imports of named bindings.
pub open spec fn spec_line_aliases(line: Seq<char>) -> Seq<(Seq<char>, Seq<char>)> {
    let t = spec_trim(line);
    if !(spec_starts_with(t, "import "@) && spec_find(t, " from "@) is Some) || spec_starts_with(
        t,
        "import type "@,
    ) {
        Seq::empty()
    } else {
        match spec_find(t, "{"@) {
            None => Seq::empty(),
            Some(start) => {
                let rest = t.skip(start + 1);
                match spec_find(rest, "}"@) {
                    None => Seq::empty(),
                    Some(end) => spec_parts_aliases(spec_split(rest.take(end), ',')),
                }
            },
        }
    }
}

/// The pairs that the lines `ls` declare, in order.
pub open spec fn spec_lines_aliases(ls: Seq<Seq<char>>) -> Seq<(Seq<char>, Seq<char>)>
    decreases ls.len(),
{
    if ls.len() == 0 {
        Seq::empty()
    } else {
        spec_lines_aliases(ls.drop_last()) + spec_line_aliases(ls.last())
    }
}

/// The views of `(name, alias)` pairs.
pub open spec fn pairs_view(v: Seq<(String, String)>) -> Seq<(Seq<char>, Seq<char>)> {
    v.map_values(|p: (String, String)| (p.0@, p.1@))
}

fn push_part_alias(out: &mut Vec<(String, String)>, part: &str)
    ensures
        pairs_view(final(out)@) == pairs_view(old(out)@) + spec_part_alias(part@),
{
    let ghost start = pairs_view(out@);
    let p = trim(part);
    if crate::text::chars_of(p.as_str()).len() == 0 {
        assert(spec_trim(part@).len() == 0);
        assert(pairs_view(out@) =~= start + spec_part_alias(part@));
        return;
    }
    let (original, alias) = match split_once(p.as_str(), " as ") {
        Some((a, b)) => (trim(a.as_str()), trim(b.as_str())),
        None => (p.clone(), p.clone()),
    };
    if is_identifier(original.as_str()) && is_identifier(alias.as_str()) {
        let ghost pair = (original@, alias@);
        out.push((original, alias));
        assert(pairs_view(out@) =~= start.push(pair));
    }
    assert(pairs_view(out@) =~= start + spec_part_alias(part@));
}

fn push_line_aliases(out: &mut Vec<(String, String)>, line: &str)
    ensures
        pairs_view(final(out)@) == pairs_view(old(out)@) + spec_line_aliases(line@),
{
    let ghost start = pairs_view(out@);
    let t = trim(line);
    if !(starts_with(t.as_str(), "import ") && contains_str(t.as_str(), " from ")) || starts_with(
        t.as_str(),
        "import type ",
    ) {
        assert(pairs_view(out@) =~= start + spec_line_aliases(line@));
        return;
    }
    let chars = crate::text::chars_of(t.as_str());
    let mut open_brace: Vec<char> = Vec::new();
    open_brace.push('{');
    proof {
        reveal_strlit("{");
        reveal_strlit("}");
    }
    assert(open_brace@ =~= "{"@);
    let start_at = match crate::scan::find_chars(&chars, &open_brace) {
        None => {
            assert(pairs_view(out@) =~= start + spec_line_aliases(line@));
            return;
        },
        Some(i) => i,
    };
    proof {
        crate::scan::lemma_find_bounds(t@, "{"@);
    }
    let total = chars.len();
    assert(start_at + 1 <= total);
    let rest = crate::scan::collect_range(&chars, start_at + 1, total);
    assert(rest@ =~= t@.skip(start_at + 1));
    let rest_chars = crate::text::chars_of(rest.as_str());
    let mut close_brace: Vec<char> = Vec::new();
    close_brace.push('}');
    assert(close_brace@ =~= "}"@);
    let end_at = match crate::scan::find_chars(&rest_chars, &close_brace) {
        None => {
            assert(pairs_view(out@) =~= start + spec_line_aliases(line@));
            return;
        },
        Some(j) => j,
    };
    proof {
        crate::scan::lemma_find_bounds(rest@, "}"@);
    }
    let named = crate::scan::collect_range(&rest_chars, 0, end_at);
    assert(named@ =~= rest@.take(end_at as int));
    let parts = split_char(named.as_str(), ',');
    let ghost ps = strings_view(parts@);
    for k in 0..parts.len()
        invariant
            ps == strings_view(parts@),
            pairs_view(out@) == start + spec_parts_aliases(ps.take(k as int)),
    {
        assert(ps.take(k + 1).drop_last() =~= ps.take(k as int));
        push_part_alias(out, parts[k].as_str());
        assert(pairs_view(out@) =~= start + spec_parts_aliases(ps.take(k + 1)));
    }
    assert(ps.take(parts@.len() as int) =~= ps);
}

/// The `(name, alias)` pairs that the value imports of a file declare with
/// named bindings, in order.
pub fn import_aliases(file: &TypeScriptSourceFile) -> (r: Vec<(String, String)>)
    ensures
        pairs_view(r@) == spec_lines_aliases(spec_lines(file.contents@)),
{
    let ls = lines(file.contents.as_str());
    let ghost lv = strings_view(ls@);
    let mut out: Vec<(String, String)> = Vec::new();
    assert(pairs_view(out@) =~= Seq::<(Seq<char>, Seq<char>)>::empty());
    for i in 0..ls.len()
        invariant
            lv == strings_view(ls@),
            pairs_view(out@) == spec_lines_aliases(lv.take(i as int)),
    {
        assert(lv.take(i + 1).drop_last() =~= lv.take(i as int));
        push_line_aliases(&mut out, ls[i].as_str());
        assert(pairs_view(out@) =~= spec_lines_aliases(lv.take(i + 1)));
    }
    assert(lv.take(ls@.len() as int) =~= lv);
    out
}

/// The aliases under which `namespace` is imported, in order.
pub open spec fn spec_aliases_for(pairs: Seq<(Seq<char>, Seq<char>)>, namespace: Seq<char>) -> Seq<Seq<char>>
    decreases pairs.len(),
{
    if pairs.len() == 0 {
        Seq::empty()
    } else {
        spec_aliases_for(pairs.drop_last(), namespace) + if pairs.last().0 == namespace {
            seq![pairs.last().1]
        } else {
            Seq::empty()
        }
    }
}

fn aliases_for(pairs: &Vec<(String, String)>, namespace: &str) -> (r: Vec<String>)
    ensures
        strings_view(r@) == spec_aliases_for(pairs_view(pairs@), namespace@),
{
    let ghost pv = pairs_view(pairs@);
    let mut out: Vec<String> = Vec::new();
    for i in 0..pairs.len()
        invariant
            pv == pairs_view(pairs@),
            strings_view(out@) == spec_aliases_for(pv.take(i as int), namespace@),
    {
        assert(pv.take(i + 1).drop_last() =~= pv.take(i as int));
        let ghost before = strings_view(out@);
        if str_eq(pairs[i].0.as_str(), namespace) {
            out.push(pairs[i].1.clone());
            assert(strings_view(out@) =~= before.push(pv[i as int].1));
        }
        assert(strings_view(out@) =~= spec_aliases_for(pv.take(i + 1), namespace@));
    }
    assert(pv.take(pairs@.len() as int) =~= pv);
    out
}

/// The byte column and byte width of the first alias that occurs in a line.
pub open spec fn spec_first_alias(line: Seq<u8>, aliases: Seq<Seq<char>>) -> Option<(int, int)>
    decreases aliases.len(),
{
    if aliases.len() == 0 {
        None
    } else {
        match spec_find(line, vstd::utf8::encode_utf8(aliases[0])) {
            Some(c) => Some((c, vstd::utf8::encode_utf8(aliases[0]).len() as int)),
            None => spec_first_alias(line, aliases.drop_first()),
        }
    }
}

proof fn lemma_first_alias_bounds(line: Seq<u8>, aliases: Seq<Seq<char>>)
    ensures
        spec_first_alias(line, aliases) matches Some((c, w)) ==> 0 <= c && 0 <= w && c + w <= line.len(),
    decreases aliases.len(),
{
    if aliases.len() > 0 {
        crate::scan::lemma_find_bounds(line, vstd::utf8::encode_utf8(aliases[0]));
        lemma_first_alias_bounds(line, aliases.drop_first());
    }
}

fn first_alias(line: &str, aliases: &Vec<String>) -> (r: Option<(usize, usize)>)
    ensures
        line.spec_bytes().len() <= usize::MAX,
        match spec_first_alias(line.spec_bytes(), strings_view(aliases@)) {
            Some((c, w)) => r == Some((c as usize, w as usize)),
            None => r is None,
        },
{
    let ghost av = strings_view(aliases@);
    let bytes = line.as_bytes();
    assert(bytes@.len() == bytes.len());
    assert(av.skip(0) =~= av);
    for i in 0..aliases.len()
        invariant
            av == strings_view(aliases@),
            line.spec_bytes().len() <= usize::MAX,
            spec_first_alias(line.spec_bytes(), av) == spec_first_alias(line.spec_bytes(), av.skip(i as int)),
    {
        assert(av.skip(i as int)[0] == av[i as int]);
        assert(av.skip(i as int).drop_first() =~= av.skip(i + 1));
        let alias = aliases[i].as_str();
        match crate::scan::find_str(line, alias) {
            Some(c) => {
                return Some((c, alias.as_bytes().len()));
            },
            None => {},
        }
    }
    assert(av.skip(aliases@.len() as int) =~= Seq::<Seq<char>>::empty());
    None
}

/// Whether some usage of `usages` is of `endpoint_id` in `file`.
pub open spec fn spec_has_usage(usages: Seq<UsageModel>, endpoint_id: Seq<char>, file: Seq<char>) -> bool {
    exists|i: int| 0 <= i < usages.len() && (#[trigger] usages[i]).endpoint_id == endpoint_id
        && usages[i].file == file
}

fn has_usage(usages: &Vec<EndpointUsage>, endpoint_id: &SymbolId, file: &str) -> (r: bool)
    ensures
        r == spec_has_usage(usages_view(usages@), endpoint_id@, file@),
{
    for i in 0..usages.len()
        invariant
            forall|j: int| 0 <= j < i ==> !((#[trigger] usages@[j]).endpoint_id@ == endpoint_id@
                && usages@[j].file@ == file@),
    {
        if usages[i].endpoint_id.same(endpoint_id) && str_eq(usages[i].file.as_str(), file) {
            assert(usages_view(usages@)[i as int] == usages@[i as int]@);
            return true;
        }
    }
    assert(!spec_has_usage(usages_view(usages@), endpoint_id@, file@)) by {
        if spec_has_usage(usages_view(usages@), endpoint_id@, file@) {
            let w = choose|w: int| 0 <= w < usages_view(usages@).len() && (#[trigger] usages_view(usages@)[w]).endpoint_id == endpoint_id@
                && usages_view(usages@)[w].file == file@;
            assert(usages_view(usages@)[w] == usages@[w]@);
        }
    }
    false
}

/// The weak usage recorded when an endpoint's namespace is imported on a
/// line without a strong accessor usage in the file.
pub open spec fn spec_import_usage(
    a: AccessorModel,
    file: Seq<char>,
    line: u32,
    column: int,
    width: int,
) -> UsageModel {
    UsageModel {
        endpoint_id: a.endpoint_id,
        accessor_path: a.accessor_path,
        file,
        source: spec_usage_range(file, line, column, width),
        strength: UsageStrength::Weak,
        reason: "endpoint namespace is imported without a strong accessor usage"@,
        diagnostics: Seq::empty(),
    }
}

/// Records, for one accessor and one import line, the import-only usage
/// when the namespace is imported under an alias found on the line and the
/// file has no usage of the endpoint yet.
pub open spec fn spec_accessor_step(
    file: Seq<char>,
    line: Seq<char>,
    line_no: u32,
    a: AccessorModel,
    pairs: Seq<(Seq<char>, Seq<char>)>,
    usages: Seq<UsageModel>,
) -> Seq<UsageModel> {
    let aliases = spec_aliases_for(pairs, a.namespace);
    if aliases.len() == 0 || spec_has_usage(usages, a.endpoint_id, file) {
        usages
    } else {
        match spec_first_alias(vstd::utf8::encode_utf8(line), aliases) {
            None => usages,
            Some((c, w)) => usages.push(spec_import_usage(a, file, line_no, c, w)),
        }
    }
}

/// [`spec_accessor_step`] for each accessor in order.
pub open spec fn spec_accessors_fold(
    file: Seq<char>,
    line: Seq<char>,
    line_no: u32,
    accessors: Seq<AccessorModel>,
    pairs: Seq<(Seq<char>, Seq<char>)>,
    usages: Seq<UsageModel>,
) -> Seq<UsageModel>
    decreases accessors.len(),
{
    if accessors.len() == 0 {
        usages
    } else {
        spec_accessor_step(
            file,
            line,
            line_no,
            accessors.last(),
            pairs,
            spec_accessors_fold(file, line, line_no, accessors.drop_last(), pairs, usages),
        )
    }
}

/// Whether a line is a value import from a module.
pub open spec fn spec_is_import_line(line: Seq<char>) -> bool {
    spec_starts_with(crate::scan::spec_trim_start(line), "import "@) && spec_find(line, " from "@) is Some
}

/// The one-based number of the line at `index`, saturating at `u32::MAX`.
pub open spec fn spec_line_number(index: int) -> u32 {
    if index + 1 > u32::MAX {
        u32::MAX
    } else {
        (index + 1) as u32
    }
}

/// The import-only usages that the lines `ls` add, line by line.
pub open spec fn spec_lines_fold(
    file: Seq<char>,
    ls: Seq<Seq<char>>,
    accessors: Seq<AccessorModel>,
    pairs: Seq<(Seq<char>, Seq<char>)>,
    usages: Seq<UsageModel>,
) -> Seq<UsageModel>
    decreases ls.len(),
{
    if ls.len() == 0 {
        usages
    } else {
        let before = spec_lines_fold(file, ls.drop_last(), accessors, pairs, usages);
        if spec_is_import_line(ls.last()) {
            spec_accessors_fold(
                file,
                ls.last(),
                spec_line_number(ls.len() - 1),
                accessors,
                pairs,
                before,
            )
        } else {
            before
        }
    }
}

fn add_accessor_usage(
    file: &TypeScriptSourceFile,
    line: &str,
    line_no: u32,
    accessor: &EndpointAccessor,
    pairs: &Vec<(String, String)>,
    usages: &mut Vec<EndpointUsage>,
)
    ensures
        usages_view(final(usages)@) == spec_accessor_step(
            file.path@,
            line@,
            line_no,
            accessor@,
            pairs_view(pairs@),
            usages_view(old(usages)@),
        ),
{
    let aliases = aliases_for(pairs, accessor.namespace.as_str());
    if aliases.len() == 0 || has_usage(usages, &accessor.endpoint_id, file.path.as_str()) {
        return;
    }
    proof {
        lemma_first_alias_bounds(line.spec_bytes(), strings_view(aliases@));
    }
    match first_alias(line, &aliases) {
        None => {},
        Some((column, width)) => {
            let ghost before = usages_view(usages@);
            let usage = EndpointUsage {
                endpoint_id: accessor.endpoint_id.clone(),
                accessor_path: crate::ir::clone_strings(&accessor.accessor_path),
                file: file.path.clone(),
                source: usage_source_range(file.path.as_str(), line_no, column, width),
                strength: UsageStrength::Weak,
                reason: "endpoint namespace is imported without a strong accessor usage".to_owned(),
                diagnostics: Vec::new(),
            };
            assert(diags_view(usage.diagnostics@) =~= Seq::<DiagnosticModel>::empty());
            usages.push(usage);
            assert(usages_view(usages@) =~= before.push(usage@));
        },
    }
}

/// Adds a weak usage for each endpoint whose namespace a file imports on a
/// value import line, unless the file already uses the endpoint.
pub fn add_import_only_usages(
    file: &TypeScriptSourceFile,
    accessors: &Vec<EndpointAccessor>,
    pairs: &Vec<(String, String)>,
    usages: &mut Vec<EndpointUsage>,
)
    ensures
        usages_view(final(usages)@) == spec_lines_fold(
            file.path@,
            spec_lines(file.contents@),
            accessors_view(accessors@),
            pairs_view(pairs@),
            usages_view(old(usages)@),
        ),
{
    let ls = lines(file.contents.as_str());
    let ghost lv = strings_view(ls@);
    let ghost av = accessors_view(accessors@);
    let ghost start = usages_view(usages@);
    for k in 0..ls.len()
        invariant
            lv == strings_view(ls@),
            av == accessors_view(accessors@),
            usages_view(usages@) == spec_lines_fold(file.path@, lv.take(k as int), av, pairs_view(pairs@), start),
    {
        assert(lv.take(k + 1).drop_last() =~= lv.take(k as int));
        assert(lv.take(k + 1).last() == lv[k as int]);
        let line = ls[k].as_str();
        let trimmed = crate::scan::trim_start(line);
        if starts_with(trimmed.as_str(), "import ") && contains_str(line, " from ") {
            let line_no: u32 = if k >= 4294967295usize {
                4294967295u32
            } else {
                (k + 1) as u32
            };
            let ghost base = usages_view(usages@);
            for a in 0..accessors.len()
                invariant
                    av == accessors_view(accessors@),
                    usages_view(usages@) == spec_accessors_fold(
                        file.path@,
                        line@,
                        line_no,
                        av.take(a as int),
                        pairs_view(pairs@),
                        base,
                    ),
            {
                assert(av.take(a + 1).drop_last() =~= av.take(a as int));
                add_accessor_usage(file, line, line_no, &accessors[a], pairs, usages);
            }
            assert(av.take(accessors@.len() as int) =~= av);
        }
    }
    assert(lv.take(ls@.len() as int) =~= lv);
}

/// The usage recorded for an endpoint reference that the semantic scan
/// reported: with the diagnostics that cover it, classified by their codes.
pub open spec fn spec_usage_from_ref(
    r: SemanticEndpointReference,
    all: Seq<DiagnosticModel>,
    invalid: Seq<Seq<char>>,
    unknown: Seq<Seq<char>>,
) -> UsageModel {
    let ds = spec_diagnostics_for(all, r.file@, r.source@);
    let (strength, reason) = spec_classify(r.strength, r.reason@, ds, invalid, unknown);
    UsageModel {
        endpoint_id: r.endpoint_id@,
        accessor_path: strings_view(r.accessor_path@),
        file: r.file@,
        source: r.source@,
        strength,
        reason,
        diagnostics: ds,
    }
}

fn usage_from_reference(
    reference: &SemanticEndpointReference,
    all: &Vec<EffectUsageDiagnostic>,
    rules: &EffectUsageDiagnosticCodeRules,
) -> (r: EndpointUsage)
    ensures
        r@ == spec_usage_from_ref(
            *reference,
            diags_view(all@),
            strings_view(rules.invalid@),
            strings_view(rules.unknown@),
        ),
{
    let diagnostics = diagnostics_for_usage(all, reference.file.as_str(), &reference.source);
    let (strength, reason) = diagnostic_classification_override(
        reference.strength,
        reference.reason.clone(),
        &diagnostics,
        rules,
    );
    EndpointUsage {
        endpoint_id: reference.endpoint_id.clone(),
        accessor_path: crate::ir::clone_strings(&reference.accessor_path),
        file: reference.file.clone(),
        source: reference.source.clone(),
        strength,
        reason,
        diagnostics,
    }
}

/// Model of an [`ErrorUsage`].
pub struct ErrorUsageModel {
    pub symbol_id: Seq<char>,
    pub file: Seq<char>,
    pub source: SourceRangeModel,
    pub reason: Seq<char>,
    pub diagnostics: Seq<DiagnosticModel>,
}

impl View for ErrorUsage {
    type V = ErrorUsageModel;

    open spec fn view(&self) -> ErrorUsageModel {
        ErrorUsageModel {
            symbol_id: self.symbol_id@,
            file: self.file@,
            source: self.source@,
            reason: self.reason@,
            diagnostics: diags_view(self.diagnostics@),
        }
    }
}

/// The error usage recorded for a reported error reference.
pub open spec fn spec_error_usage(r: SemanticErrorReference, all: Seq<DiagnosticModel>) -> ErrorUsageModel {
    ErrorUsageModel {
        symbol_id: r.symbol_id@,
        file: r.file@,
        source: r.source@,
        reason: r.reason@,
        diagnostics: spec_diagnostics_for(all, r.file@, r.source@),
    }
}

/// Model of a [`FieldUsage`].
pub struct FieldUsageModel {
    pub field_id: Seq<char>,
    pub file: Seq<char>,
    pub source: SourceRangeModel,
    pub access: FieldUsageAccess,
    pub reason: Seq<char>,
    pub diagnostics: Seq<DiagnosticModel>,
}

impl View for FieldUsage {
    type V = FieldUsageModel;

    open spec fn view(&self) -> FieldUsageModel {
        FieldUsageModel {
            field_id: self.field_id@,
            file: self.file@,
            source: self.source@,
            access: self.access,
            reason: self.reason@,
            diagnostics: diags_view(self.diagnostics@),
        }
    }
}

/// The field usage recorded for a reported field reference.
pub open spec fn spec_field_usage(r: SemanticFieldReference, all: Seq<DiagnosticModel>) -> FieldUsageModel {
    FieldUsageModel {
        field_id: r.field_id@,
        file: r.file@,
        source: r.source@,
        access: r.access,
        reason: r.reason@,
        diagnostics: spec_diagnostics_for(all, r.file@, r.source@),
    }
}

fn error_usages(refs: &Vec<SemanticErrorReference>, all: &Vec<EffectUsageDiagnostic>) -> (r: Vec<ErrorUsage>)
    ensures
        r@.len() == refs@.len(),
        forall|i: int| 0 <= i < r@.len() ==> #[trigger] r@[i]@ == spec_error_usage(refs@[i], diags_view(all@)),
{
    let mut out: Vec<ErrorUsage> = Vec::new();
    for i in 0..refs.len()
        invariant
            out@.len() == i,
            forall|j: int| 0 <= j < i ==> #[trigger] out@[j]@ == spec_error_usage(refs@[j], diags_view(all@)),
    {
        let reference = &refs[i];
        let diagnostics = diagnostics_for_usage(all, reference.file.as_str(), &reference.source);
        out.push(
            ErrorUsage {
                symbol_id: reference.symbol_id.clone(),
                file: reference.file.clone(),
                source: reference.source.clone(),
                reason: reference.reason.clone(),
                diagnostics,
            },
        );
    }
    out
}

fn field_usages(refs: &Vec<SemanticFieldReference>, all: &Vec<EffectUsageDiagnostic>) -> (r: Vec<FieldUsage>)
    ensures
        r@.len() == refs@.len(),
        forall|i: int| 0 <= i < r@.len() ==> #[trigger] r@[i]@ == spec_field_usage(refs@[i], diags_view(all@)),
{
    let mut out: Vec<FieldUsage> = Vec::new();
    for i in 0..refs.len()
        invariant
            out@.len() == i,
            forall|j: int| 0 <= j < i ==> #[trigger] out@[j]@ == spec_field_usage(refs@[j], diags_view(all@)),
    {
        let reference = &refs[i];
        let diagnostics = diagnostics_for_usage(all, reference.file.as_str(), &reference.source);
        out.push(
            FieldUsage {
                field_id: reference.field_id.clone(),
                file: reference.file.clone(),
                source: reference.source.clone(),
                access: reference.access,
                reason: reference.reason.clone(),
                diagnostics,
            },
        );
    }
    out
}

/// Usages are ordered by endpoint id, file, then start position.
pub open spec fn usage_lt(a: UsageModel, b: UsageModel) -> bool {
    seq_lt(a.endpoint_id, b.endpoint_id) || (a.endpoint_id == b.endpoint_id && (seq_lt(a.file, b.file)
        || (a.file == b.file && (a.source.start_line < b.source.start_line || (a.source.start_line
        == b.source.start_line && a.source.start_column < b.source.start_column)))))
}

/// The order of an index's usages.
pub open spec fn usage_order() -> spec_fn(UsageModel, UsageModel) -> bool {
    |a: UsageModel, b: UsageModel| usage_lt(a, b)
}

fn usage_key_lt(a: &EndpointUsage, b: &EndpointUsage) -> (r: bool)
    ensures
        r == usage_lt(a@, b@),
{
    if str_lt(a.endpoint_id.as_str(), b.endpoint_id.as_str()) {
        return true;
    }
    if !a.endpoint_id.same(&b.endpoint_id) {
        return false;
    }
    if str_lt(a.file.as_str(), b.file.as_str()) {
        return true;
    }
    if !str_eq(a.file.as_str(), b.file.as_str()) {
        return false;
    }
    a.source.start_line < b.source.start_line || (a.source.start_line == b.source.start_line
        && a.source.start_column < b.source.start_column)
}

fn sort_usages(usages: Vec<EndpointUsage>) -> (r: Vec<EndpointUsage>)
    ensures
        usages_view(r@) == spec_sort(usages_view(usages@), usage_order()),
{
    let ghost slt = |a: EndpointUsage, b: EndpointUsage| usage_lt(a@, b@);
    let lt = |a: &EndpointUsage, b: &EndpointUsage| -> (o: bool)
        ensures
            o == usage_lt(a@, b@),
        { usage_key_lt(a, b) };
    let ghost before = usages@;
    let sorted = sort_by(usages, lt, Ghost(slt));
    proof {
        let f = |u: EndpointUsage| u@;
        crate::order::lemma_sort_map(before, f, slt, usage_order());
        assert(before.map_values(f) =~= usages_view(before));
        assert(sorted@.map_values(f) =~= usages_view(sorted@));
    }
    sorted
}

/// The number of usages of `endpoint_id` with strength `s`.
pub open spec fn spec_count(usages: Seq<UsageModel>, endpoint_id: Seq<char>, s: UsageStrength) -> nat
    decreases usages.len(),
{
    if usages.len() == 0 {
        0
    } else {
        spec_count(usages.drop_last(), endpoint_id, s) + if usages.last().endpoint_id == endpoint_id
            && usages.last().strength == s {
            1nat
        } else {
            0nat
        }
    }
}

/// Per-endpoint usage counters.
#[derive(Debug, PartialEq, Eq)]
pub struct EndpointUsageSummary {
    pub endpoint_id: SymbolId,
    pub accessor_path: Vec<String>,
    pub strong: u64,
    pub weak: u64,
    pub invalid: u64,
    pub unknown: u64,
}

/// Model of an [`EndpointUsageSummary`].
pub struct EndpointSummaryModel {
    pub endpoint_id: Seq<char>,
    pub accessor_path: Seq<Seq<char>>,
    pub strong: nat,
    pub weak: nat,
    pub invalid: nat,
    pub unknown: nat,
}

impl View for EndpointUsageSummary {
    type V = EndpointSummaryModel;

    open spec fn view(&self) -> EndpointSummaryModel {
        EndpointSummaryModel {
            endpoint_id: self.endpoint_id@,
            accessor_path: strings_view(self.accessor_path@),
            strong: self.strong as nat,
            weak: self.weak as nat,
            invalid: self.invalid as nat,
            unknown: self.unknown as nat,
        }
    }
}

/// The models of a list of summaries.
pub open spec fn endpoint_summaries_view(v: Seq<EndpointUsageSummary>) -> Seq<EndpointSummaryModel> {
    v.map_values(|s: EndpointUsageSummary| s@)
}

/// The counters of one accessor over `usages`.
pub open spec fn spec_summary(a: AccessorModel, usages: Seq<UsageModel>) -> EndpointSummaryModel {
    EndpointSummaryModel {
        endpoint_id: a.endpoint_id,
        accessor_path: a.accessor_path,
        strong: spec_count(usages, a.endpoint_id, UsageStrength::Strong),
        weak: spec_count(usages, a.endpoint_id, UsageStrength::Weak),
        invalid: spec_count(usages, a.endpoint_id, UsageStrength::Invalid),
        unknown: spec_count(usages, a.endpoint_id, UsageStrength::Unknown),
    }
}

/// The number of usages of `endpoint_id`, whatever their strength.
pub open spec fn spec_usage_total(usages: Seq<UsageModel>, endpoint_id: Seq<char>) -> nat
    decreases usages.len(),
{
    if usages.len() == 0 {
        0
    } else {
        spec_usage_total(usages.drop_last(), endpoint_id) + if usages.last().endpoint_id == endpoint_id {
            1nat
        } else {
            0nat
        }
    }
}

/// An endpoint's summary counts each of its usages exactly once: its
/// strong, weak, invalid and unknown counters add up to its usages.
pub proof fn lemma_summary_counts_every_usage(a: AccessorModel, usages: Seq<UsageModel>)
    ensures
        spec_summary(a, usages).strong + spec_summary(a, usages).weak + spec_summary(a, usages).invalid
            + spec_summary(a, usages).unknown == spec_usage_total(usages, a.endpoint_id),
    decreases usages.len(),
{
    if usages.len() > 0 {
        lemma_summary_counts_every_usage(a, usages.drop_last());
    }
}

proof fn lemma_count_bound(usages: Seq<UsageModel>, endpoint_id: Seq<char>, s: UsageStrength)
    ensures
        spec_count(usages, endpoint_id, s) <= usages.len(),
    decreases usages.len(),
{
    if usages.len() > 0 {
        lemma_count_bound(usages.drop_last(), endpoint_id, s);
    }
}

fn summarize(accessor: &EndpointAccessor, usages: &Vec<EndpointUsage>) -> (r: EndpointUsageSummary)
    ensures
        r@ == spec_summary(accessor@, usages_view(usages@)),
{
    let ghost uv = usages_view(usages@);
    let ghost id = accessor@.endpoint_id;
    let mut strong: u64 = 0;
    let mut weak: u64 = 0;
    let mut invalid: u64 = 0;
    let mut unknown: u64 = 0;
    for i in 0..usages.len()
        invariant
            uv == usages_view(usages@),
            id == accessor@.endpoint_id,
            strong == spec_count(uv.take(i as int), id, UsageStrength::Strong),
            weak == spec_count(uv.take(i as int), id, UsageStrength::Weak),
            invalid == spec_count(uv.take(i as int), id, UsageStrength::Invalid),
            unknown == spec_count(uv.take(i as int), id, UsageStrength::Unknown),
    {
        assert(uv.take(i + 1).drop_last() =~= uv.take(i as int));
        assert(uv.take(i + 1).last() == usages@[i as int]@);
        proof {
            lemma_count_bound(uv.take(i as int), id, UsageStrength::Strong);
            lemma_count_bound(uv.take(i as int), id, UsageStrength::Weak);
            lemma_count_bound(uv.take(i as int), id, UsageStrength::Invalid);
            lemma_count_bound(uv.take(i as int), id, UsageStrength::Unknown);
        }
        if usages[i].endpoint_id.same(&accessor.endpoint_id) {
            match usages[i].strength {
                UsageStrength::Strong => strong = strong + 1,
                UsageStrength::Weak => weak = weak + 1,
                UsageStrength::Invalid => invalid = invalid + 1,
                UsageStrength::Unknown => unknown = unknown + 1,
            }
        }
    }
    assert(uv.take(usages@.len() as int) =~= uv);
    EndpointUsageSummary {
        endpoint_id: accessor.endpoint_id.clone(),
        accessor_path: crate::ir::clone_strings(&accessor.accessor_path),
        strong,
        weak,
        invalid,
        unknown,
    }
}

/// Summaries are ordered by endpoint id.
pub open spec fn summary_id_order() -> spec_fn(EndpointSummaryModel, EndpointSummaryModel) -> bool {
    |a: EndpointSummaryModel, b: EndpointSummaryModel| seq_lt(a.endpoint_id, b.endpoint_id)
}

fn sort_summaries(summaries: Vec<EndpointUsageSummary>) -> (r: Vec<EndpointUsageSummary>)
    ensures
        endpoint_summaries_view(r@) == spec_sort(endpoint_summaries_view(summaries@), summary_id_order()),
{
    let ghost slt = |a: EndpointUsageSummary, b: EndpointUsageSummary| seq_lt(a.endpoint_id@, b.endpoint_id@);
    let lt = |a: &EndpointUsageSummary, b: &EndpointUsageSummary| -> (o: bool)
        ensures
            o == seq_lt(a.endpoint_id@, b.endpoint_id@),
        { str_lt(a.endpoint_id.as_str(), b.endpoint_id.as_str()) };
    let ghost before = summaries@;
    let sorted = sort_by(summaries, lt, Ghost(slt));
    proof {
        let f = |s: EndpointUsageSummary| s@;
        crate::order::lemma_sort_map(before, f, slt, summary_id_order());
        assert(before.map_values(f) =~= endpoint_summaries_view(before));
        assert(sorted@.map_values(f) =~= endpoint_summaries_view(sorted@));
    }
    sorted
}


/// Serialized `effect-usage-index.json` payload.
#[derive(Debug, PartialEq, Eq)]
pub struct EffectUsageIndex {
    pub schema_version: u32,
    pub contract_hash: String,
    pub ts_program_hash: String,
    pub source_files: Vec<TypeScriptSourceSummary>,
    pub package_name: String,
    pub endpoints: Vec<EndpointUsageSummary>,
    pub usages: Vec<EndpointUsage>,
    pub error_usages: Vec<ErrorUsage>,
    pub field_usages: Vec<FieldUsage>,
    pub diagnostics: Vec<EffectUsageDiagnostic>,
}

/// Model of an [`EffectUsageIndex`].
pub struct IndexModel {
    pub schema_version: u32,
    pub contract_hash: Seq<char>,
    pub ts_program_hash: Seq<char>,
    pub source_files: Seq<(Seq<char>, Seq<char>)>,
    pub package_name: Seq<char>,
    pub endpoints: Seq<EndpointSummaryModel>,
    pub usages: Seq<UsageModel>,
    pub error_usages: Seq<ErrorUsageModel>,
    pub field_usages: Seq<FieldUsageModel>,
    pub diagnostics: Seq<DiagnosticModel>,
}

impl View for EffectUsageIndex {
    type V = IndexModel;

    open spec fn view(&self) -> IndexModel {
        IndexModel {
            schema_version: self.schema_version,
            contract_hash: self.contract_hash@,
            ts_program_hash: self.ts_program_hash@,
            source_files: summaries_view(self.source_files@),
            package_name: self.package_name@,
            endpoints: endpoint_summaries_view(self.endpoints@),
            usages: usages_view(self.usages@),
            error_usages: self.error_usages@.map_values(|u: ErrorUsage| u@),
            field_usages: self.field_usages@.map_values(|u: FieldUsage| u@),
            diagnostics: diags_view(self.diagnostics@),
        }
    }
}

/// What a semantic scan reported, as sequences.
pub struct ScanModel {
    pub references: Seq<SemanticEndpointReference>,
    pub error_references: Seq<SemanticErrorReference>,
    pub field_references: Seq<SemanticFieldReference>,
    pub diagnostics: Seq<DiagnosticModel>,
}

impl View for SemanticScannerOutput {
    type V = ScanModel;

    open spec fn view(&self) -> ScanModel {
        ScanModel {
            references: self.references@,
            error_references: self.error_references@,
            field_references: self.field_references@,
            diagnostics: diags_view(self.diagnostics@),
        }
    }
}

/// A scan that reported nothing: what an empty set of sources yields.
pub open spec fn empty_scan() -> ScanModel {
    ScanModel {
        references: Seq::empty(),
        error_references: Seq::empty(),
        field_references: Seq::empty(),
        diagnostics: Seq::empty(),
    }
}

/// The accessors of a contract's endpoints, in order.
pub open spec fn spec_accessors(endpoints: Seq<EndpointModel>) -> Seq<AccessorModel> {
    endpoints.map_values(|e: EndpointModel| spec_accessor(e))
}

/// The usages of the reported endpoint references, in order.
pub open spec fn spec_reference_usages(
    refs: Seq<SemanticEndpointReference>,
    all: Seq<DiagnosticModel>,
    invalid: Seq<Seq<char>>,
    unknown: Seq<Seq<char>>,
) -> Seq<UsageModel> {
    refs.map_values(|r: SemanticEndpointReference| spec_usage_from_ref(r, all, invalid, unknown))
}

/// The import-only usages that the files add, file by file.
pub open spec fn spec_files_fold(
    files: Seq<TypeScriptSourceFile>,
    accessors: Seq<AccessorModel>,
    usages: Seq<UsageModel>,
) -> Seq<UsageModel>
    decreases files.len(),
{
    if files.len() == 0 {
        usages
    } else {
        let f = files.last();
        spec_lines_fold(
            f.path@,
            spec_lines(f.contents@),
            accessors,
            spec_lines_aliases(spec_lines(f.contents@)),
            spec_files_fold(files.drop_last(), accessors, usages),
        )
    }
}

/// The usage index of a contract over a set of sources: `contract_json` is
/// the contract's serialized form, `given` the diagnostics supplied by the
/// caller, `invalid` and `unknown` the configured diagnostic codes, and
/// `scan` what the semantic scan reported.
pub open spec fn spec_index(
    contract: ApiContractModel,
    contract_json: Seq<u8>,
    files: Seq<TypeScriptSourceFile>,
    given: Seq<DiagnosticModel>,
    invalid: Seq<Seq<char>>,
    unknown: Seq<Seq<char>>,
    scan: ScanModel,
) -> IndexModel {
    let accessors = spec_accessors(contract.endpoints);
    let all = scan.diagnostics + given;
    let usages = spec_sort(
        spec_files_fold(files, accessors, spec_reference_usages(scan.references, all, invalid, unknown)),
        usage_order(),
    );
    let sources = spec_source_summaries(files);
    IndexModel {
        schema_version: EFFECT_USAGE_INDEX_SCHEMA_VERSION,
        contract_hash: spec_stable_hash(contract_json),
        ts_program_hash: spec_stable_hash(spec_program_bytes(sources)),
        source_files: sources,
        package_name: contract.package_name,
        endpoints: spec_sort(accessors.map_values(|a: AccessorModel| spec_summary(a, usages)), summary_id_order()),
        usages,
        error_usages: scan.error_references.map_values(|r: SemanticErrorReference| spec_error_usage(r, all)),
        field_usages: scan.field_references.map_values(|r: SemanticFieldReference| spec_field_usage(r, all)),
        diagnostics: all,
    }
}

proof fn lemma_accessors_fold_extends(
    file: Seq<char>,
    line: Seq<char>,
    line_no: u32,
    accessors: Seq<AccessorModel>,
    pairs: Seq<(Seq<char>, Seq<char>)>,
    usages: Seq<UsageModel>,
)
    ensures
        ({
            let r = spec_accessors_fold(file, line, line_no, accessors, pairs, usages);
            usages.len() <= r.len() && r.take(usages.len() as int) == usages
        }),
    decreases accessors.len(),
{
    let r = spec_accessors_fold(file, line, line_no, accessors, pairs, usages);
    if accessors.len() == 0 {
        assert(r.take(usages.len() as int) =~= usages);
    } else {
        let p = spec_accessors_fold(file, line, line_no, accessors.drop_last(), pairs, usages);
        lemma_accessors_fold_extends(file, line, line_no, accessors.drop_last(), pairs, usages);
        assert(p.len() <= r.len() && r.take(p.len() as int) =~= p);
        assert(r.take(usages.len() as int) =~= p.take(usages.len() as int));
    }
}

proof fn lemma_lines_fold_extends(
    file: Seq<char>,
    ls: Seq<Seq<char>>,
    accessors: Seq<AccessorModel>,
    pairs: Seq<(Seq<char>, Seq<char>)>,
    usages: Seq<UsageModel>,
)
    ensures
        ({
            let r = spec_lines_fold(file, ls, accessors, pairs, usages);
            usages.len() <= r.len() && r.take(usages.len() as int) == usages
        }),
    decreases ls.len(),
{
    let r = spec_lines_fold(file, ls, accessors, pairs, usages);
    if ls.len() == 0 {
        assert(r.take(usages.len() as int) =~= usages);
    } else {
        let p = spec_lines_fold(file, ls.drop_last(), accessors, pairs, usages);
        lemma_lines_fold_extends(file, ls.drop_last(), accessors, pairs, usages);
        if spec_is_import_line(ls.last()) {
            lemma_accessors_fold_extends(file, ls.last(), spec_line_number(ls.len() - 1), accessors, pairs, p);
        } else {
            assert(r.take(p.len() as int) =~= p);
        }
        assert(r.take(usages.len() as int) =~= p.take(usages.len() as int));
    }
}

proof fn lemma_files_fold_extends(
    files: Seq<TypeScriptSourceFile>,
    accessors: Seq<AccessorModel>,
    usages: Seq<UsageModel>,
)
    ensures
        ({
            let r = spec_files_fold(files, accessors, usages);
            usages.len() <= r.len() && r.take(usages.len() as int) == usages
        }),
    decreases files.len(),
{
    let r = spec_files_fold(files, accessors, usages);
    if files.len() == 0 {
        assert(r.take(usages.len() as int) =~= usages);
    } else {
        let p = spec_files_fold(files.drop_last(), accessors, usages);
        let f = files.last();
        lemma_files_fold_extends(files.drop_last(), accessors, usages);
        lemma_lines_fold_extends(
            f.path@,
            spec_lines(f.contents@),
            accessors,
            spec_lines_aliases(spec_lines(f.contents@)),
            p,
        );
        assert(r.take(usages.len() as int) =~= p.take(usages.len() as int));
    }
}

proof fn lemma_diagnostics_for_filter(all: Seq<DiagnosticModel>, file: Seq<char>, source: SourceRangeModel)
    ensures
        spec_diagnostics_for(all, file, source) == all.filter(|d: DiagnosticModel| spec_covers(d, file, source)),
    decreases all.len(),
{
    reveal(Seq::filter);
    if all.len() > 0 {
        lemma_diagnostics_for_filter(all.drop_last(), file, source);
    }
}

proof fn lemma_first_match_exists(ds: Seq<DiagnosticModel>, codes: Seq<Seq<char>>)
    ensures
        spec_first_match(ds, codes) is Some <==> exists|i: int| 0 <= i < ds.len() && spec_code_matches(#[trigger] ds[i], codes),
    decreases ds.len(),
{
    if ds.len() > 0 {
        lemma_first_match_exists(ds.drop_first(), codes);
        if exists|i: int| 0 <= i < ds.len() && spec_code_matches(#[trigger] ds[i], codes) {
            let i = choose|i: int| 0 <= i < ds.len() && spec_code_matches(#[trigger] ds[i], codes);
            if i > 0 {
                assert(ds.drop_first()[i - 1] == ds[i]);
            }
        }
        if exists|i: int| 0 <= i < ds.drop_first().len() && spec_code_matches(#[trigger] ds.drop_first()[i], codes) {
            let i = choose|i: int| 0 <= i < ds.drop_first().len() && spec_code_matches(#[trigger] ds.drop_first()[i], codes);
            assert(ds[i + 1] == ds.drop_first()[i]);
        }
    }
}

/// Each usage of an endpoint reference that the semantic scan reports
/// carries, in order, exactly the diagnostics (the scan's, then the
/// caller's) that lie in its file and whose lines cover its lines; it turns
/// invalid when one of them has an invalid code, else unknown when one has
/// an unknown code, and otherwise keeps the scan's strength; and it is one
/// of the index's usages.
pub proof fn lemma_reference_usage_diagnostics(
    contract: ApiContractModel,
    contract_json: Seq<u8>,
    files: Seq<TypeScriptSourceFile>,
    given: Seq<DiagnosticModel>,
    invalid: Seq<Seq<char>>,
    unknown: Seq<Seq<char>>,
    scan: ScanModel,
    k: int,
)
    requires
        0 <= k < scan.references.len(),
    ensures
        ({
            let all = scan.diagnostics + given;
            let r = scan.references[k];
            let u = spec_reference_usages(scan.references, all, invalid, unknown)[k];
            let ds = all.filter(|d: DiagnosticModel| spec_covers(d, r.file@, r.source@));
            &&& u.diagnostics == ds
            &&& u.strength == if exists|i: int| 0 <= i < ds.len() && spec_code_matches(#[trigger] ds[i], invalid) {
                UsageStrength::Invalid
            } else if exists|i: int| 0 <= i < ds.len() && spec_code_matches(#[trigger] ds[i], unknown) {
                UsageStrength::Unknown
            } else {
                r.strength
            }
            &&& spec_index(contract, contract_json, files, given, invalid, unknown, scan).usages.contains(u)
        }),
{
    broadcast use vstd::seq_lib::group_to_multiset_ensures;
    let all = scan.diagnostics + given;
    let r = scan.references[k];
    let refs = spec_reference_usages(scan.references, all, invalid, unknown);
    let u = refs[k];
    let ds = all.filter(|d: DiagnosticModel| spec_covers(d, r.file@, r.source@));
    lemma_diagnostics_for_filter(all, r.file@, r.source@);
    lemma_first_match_exists(ds, invalid);
    lemma_first_match_exists(ds, unknown);
    let accessors = spec_accessors(contract.endpoints);
    let found = spec_files_fold(files, accessors, refs);
    lemma_files_fold_extends(files, accessors, refs);
    assert(found[k] == found.take(refs.len() as int)[k]);
    assert(found.contains(u));
    crate::order::lemma_sort_permutes(found, usage_order());
    let idx = spec_index(contract, contract_json, files, given, invalid, unknown, scan);
    assert(idx.usages.to_multiset().count(u) > 0);
}

/// Usages are compared by endpoint id, then file, then start line and
/// column: a strict weak order.
pub proof fn lemma_usage_order_weak()
    ensures
        crate::order::strict_weak(usage_order()),
{
    assert forall|a: UsageModel| !#[trigger] usage_order()(a, a) by {
        crate::order::lemma_seq_lt_three(a.endpoint_id, a.endpoint_id, a.endpoint_id);
        crate::order::lemma_seq_lt_three(a.file, a.file, a.file);
    }
    assert forall|a: UsageModel, b: UsageModel, c: UsageModel|
        #[trigger] usage_order()(a, b) && #[trigger] usage_order()(b, c) implies usage_order()(a, c) by {
        crate::order::lemma_seq_lt_three(a.endpoint_id, b.endpoint_id, c.endpoint_id);
        crate::order::lemma_seq_lt_three(a.file, b.file, c.file);
    }
    assert forall|a: UsageModel, b: UsageModel, c: UsageModel|
        #[trigger] usage_order()(a, b) implies #[trigger] usage_order()(a, c) || usage_order()(c, b) by {
        crate::order::lemma_seq_lt_three(a.endpoint_id, b.endpoint_id, c.endpoint_id);
        crate::order::lemma_seq_lt_three(a.file, b.file, c.file);
    }
}

/// Summaries are compared by endpoint id: a strict weak order.
pub proof fn lemma_summary_order_weak()
    ensures
        crate::order::strict_weak(summary_id_order()),
{
    assert forall|a: EndpointSummaryModel| !#[trigger] summary_id_order()(a, a) by {
        crate::order::lemma_seq_lt_three(a.endpoint_id, a.endpoint_id, a.endpoint_id);
    }
    assert forall|a: EndpointSummaryModel, b: EndpointSummaryModel, c: EndpointSummaryModel|
        #[trigger] summary_id_order()(a, b) && #[trigger] summary_id_order()(b, c) implies summary_id_order()(a, c) by {
        crate::order::lemma_seq_lt_three(a.endpoint_id, b.endpoint_id, c.endpoint_id);
    }
    assert forall|a: EndpointSummaryModel, b: EndpointSummaryModel, c: EndpointSummaryModel|
        #[trigger] summary_id_order()(a, b) implies #[trigger] summary_id_order()(a, c) || summary_id_order()(c, b) by {
        crate::order::lemma_seq_lt_three(a.endpoint_id, b.endpoint_id, c.endpoint_id);
    }
}

/// The usage index holds one summary per contract endpoint, each summary
/// counting by strength the usages of its endpoint among the index's own
/// usages, and those usages are the ones the semantic scan and the line
/// scan found, reordered and each kept as often as it was found; summaries
/// come sorted by endpoint id, usages by endpoint id, file, line and column.
pub proof fn lemma_index_summaries(
    contract: ApiContractModel,
    contract_json: Seq<u8>,
    files: Seq<TypeScriptSourceFile>,
    given: Seq<DiagnosticModel>,
    invalid: Seq<Seq<char>>,
    unknown: Seq<Seq<char>>,
    scan: ScanModel,
)
    ensures
        ({
            let idx = spec_index(contract, contract_json, files, given, invalid, unknown, scan);
            let accessors = spec_accessors(contract.endpoints);
            &&& idx.endpoints.len() == contract.endpoints.len()
            &&& idx.endpoints.to_multiset() =~= accessors.map_values(
                |a: AccessorModel| spec_summary(a, idx.usages),
            ).to_multiset()
            &&& forall|i: int| 0 <= i < idx.endpoints.len() ==> exists|j: int|
                0 <= j < accessors.len() && #[trigger] idx.endpoints[i] == spec_summary(accessors[j], idx.usages)
            &&& idx.usages.to_multiset() =~= spec_files_fold(
                files,
                accessors,
                spec_reference_usages(scan.references, scan.diagnostics + given, invalid, unknown),
            ).to_multiset()
            &&& crate::order::sorted_by(idx.endpoints, summary_id_order())
            &&& crate::order::sorted_by(idx.usages, usage_order())
        }),
{
    lemma_usage_order_weak();
    lemma_summary_order_weak();
    broadcast use vstd::seq_lib::group_to_multiset_ensures;
    let idx = spec_index(contract, contract_json, files, given, invalid, unknown, scan);
    let accessors = spec_accessors(contract.endpoints);
    let found = spec_files_fold(
        files,
        accessors,
        spec_reference_usages(scan.references, scan.diagnostics + given, invalid, unknown),
    );
    let sums = accessors.map_values(|a: AccessorModel| spec_summary(a, idx.usages));
    crate::order::lemma_sort_permutes(found, usage_order());
    crate::order::lemma_sort_permutes(sums, summary_id_order());
    crate::order::lemma_sort_elems(sums, summary_id_order());
    crate::order::lemma_sort_sorted_weak(found, usage_order());
    crate::order::lemma_sort_sorted_weak(sums, summary_id_order());
    assert forall|i: int| 0 <= i < idx.endpoints.len() implies exists|j: int|
        0 <= j < accessors.len() && #[trigger] idx.endpoints[i] == spec_summary(accessors[j], idx.usages) by {
        assert(sums.contains(idx.endpoints[i]));
        let j = choose|j: int| 0 <= j < sums.len() && sums[j] == idx.endpoints[i];
        assert(sums[j] == spec_summary(accessors[j], idx.usages));
    }
}

fn endpoint_accessors(endpoints: &Vec<Endpoint>) -> (r: Vec<EndpointAccessor>)
    ensures
        accessors_view(r@) == spec_accessors(endpoints_view(endpoints@)),
{
    let mut out: Vec<EndpointAccessor> = Vec::new();
    for i in 0..endpoints.len()
        invariant
            out@.len() == i,
            forall|j: int| 0 <= j < i ==> #[trigger] out@[j]@ == spec_accessor(endpoints@[j]@),
    {
        out.push(EndpointAccessor::from_endpoint(&endpoints[i]));
    }
    assert(accessors_view(out@) =~= spec_accessors(endpoints_view(endpoints@)));
    out
}

fn reference_usages(
    refs: &Vec<SemanticEndpointReference>,
    all: &Vec<EffectUsageDiagnostic>,
    rules: &EffectUsageDiagnosticCodeRules,
) -> (r: Vec<EndpointUsage>)
    ensures
        usages_view(r@) == spec_reference_usages(
            refs@,
            diags_view(all@),
            strings_view(rules.invalid@),
            strings_view(rules.unknown@),
        ),
{
    let ghost target = spec_reference_usages(
        refs@,
        diags_view(all@),
        strings_view(rules.invalid@),
        strings_view(rules.unknown@),
    );
    let mut out: Vec<EndpointUsage> = Vec::new();
    for i in 0..refs.len()
        invariant
            out@.len() == i,
            target.len() == refs@.len(),
            target == spec_reference_usages(
                refs@,
                diags_view(all@),
                strings_view(rules.invalid@),
                strings_view(rules.unknown@),
            ),
            forall|j: int| 0 <= j < i ==> #[trigger] out@[j]@ == target[j],
    {
        out.push(usage_from_reference(&refs[i], all, rules));
    }
    assert(usages_view(out@) =~= target);
    out
}

fn summarize_all(accessors: &Vec<EndpointAccessor>, usages: &Vec<EndpointUsage>) -> (r: Vec<EndpointUsageSummary>)
    ensures
        endpoint_summaries_view(r@) == accessors_view(accessors@).map_values(
            |a: AccessorModel| spec_summary(a, usages_view(usages@)),
        ),
{
    let mut out: Vec<EndpointUsageSummary> = Vec::new();
    for i in 0..accessors.len()
        invariant
            out@.len() == i,
            forall|j: int| 0 <= j < i ==> #[trigger] out@[j]@ == spec_summary(accessors@[j]@, usages_view(usages@)),
    {
        out.push(summarize(&accessors[i], usages));
    }
    assert(endpoint_summaries_view(out@) =~= accessors_view(accessors@).map_values(
        |a: AccessorModel| spec_summary(a, usages_view(usages@)),
    ));
    out
}

fn all_diagnostics(scanned: &Vec<EffectUsageDiagnostic>, given: &Vec<EffectUsageDiagnostic>) -> (r: Vec<EffectUsageDiagnostic>)
    ensures
        diags_view(r@) == diags_view(scanned@) + diags_view(given@),
{
    let mut out = clone_diagnostics(scanned);
    for i in 0..given.len()
        invariant
            diags_view(out@) == diags_view(scanned@) + diags_view(given@).take(i as int),
    {
        let ghost before = diags_view(out@);
        out.push(given[i].clone());
        assert(diags_view(out@) =~= before.push(given@[i as int]@));
        assert(diags_view(given@).take(i + 1) =~= diags_view(given@).take(i as int).push(given@[i as int]@));
    }
    assert(diags_view(given@).take(given@.len() as int) =~= diags_view(given@));
    out
}

#[verifier::rlimit(40)]
fn add_all_import_only_usages(
    files: &Vec<TypeScriptSourceFile>,
    accessors: &Vec<EndpointAccessor>,
    usages: &mut Vec<EndpointUsage>,
)
    ensures
        usages_view(final(usages)@) == spec_files_fold(files@, accessors_view(accessors@), usages_view(old(usages)@)),
{
    let ghost start = usages_view(usages@);
    for i in 0..files.len()
        invariant
            usages_view(usages@) == spec_files_fold(files@.take(i as int), accessors_view(accessors@), start),
    {
        assert(files@.take(i + 1).drop_last() =~= files@.take(i as int));
        let pairs = import_aliases(&files[i]);
        add_import_only_usages(&files[i], accessors, &pairs, usages);
    }
    assert(files@.take(files@.len() as int) =~= files@);
}

/// Builds the usage index of `contract` over `files` from what a semantic
/// scan of them reported (`scan`, ignored when there are no files) and the
/// caller's diagnostics: the contract's hash from its serialized form
/// `contract_json`, the sources' hashes, each reported reference classified
/// by the diagnostics that cover it and the configured codes, import-only
/// usages for the namespaces imported without a usage, and per-endpoint
/// counters.
#[verifier::rlimit(40)]
pub fn build_usage_index(
    contract: &ApiContract,
    contract_json: &[u8],
    files: &Vec<TypeScriptSourceFile>,
    diagnostics: &Vec<EffectUsageDiagnostic>,
    config: &EffectUsageScanConfig,
    scan: &SemanticScannerOutput,
) -> (r: EffectUsageIndex)
    ensures
        r@ == spec_index(
            contract@,
            contract_json@,
            files@,
            diags_view(diagnostics@),
            strings_view(config.diagnostic_codes.invalid@),
            strings_view(config.diagnostic_codes.unknown@),
            if files@.len() == 0 { empty_scan() } else { scan@ },
        ),
{
    let ghost scan_model = if files@.len() == 0 { empty_scan() } else { scan@ };
    let accessors = endpoint_accessors(&contract.endpoints);
    let contract_hash = stable_hash(contract_json);
    let source_files = source_file_summaries(files);
    let ts_program_hash = hash_ts_program(&source_files);
    let empty_refs: Vec<SemanticEndpointReference> = Vec::new();
    let empty_error_refs: Vec<SemanticErrorReference> = Vec::new();
    let empty_field_refs: Vec<SemanticFieldReference> = Vec::new();
    let empty_diags: Vec<EffectUsageDiagnostic> = Vec::new();
    let none = files.len() == 0;
    let refs = if none { &empty_refs } else { &scan.references };
    let error_refs = if none { &empty_error_refs } else { &scan.error_references };
    let field_refs = if none { &empty_field_refs } else { &scan.field_references };
    let scanned = if none { &empty_diags } else { &scan.diagnostics };
    assert(refs@ == scan_model.references);
    assert(error_refs@ == scan_model.error_references);
    assert(field_refs@ == scan_model.field_references);
    assert(diags_view(scanned@) == scan_model.diagnostics);
    let all = all_diagnostics(scanned, diagnostics);
    let mut usages = reference_usages(refs, &all, &config.diagnostic_codes);
    let error_usages = error_usages(error_refs, &all);
    let field_usages = field_usages(field_refs, &all);
    add_all_import_only_usages(files, &accessors, &mut usages);
    let usages = sort_usages(usages);
    let endpoints = sort_summaries(summarize_all(&accessors, &usages));
    let r = EffectUsageIndex {
        schema_version: EFFECT_USAGE_INDEX_SCHEMA_VERSION,
        contract_hash,
        ts_program_hash,
        source_files,
        package_name: contract.package_name.clone(),
        endpoints,
        usages,
        error_usages,
        field_usages,
        diagnostics: all,
    };
    assert(r.error_usages@.map_values(|u: ErrorUsage| u@) =~= scan_model.error_references.map_values(
        |x: SemanticErrorReference| spec_error_usage(x, diags_view(r.diagnostics@)),
    ));
    assert(r.field_usages@.map_values(|u: FieldUsage| u@) =~= scan_model.field_references.map_values(
        |x: SemanticFieldReference| spec_field_usage(x, diags_view(r.diagnostics@)),
    ));
    r
}

/// The message of a failure to serialize the contract for hashing.
pub open spec fn spec_hash_error(e: Seq<char>) -> Seq<char> {
    "failed to hash API contract: "@ + e
}

/// The model of a serialized contract, or of the serializer's error.
pub open spec fn json_result_view(r: Result<Vec<u8>, String>) -> Result<Seq<u8>, Seq<char>> {
    match r {
        Ok(bytes) => Ok(bytes@),
        Err(e) => Err(e@),
    }
}

/// The model of a semantic scan's report, or of its error.
pub open spec fn scan_result_view(r: Result<SemanticScannerOutput, String>) -> Result<ScanModel, Seq<char>> {
    match r {
        Ok(out) => Ok(out@),
        Err(e) => Err(e@),
    }
}

/// The model of a usage index, or of why it could not be built.
pub open spec fn index_result_view(r: Result<EffectUsageIndex, String>) -> Result<IndexModel, Seq<char>> {
    match r {
        Ok(index) => Ok(index@),
        Err(e) => Err(e@),
    }
}

/// What a usage scan gives: a serialization failure first; then a failed
/// scan, unless there are no files, for which no scan is needed; else the
/// usage index over what the scan reported.
pub open spec fn spec_scan_outcome(
    contract: ApiContractModel,
    contract_json: Result<Seq<u8>, Seq<char>>,
    files: Seq<TypeScriptSourceFile>,
    given: Seq<DiagnosticModel>,
    invalid: Seq<Seq<char>>,
    unknown: Seq<Seq<char>>,
    scan: Result<ScanModel, Seq<char>>,
) -> Result<IndexModel, Seq<char>> {
    match contract_json {
        Err(e) => Err(spec_hash_error(e)),
        Ok(bytes) => match scan {
            Err(e) => if files.len() == 0 {
                Ok(spec_index(contract, bytes, files, given, invalid, unknown, empty_scan()))
            } else {
                Err(e)
            },
            Ok(out) => Ok(
                spec_index(contract, bytes, files, given, invalid, unknown, if files.len() == 0 {
                    empty_scan()
                } else {
                    out
                }),
            ),
        },
    }
}

/// The usage index of `contract` over `files`, or why it could not be
/// built. `contract_json` is the contract's serialized form, or the
/// serializer's error; `scan` is what the semantic scan of `files` reported,
/// or its error. A serialization failure comes first; a failed scan fails
/// the index unless there are no files, for which no scan is needed.
pub fn try_scan_effect_usages_with_config(
    contract: &ApiContract,
    contract_json: Result<Vec<u8>, String>,
    files: &Vec<TypeScriptSourceFile>,
    diagnostics: &Vec<EffectUsageDiagnostic>,
    config: &EffectUsageScanConfig,
    scan: Result<SemanticScannerOutput, String>,
) -> (r: Result<EffectUsageIndex, String>)
    ensures
        index_result_view(r) == spec_scan_outcome(
            contract@,
            json_result_view(contract_json),
            files@,
            diags_view(diagnostics@),
            strings_view(config.diagnostic_codes.invalid@),
            strings_view(config.diagnostic_codes.unknown@),
            scan_result_view(scan),
        ),
{
    let bytes = match contract_json {
        Err(e) => {
            let mut m = "failed to hash API contract: ".to_owned();
            push_str(&mut m, e.as_str());
            return Err(m);
        },
        Ok(bytes) => bytes,
    };
    let out = match scan {
        Ok(out) => out,
        Err(e) => {
            if files.len() > 0 {
                return Err(e);
            }
            SemanticScannerOutput {
                references: Vec::new(),
                error_references: Vec::new(),
                field_references: Vec::new(),
                diagnostics: Vec::new(),
            }
        },
    };
    Ok(build_usage_index(contract, bytes.as_slice(), files, diagnostics, config, &out))
}

fn default_scan_config() -> (r: EffectUsageScanConfig)
    ensures
        r.diagnostic_codes.invalid@.len() == 0,
        r.diagnostic_codes.unknown@.len() == 0,
{
    EffectUsageScanConfig {
        diagnostic_codes: EffectUsageDiagnosticCodeRules { invalid: Vec::new(), unknown: Vec::new() },
    }
}

/// [`try_scan_effect_usages_with_config`] with no configured diagnostic
/// codes.
pub fn try_scan_effect_usages_with_diagnostics(
    contract: &ApiContract,
    contract_json: Result<Vec<u8>, String>,
    files: &Vec<TypeScriptSourceFile>,
    diagnostics: &Vec<EffectUsageDiagnostic>,
    scan: Result<SemanticScannerOutput, String>,
) -> (r: Result<EffectUsageIndex, String>)
    ensures
        index_result_view(r) == spec_scan_outcome(
            contract@,
            json_result_view(contract_json),
            files@,
            diags_view(diagnostics@),
            Seq::empty(),
            Seq::empty(),
            scan_result_view(scan),
        ),
{
    let config = default_scan_config();
    assert(strings_view(config.diagnostic_codes.invalid@) =~= Seq::empty());
    assert(strings_view(config.diagnostic_codes.unknown@) =~= Seq::empty());
    try_scan_effect_usages_with_config(contract, contract_json, files, diagnostics, &config, scan)
}

/// [`try_scan_effect_usages_with_diagnostics`] with no caller diagnostics.
pub fn try_scan_effect_usages(
    contract: &ApiContract,
    contract_json: Result<Vec<u8>, String>,
    files: &Vec<TypeScriptSourceFile>,
    scan: Result<SemanticScannerOutput, String>,
) -> (r: Result<EffectUsageIndex, String>)
    ensures
        index_result_view(r) == spec_scan_outcome(
            contract@,
            json_result_view(contract_json),
            files@,
            Seq::empty(),
            Seq::empty(),
            Seq::empty(),
            scan_result_view(scan),
        ),
{
    let none: Vec<EffectUsageDiagnostic> = Vec::new();
    assert(diags_view(none@) =~= Seq::empty());
    try_scan_effect_usages_with_diagnostics(contract, contract_json, files, &none, scan)
}

/// The usage index of `contract` over `files`, given the contract's
/// serialized form and what the semantic scan reported, with caller
/// diagnostics and no configured codes.
pub fn scan_effect_usages_with_diagnostics(
    contract: &ApiContract,
    contract_json: &[u8],
    files: &Vec<TypeScriptSourceFile>,
    diagnostics: &Vec<EffectUsageDiagnostic>,
    scan: &SemanticScannerOutput,
) -> (r: EffectUsageIndex)
    ensures
        r@ == spec_index(
            contract@,
            contract_json@,
            files@,
            diags_view(diagnostics@),
            Seq::empty(),
            Seq::empty(),
            if files@.len() == 0 { empty_scan() } else { scan@ },
        ),
{
    let config = default_scan_config();
    assert(strings_view(config.diagnostic_codes.invalid@) =~= Seq::empty());
    assert(strings_view(config.diagnostic_codes.unknown@) =~= Seq::empty());
    build_usage_index(contract, contract_json, files, diagnostics, &config, scan)
}

/// The usage index of `contract` over `files`, given the contract's
/// serialized form and what the semantic scan reported.
pub fn scan_effect_usages(
    contract: &ApiContract,
    contract_json: &[u8],
    files: &Vec<TypeScriptSourceFile>,
    scan: &SemanticScannerOutput,
) -> (r: EffectUsageIndex)
    ensures
        r@ == spec_index(
            contract@,
            contract_json@,
            files@,
            Seq::empty(),
            Seq::empty(),
            Seq::empty(),
            if files@.len() == 0 { empty_scan() } else { scan@ },
        ),
{
    let none: Vec<EffectUsageDiagnostic> = Vec::new();
    assert(diags_view(none@) =~= Seq::empty());
    scan_effect_usages_with_diagnostics(contract, contract_json, files, &none, scan)
}

} // verus!
