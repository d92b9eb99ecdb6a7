//! The generated package: its manifest, barrel, path mapping and the
//! complete set of generated files.

use vstd::prelude::*;
use crate::gen::endpoints::{render_tracked_endpoints, spec_endpoints_marks, spec_endpoints_text};
use crate::gen::errors::{render_tracked_errors, spec_errors_marks, spec_errors_text};
use crate::gen::layer::{render_tracked_layer, spec_layer_marks, spec_layer_text};
use crate::gen::schemas::{
    render_package_banner, render_tracked_schemas, spec_banner, spec_schemas_marks, spec_schemas_text,
};
use crate::gen::text::{spec_trim_blank_lines, spec_ts_string, ts_string};
use crate::gen::writer::{file_marks, GeneratedFile, GeneratedMark, MarkModel, marks_view};
use crate::ir::{ApiContract, ApiContractModel};
use crate::order::{seq_lt, sort_by, spec_sort, str_eq, str_lt};
use crate::text::{chars_of, push_char, push_str};

verus! {

/// The Effect version the generated package depends on.
pub const EFFECT_VERSION: &'static str = "4.0.0-beta.78";

/// Whether a character is kept as is in a package directory name.
pub open spec fn is_dir_name_char(c: char) -> bool {
    ('a' <= c && c <= 'z') || ('A' <= c && c <= 'Z') || ('0' <= c && c <= '9') || c == '-' || c
        == '_' || c == '.'
}

/// A package name with every other character replaced by `_`.
pub open spec fn spec_sanitize(name: Seq<char>) -> Seq<char> {
    name.map_values(|c: char| if is_dir_name_char(c) { c } else { '_' })
}

/// Makes a package name safe to use as one directory name.
pub fn sanitize_package_dir_name(package_name: &str) -> (r: String)
    ensures
        r@ == spec_sanitize(package_name@),
{
    let chars = chars_of(package_name);
    let mut out = String::new();
    for i in 0..chars.len()
        invariant
            chars@ == package_name@,
            out@ == spec_sanitize(package_name@.take(i as int)),
    {
        let c = chars[i];
        let keep = ('a' <= c && c <= 'z') || ('A' <= c && c <= 'Z') || ('0' <= c && c <= '9') || c
            == '-' || c == '_' || c == '.';
        push_char(&mut out, if keep { c } else { '_' });
        assert(out@ =~= spec_sanitize(package_name@.take(i + 1)));
    }
    assert(package_name@.take(chars@.len() as int) =~= package_name@);
    out
}

/// `base` joined with a relative `segment` by one `/`.
pub open spec fn spec_join_path(base: Seq<char>, segment: Seq<char>) -> Seq<char> {
    if base.len() == 0 {
        segment
    } else if base.last() == '/' {
        base + segment
    } else {
        base + seq!['/'] + segment
    }
}

/// Joins a relative path segment onto a directory path.
pub fn join_path(base: &str, segment: &str) -> (r: String)
    ensures
        r@ == spec_join_path(base@, segment@),
{
    let chars = chars_of(base);
    let mut out = base.to_owned();
    if chars.len() > 0 && chars[chars.len() - 1] != '/' {
        push_char(&mut out, '/');
    }
    push_str(&mut out, segment);
    out
}

/// The cache directory of the generated package for `package_name`.
pub open spec fn spec_package_dir(target_dir: Seq<char>, package_name: Seq<char>) -> Seq<char> {
    spec_join_path(
        spec_join_path(
            spec_join_path(spec_join_path(target_dir, "api-contract"@), "effect-v4"@),
            "packages"@,
        ),
        spec_sanitize(package_name),
    )
}

/// Cache path convention for hidden generated packages.
pub fn generated_package_dir(target_dir: &str, package_name: &str) -> (r: String)
    ensures
        r@ == spec_package_dir(target_dir@, package_name@),
{
    let a = join_path(target_dir, "api-contract");
    let b = join_path(a.as_str(), "effect-v4");
    let c = join_path(b.as_str(), "packages");
    let name = sanitize_package_dir_name(package_name);
    join_path(c.as_str(), name.as_str())
}

/// A path with backslashes written as forward slashes.
pub open spec fn spec_normalize_path(path: Seq<char>) -> Seq<char> {
    path.map_values(|c: char| if c == '\\' { '/' } else { c })
}

/// Writes a path with forward slashes only.
pub fn normalize_path(path: &str) -> (r: String)
    ensures
        r@ == spec_normalize_path(path@),
{
    let chars = chars_of(path);
    let mut out = String::new();
    for i in 0..chars.len()
        invariant
            chars@ == path@,
            out@ == spec_normalize_path(path@.take(i as int)),
    {
        let c = chars[i];
        push_char(&mut out, if c == '\\' { '/' } else { c });
        assert(out@ =~= spec_normalize_path(path@.take(i + 1)));
    }
    assert(path@.take(chars@.len() as int) =~= path@);
    out
}

/// The generated package manifest.
pub open spec fn spec_package_json(package_name: Seq<char>) -> Seq<char> {
    "{\n  \"name\": "@ + spec_ts_string(package_name)
        + ",\n  \"version\": \"0.0.0\",\n  \"private\": true,\n  \"type\": \"module\",\n  \"types\": \"./index.ts\",\n  \"exports\": {\n    \".\": \"./index.ts\",\n    \"./schemas\": \"./schemas.ts\",\n    \"./errors\": \"./errors.ts\",\n    \"./endpoints\": \"./endpoints.ts\",\n    \"./layer\": \"./layer.ts\"\n  },\n  \"dependencies\": {\n    \"@rust-ts-integration/effect-runtime\": \"0.0.0\",\n    \"effect\": "@
        + spec_ts_string(EFFECT_VERSION@) + "\n  }\n}\n"@
}

/// Renders the generated package manifest.
pub fn render_package_json(contract: &ApiContract) -> (r: String)
    ensures
        r@ == spec_package_json(contract.package_name@),
{
    let mut out = "{\n  \"name\": ".to_owned();
    push_str(&mut out, ts_string(contract.package_name.as_str()).as_str());
    push_str(
        &mut out,
        ",\n  \"version\": \"0.0.0\",\n  \"private\": true,\n  \"type\": \"module\",\n  \"types\": \"./index.ts\",\n  \"exports\": {\n    \".\": \"./index.ts\",\n    \"./schemas\": \"./schemas.ts\",\n    \"./errors\": \"./errors.ts\",\n    \"./endpoints\": \"./endpoints.ts\",\n    \"./layer\": \"./layer.ts\"\n  },\n  \"dependencies\": {\n    \"@rust-ts-integration/effect-runtime\": \"0.0.0\",\n    \"effect\": ",
    );
    push_str(&mut out, ts_string(EFFECT_VERSION).as_str());
    push_str(&mut out, "\n  }\n}\n");
    out
}

/// The generated public package barrel.
pub open spec fn spec_package_index(package_name: Seq<char>) -> Seq<char> {
    spec_banner(package_name) + "export * from \"./schemas\"\n"@ + "export * from \"./errors\"\n"@
        + "export * from \"./endpoints\"\n"@ + "export * from \"./layer\"\n"@
}

/// Renders the generated public package barrel.
pub fn render_package_index(contract: &ApiContract) -> (r: String)
    ensures
        r@ == spec_package_index(contract.package_name@),
{
    let mut output = render_package_banner(contract);
    push_str(&mut output, "export * from \"./schemas\"\n");
    push_str(&mut output, "export * from \"./errors\"\n");
    push_str(&mut output, "export * from \"./endpoints\"\n");
    push_str(&mut output, "export * from \"./layer\"\n");
    output
}

/// TypeScript path mapping metadata for a generated API package.
#[derive(Debug, PartialEq, Eq)]
pub struct TsconfigPaths {
    pub package_name: String,
    pub package_dir: String,
}

/// The `compilerOptions.paths` snippet that maps a package name to its
/// generated directory.
pub open spec fn spec_tsconfig_paths(package_name: Seq<char>, package_dir: Seq<char>) -> Seq<char> {
    let dir = spec_normalize_path(package_dir);
    "{\n  \"compilerOptions\": {\n    \"paths\": {\n      "@ + spec_ts_string(package_name)
        + ": [\n        "@ + spec_ts_string(dir + "/index.ts"@) + "\n      ],\n      "@
        + spec_ts_string(package_name + "/*"@) + ": [\n        "@ + spec_ts_string(dir + "/*"@)
        + "\n      ]\n    }\n  }\n}\n"@
}

/// Renders the `compilerOptions.paths` snippet for importing the hidden
/// package.
pub fn render_tsconfig_paths(paths: &TsconfigPaths) -> (r: String)
    ensures
        r@ == spec_tsconfig_paths(paths.package_name@, paths.package_dir@),
{
    let dir = normalize_path(paths.package_dir.as_str());
    let mut index_path = dir.clone();
    push_str(&mut index_path, "/index.ts");
    let mut package_glob = paths.package_name.clone();
    push_str(&mut package_glob, "/*");
    let mut dir_glob = dir.clone();
    push_str(&mut dir_glob, "/*");
    let mut out = "{\n  \"compilerOptions\": {\n    \"paths\": {\n      ".to_owned();
    push_str(&mut out, ts_string(paths.package_name.as_str()).as_str());
    push_str(&mut out, ": [\n        ");
    push_str(&mut out, ts_string(index_path.as_str()).as_str());
    push_str(&mut out, "\n      ],\n      ");
    push_str(&mut out, ts_string(package_glob.as_str()).as_str());
    push_str(&mut out, ": [\n        ");
    push_str(&mut out, ts_string(dir_glob.as_str()).as_str());
    push_str(&mut out, "\n      ]\n    }\n  }\n}\n");
    out
}

/// Marks are ordered by file, kind, symbol id, then start position.
pub open spec fn mark_lt(a: MarkModel, b: MarkModel) -> bool {
    seq_lt(a.path, b.path) || (a.path == b.path && (seq_lt(a.kind, b.kind) || (a.kind == b.kind && (
    seq_lt(a.symbol_id, b.symbol_id) || (a.symbol_id == b.symbol_id && (a.range.start.line
        < b.range.start.line || (a.range.start.line == b.range.start.line
        && a.range.start.character < b.range.start.character)))))))
}

/// The order in which a package lists its marks.
pub open spec fn mark_order() -> spec_fn(MarkModel, MarkModel) -> bool {
    |a: MarkModel, b: MarkModel| mark_lt(a, b)
}

/// Compares two marks by file, kind, symbol id, then start position.
pub fn mark_key_lt(a: &GeneratedMark, b: &GeneratedMark) -> (r: bool)
    ensures
        r == mark_lt(a@, b@),
{
    if str_lt(a.path.as_str(), b.path.as_str()) {
        return true;
    }
    if !str_eq(a.path.as_str(), b.path.as_str()) {
        return false;
    }
    if str_lt(a.kind.as_str(), b.kind.as_str()) {
        return true;
    }
    if !str_eq(a.kind.as_str(), b.kind.as_str()) {
        return false;
    }
    if str_lt(a.symbol_id.as_str(), b.symbol_id.as_str()) {
        return true;
    }
    if !str_eq(a.symbol_id.as_str(), b.symbol_id.as_str()) {
        return false;
    }
    a.range.start.line < b.range.start.line || (a.range.start.line == b.range.start.line
        && a.range.start.character < b.range.start.character)
}

/// Sorts marks by file, kind, symbol id and start position, keeping equal
/// marks in order.
pub fn sort_marks(marks: Vec<GeneratedMark>) -> (r: Vec<GeneratedMark>)
    ensures
        marks_view(r@) == spec_sort(marks_view(marks@), mark_order()),
{
    let ghost slt = |a: GeneratedMark, b: GeneratedMark| mark_lt(a@, b@);
    let lt = |a: &GeneratedMark, b: &GeneratedMark| -> (o: bool)
        ensures
            o == mark_lt(a@, b@),
        { mark_key_lt(a, b) };
    let sorted = sort_by(marks, lt, Ghost(slt));
    proof {
        let f = |m: GeneratedMark| m@;
        crate::order::lemma_sort_map(marks@, f, slt, mark_order());
        assert(marks@.map_values(f) =~= marks_view(marks@));
        assert(sorted@.map_values(f) =~= marks_view(sorted@));
    }
    sorted
}

/// In-memory representation of the hidden generated TypeScript package.
#[derive(Debug, PartialEq, Eq)]
pub struct GeneratedPackage {
    pub package_dir: String,
    pub files: Vec<GeneratedFile>,
    pub marks: Vec<GeneratedMark>,
    pub tsconfig_paths: TsconfigPaths,
}

/// Whether `ms` is, sorted, the marks of the four generated modules of
/// `c` whose texts are `schemas`, `errors`, `endpoints` and `layer`: for
/// each module, marks that its renderer states for that text.
pub open spec fn package_marks(
    ms: Seq<MarkModel>,
    c: ApiContractModel,
    schemas: Seq<char>,
    errors: Seq<char>,
    endpoints: Seq<char>,
    layer: Seq<char>,
) -> bool {
    exists|a: Seq<MarkModel>, b: Seq<MarkModel>, d: Seq<MarkModel>, e: Seq<MarkModel>|
        #![trigger file_marks(a, "schemas.ts"@, schemas, spec_schemas_marks(c)), file_marks(b, "errors.ts"@, errors, spec_errors_marks(c)), file_marks(d, "endpoints.ts"@, endpoints, spec_endpoints_marks(c)), file_marks(e, "layer.ts"@, layer, spec_layer_marks(c))]
        {
            &&& file_marks(a, "schemas.ts"@, schemas, spec_schemas_marks(c))
            &&& file_marks(b, "errors.ts"@, errors, spec_errors_marks(c))
            &&& file_marks(d, "endpoints.ts"@, endpoints, spec_endpoints_marks(c))
            &&& file_marks(e, "layer.ts"@, layer, spec_layer_marks(c))
            &&& ms == spec_sort(a + b + d + e, mark_order())
        }
}

fn append_marks(all: &mut Vec<GeneratedMark>, marks: Vec<GeneratedMark>)
    ensures
        marks_view(final(all)@) == marks_view(old(all)@) + marks_view(marks@),
{
    let ghost start = marks_view(all@);
    let mut rest = marks;
    let mut taken: Vec<GeneratedMark> = Vec::new();
    let n = rest.len();
    let ghost orig = marks_view(rest@);
    while rest.len() > 0
        invariant
            taken@.len() + rest@.len() == n,
            orig.len() == n,
            forall|i: int| 0 <= i < rest@.len() ==> #[trigger] rest@[i]@ == orig[i],
            forall|i: int| 0 <= i < taken@.len() ==> #[trigger] taken@[i]@ == orig[n - 1 - i],
        decreases rest.len(),
    {
        let m = rest.pop().unwrap();
        taken.push(m);
    }
    let mut k: usize = 0;
    while taken.len() > 0
        invariant
            k + taken@.len() == n,
            orig.len() == n,
            forall|i: int| 0 <= i < taken@.len() ==> #[trigger] taken@[i]@ == orig[n - 1 - i],
            marks_view(all@) == start + orig.take(k as int),
        decreases taken.len(),
    {
        let m = taken.pop().unwrap();
        let ghost before = marks_view(all@);
        all.push(m);
        assert(marks_view(all@) =~= before.push(orig[k as int]));
        assert(orig.take(k + 1) =~= orig.take(k as int).push(orig[k as int]));
        k = k + 1;
    }
    assert(orig.take(n as int) =~= orig);
}

/// Builds the generated package files and resolver metadata without
/// writing them: the manifest, the barrel, the four generated modules and
/// the path mapping, with every marked symbol range sorted.
pub fn render_generated_package(contract: &ApiContract, target_dir: &str) -> (r: GeneratedPackage)
    ensures
        r.package_dir@ == spec_package_dir(target_dir@, contract.package_name@),
        r.tsconfig_paths.package_name@ == contract.package_name@,
        r.tsconfig_paths.package_dir@ == r.package_dir@,
        r.files@.len() == 7,
        r.files@[0].path@ == "package.json"@,
        r.files@[0].contents@ == spec_package_json(contract.package_name@),
        r.files@[1].path@ == "index.ts"@,
        r.files@[1].contents@ == spec_package_index(contract.package_name@),
        r.files@[2].path@ == "schemas.ts"@,
        r.files@[2].contents@ == spec_trim_blank_lines(spec_schemas_text(contract@)),
        r.files@[3].path@ == "errors.ts"@,
        r.files@[3].contents@ == spec_trim_blank_lines(spec_errors_text(contract@)),
        r.files@[4].path@ == "endpoints.ts"@,
        r.files@[4].contents@ == spec_trim_blank_lines(spec_endpoints_text(contract@)),
        r.files@[5].path@ == "layer.ts"@,
        r.files@[5].contents@ == spec_trim_blank_lines(spec_layer_text(contract@)),
        r.files@[6].path@ == "tsconfig.paths.json"@,
        r.files@[6].contents@ == spec_tsconfig_paths(
            contract.package_name@,
            spec_package_dir(target_dir@, contract.package_name@),
        ),
        package_marks(
            marks_view(r.marks@),
            contract@,
            r.files@[2].contents@,
            r.files@[3].contents@,
            r.files@[4].contents@,
            r.files@[5].contents@,
        ),
{
    let package_dir = generated_package_dir(target_dir, contract.package_name.as_str());
    let schemas = render_tracked_schemas(contract);
    let errors = render_tracked_errors(contract);
    let endpoints = render_tracked_endpoints(contract);
    let layer = render_tracked_layer(contract);
    let ghost ms_a = marks_view(schemas.marks@);
    let ghost ms_b = marks_view(errors.marks@);
    let ghost ms_d = marks_view(endpoints.marks@);
    let ghost ms_e = marks_view(layer.marks@);
    let mut marks: Vec<GeneratedMark> = Vec::new();
    append_marks(&mut marks, schemas.marks);
    append_marks(&mut marks, errors.marks);
    append_marks(&mut marks, endpoints.marks);
    append_marks(&mut marks, layer.marks);
    assert(marks_view(marks@) =~= ms_a + ms_b + ms_d + ms_e);
    let marks = sort_marks(marks);
    let paths = TsconfigPaths {
        package_name: contract.package_name.clone(),
        package_dir: package_dir.clone(),
    };
    let mut files: Vec<GeneratedFile> = Vec::new();
    files.push(GeneratedFile { path: "package.json".to_owned(), contents: render_package_json(contract) });
    files.push(GeneratedFile { path: "index.ts".to_owned(), contents: render_package_index(contract) });
    files.push(schemas.file);
    files.push(errors.file);
    files.push(endpoints.file);
    files.push(layer.file);
    files.push(
        GeneratedFile {
            path: "tsconfig.paths.json".to_owned(),
            contents: render_tsconfig_paths(&paths),
        },
    );
    assert(file_marks(ms_a, "schemas.ts"@, files@[2].contents@, spec_schemas_marks(contract@)));
    assert(file_marks(ms_b, "errors.ts"@, files@[3].contents@, spec_errors_marks(contract@)));
    assert(file_marks(ms_d, "endpoints.ts"@, files@[4].contents@, spec_endpoints_marks(contract@)));
    assert(file_marks(ms_e, "layer.ts"@, files@[5].contents@, spec_layer_marks(contract@)));
    GeneratedPackage {
        tsconfig_paths: TsconfigPaths {
            package_name: contract.package_name.clone(),
            package_dir: package_dir.clone(),
        },
        package_dir,
        files,
        marks,
    }
}

} // verus!
