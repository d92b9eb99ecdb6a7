//! What the gateway does with each message: which backend a message goes
//! to, how a client method is handled, how a backend message is relayed,
//! when a shutdown is answered and when the gateway stops.

use vstd::prelude::*;
use vstd::string::StringSliceAdditionalSpecFns;
use crate::ls::config::{is_generated_package_uri, spec_is_generated_uri, WorkspaceConfig};
use crate::ls::paths::{
    file_uri_decodable, is_continuation_byte, is_rust_uri, is_typescript_uri, percent_decode_safe,
    spec_is_rust_uri, spec_is_typescript_uri, uri_decodable,
};
use crate::order::str_eq;
use crate::naming::{ascii_lower, spec_ascii_lower};
use crate::text::{chars_of, decimal, push_char, push_decimal, push_str};

verus! {

/// JSON-RPC error code of a request with invalid parameters.
pub const INVALID_PARAMS: i64 = -32602;

/// JSON-RPC error code of a method with no handler.
pub const METHOD_NOT_FOUND: i64 = -32601;

/// Error code of a request whose backend is not running.
pub const BACKEND_UNAVAILABLE: i64 = -32003;

/// Error code of a request that needs an initialized gateway.
pub const NOT_INITIALIZED: i64 = -32000;

/// The two language servers behind the gateway.
#[derive(Clone, Copy, Debug, PartialEq, Eq, Structural)]
pub enum BackendKind {
    Rust,
    TypeScript,
}

/// How a backend is named in messages.
pub open spec fn spec_display_name(kind: BackendKind) -> Seq<char> {
    match kind {
        BackendKind::Rust => "rust-analyzer"@,
        BackendKind::TypeScript => "TypeScript/Effect"@,
    }
}

/// How a backend is named in request ids sent to the client.
pub open spec fn spec_wire_label(kind: BackendKind) -> Seq<char> {
    match kind {
        BackendKind::Rust => "rust-analyzer"@,
        BackendKind::TypeScript => "typescript-effect"@,
    }
}

impl BackendKind {
    /// How the backend is named in messages.
    pub fn display_name(self) -> (r: &'static str)
        ensures
            r@ == spec_display_name(self),
    {
        match self {
            BackendKind::Rust => "rust-analyzer",
            BackendKind::TypeScript => "TypeScript/Effect",
        }
    }

    /// How the backend is named in request ids sent to the client.
    pub fn wire_label(self) -> (r: &'static str)
        ensures
            r@ == spec_wire_label(self),
    {
        match self {
            BackendKind::Rust => "rust-analyzer",
            BackendKind::TypeScript => "typescript-effect",
        }
    }
}

/// Whether a text starts with a prefix.
pub open spec fn starts_with(s: Seq<char>, prefix: Seq<char>) -> bool {
    prefix.len() <= s.len() && s.take(prefix.len() as int) == prefix
}

/// Whether a string starts with a prefix.
pub fn str_starts_with(s: &str, prefix: &str) -> (r: bool)
    ensures
        r == starts_with(s@, prefix@),
{
    let a = chars_of(s);
    let b = chars_of(prefix);
    if b.len() > a.len() {
        return false;
    }
    let mut i: usize = 0;
    while i < b.len()
        invariant
            a@ == s@,
            b@ == prefix@,
            b@.len() <= a@.len(),
            i <= b@.len(),
            forall|j: int| 0 <= j < i ==> a@[j] == b@[j],
        decreases b@.len() - i,
    {
        if a[i] != b[i] {
            proof {
                assert(s@.take(prefix@.len() as int)[i as int] != prefix@[i as int]);
            }
            return false;
        }
        i = i + 1;
    }
    proof {
        assert(s@.take(prefix@.len() as int) =~= prefix@);
    }
    true
}

/// A message is for rust-analyzer when its method is a rust-analyzer
/// extension or it names a Rust source file.
pub open spec fn spec_is_rust_message(method: Seq<char>, uris: Seq<Seq<char>>) -> bool {
    starts_with(method, "rust-analyzer/"@) || exists|i: int| 0 <= i < uris.len() && spec_is_rust_uri(#[trigger] uris[i])
}

/// A message is for the TypeScript backend when its method is a
/// TypeScript extension or it names a TypeScript source or a generated file.
pub open spec fn spec_is_typescript_message(
    workspace: Option<WorkspaceConfig>,
    method: Seq<char>,
    uris: Seq<Seq<char>>,
) -> bool {
    starts_with(method, "typescript/"@) || exists|i: int|
        0 <= i < uris.len() && (spec_is_typescript_uri(#[trigger] uris[i]) || spec_is_generated_uri(workspace, uris[i]))
}

/// The backend a message goes to: rust-analyzer first, then TypeScript.
pub open spec fn spec_route(workspace: Option<WorkspaceConfig>, method: Seq<char>, uris: Seq<Seq<char>>) -> Option<BackendKind> {
    if spec_is_rust_message(method, uris) {
        Some(BackendKind::Rust)
    } else if spec_is_typescript_message(workspace, method, uris) {
        Some(BackendKind::TypeScript)
    } else {
        None
    }
}

/// Whether the scan for a TypeScript document from `i` on decodes only
/// URIs that decode: a URI is decoded, to compare it with the generated
/// cache, when it is not a TypeScript source and a workspace is known; the
/// scan stops at the first TypeScript or generated document.
pub open spec fn spec_ts_scan_defined(workspace: Option<WorkspaceConfig>, uris: Seq<Seq<char>>, i: int) -> bool
    decreases uris.len() - i,
{
    if i < 0 || i >= uris.len() {
        true
    } else if spec_is_typescript_uri(uris[i]) {
        true
    } else if workspace is Some && !uri_decodable(uris[i]) {
        false
    } else if spec_is_generated_uri(workspace, uris[i]) {
        true
    } else {
        spec_ts_scan_defined(workspace, uris, i + 1)
    }
}

/// Whether routing a message decodes only URIs that decode: routing stops
/// before the TypeScript scan for a rust-analyzer message or a TypeScript
/// extension method.
pub open spec fn spec_route_defined(workspace: Option<WorkspaceConfig>, method: Seq<char>, uris: Seq<Seq<char>>) -> bool {
    spec_is_rust_message(method, uris) || starts_with(method, "typescript/"@) || spec_ts_scan_defined(workspace, uris, 0)
}

/// Picks the backend for a message from its method and the document URIs
/// that its parameters name.
pub fn route_backend(workspace: &Option<WorkspaceConfig>, method: &str, uris: &Vec<String>) -> (r: Option<BackendKind>)
    requires
        spec_route_defined(*workspace, method@, uris@.map_values(|u: String| u@)),
    ensures
        r == spec_route(*workspace, method@, uris@.map_values(|u: String| u@)),
{
    let ghost us = uris@.map_values(|u: String| u@);
    let mut rust = str_starts_with(method, "rust-analyzer/");
    let mut i: usize = 0;
    while i < uris.len() && !rust
        invariant
            us == uris@.map_values(|u: String| u@),
            i <= uris@.len(),
            rust ==> spec_is_rust_message(method@, us),
            !rust ==> !starts_with(method@, "rust-analyzer/"@),
            !rust ==> forall|j: int| 0 <= j < i ==> !spec_is_rust_uri(#[trigger] us[j]),
        decreases uris@.len() - i,
    {
        if is_rust_uri(uris[i].as_str()) {
            proof {
                assert(us[i as int] == uris@[i as int]@);
            }
            rust = true;
        }
        proof {
            assert(us[i as int] == uris@[i as int]@);
        }
        i = i + 1;
    }
    if rust {
        return Some(BackendKind::Rust);
    }
    let mut ts = str_starts_with(method, "typescript/");
    let mut k: usize = 0;
    while k < uris.len() && !ts
        invariant
            us == uris@.map_values(|u: String| u@),
            !spec_is_rust_message(method@, us),
            spec_route_defined(*workspace, method@, us),
            !ts ==> spec_ts_scan_defined(*workspace, us, 0) == spec_ts_scan_defined(*workspace, us, k as int),
            k <= uris@.len(),
            ts ==> spec_is_typescript_message(*workspace, method@, us),
            !ts ==> !starts_with(method@, "typescript/"@),
            !ts ==> forall|j: int| 0 <= j < k ==> !(spec_is_typescript_uri(#[trigger] us[j]) || spec_is_generated_uri(*workspace, us[j])),
        decreases uris@.len() - k,
    {
        proof {
            assert(us[k as int] == uris@[k as int]@);
        }
        if is_typescript_uri(uris[k].as_str()) || is_generated_package_uri(workspace, uris[k].as_str()) {
            ts = true;
        }
        k = k + 1;
    }
    if ts {
        Some(BackendKind::TypeScript)
    } else {
        None
    }
}

/// Whether routing a message decodes only URIs that decode; the gateway
/// checks it before routing.
pub fn route_defined(workspace: &Option<WorkspaceConfig>, method: &str, uris: &Vec<String>) -> (r: bool)
    ensures
        r == spec_route_defined(*workspace, method@, uris@.map_values(|u: String| u@)),
{
    let ghost us = uris@.map_values(|u: String| u@);
    if str_starts_with(method, "rust-analyzer/") || str_starts_with(method, "typescript/") {
        return true;
    }
    let mut i: usize = 0;
    while i < uris.len()
        invariant
            us == uris@.map_values(|u: String| u@),
            i <= uris@.len(),
            forall|j: int| 0 <= j < i ==> !spec_is_rust_uri(#[trigger] us[j]),
        decreases uris@.len() - i,
    {
        proof {
            assert(us[i as int] == uris@[i as int]@);
        }
        if is_rust_uri(uris[i].as_str()) {
            return true;
        }
        i = i + 1;
    }
    let mut k: usize = 0;
    while k < uris.len()
        invariant
            us == uris@.map_values(|u: String| u@),
            k <= uris@.len(),
            !starts_with(method@, "rust-analyzer/"@),
            !starts_with(method@, "typescript/"@),
            forall|j: int| 0 <= j < us.len() ==> !spec_is_rust_uri(#[trigger] us[j]),
            spec_ts_scan_defined(*workspace, us, 0) == spec_ts_scan_defined(*workspace, us, k as int),
        decreases uris@.len() - k,
    {
        proof {
            assert(us[k as int] == uris@[k as int]@);
        }
        if is_typescript_uri(uris[k].as_str()) {
            return true;
        }
        if workspace.is_some() && !uri_is_decodable(uris[k].as_str()) {
            return false;
        }
        if is_generated_package_uri(workspace, uris[k].as_str()) {
            return true;
        }
        k = k + 1;
    }
    true
}

/// Whether every URI decodes; the gateway relies on it before routing.
pub fn uri_is_decodable(uri: &str) -> (r: bool)
    ensures
        r == uri_decodable(uri@),
{
    let b = uri.as_bytes();
    let n = b.len();
    let scheme = n >= 7 && b[0] == 0x66 && b[1] == 0x69 && b[2] == 0x6c && b[3] == 0x65 && b[4] == 0x3a
        && b[5] == 0x2f && b[6] == 0x2f;
    proof {
        assert(scheme == crate::ls::paths::has_file_scheme(b@)) by {
            if n >= 7 {
                assert(b@.take(7) =~= crate::ls::paths::file_scheme() <==> (b@[0] == 0x66 && b@[1] == 0x69
                    && b@[2] == 0x6c && b@[3] == 0x65 && b@[4] == 0x3a && b@[5] == 0x2f && b@[6] == 0x2f)) by {
                    if b@.take(7) == crate::ls::paths::file_scheme() {
                        assert(b@.take(7)[0] == 0x66);
                        assert(b@.take(7)[1] == 0x69);
                        assert(b@.take(7)[2] == 0x6c);
                        assert(b@.take(7)[3] == 0x65);
                        assert(b@.take(7)[4] == 0x3a);
                        assert(b@.take(7)[5] == 0x2f);
                        assert(b@.take(7)[6] == 0x2f);
                    }
                }
            }
        }
    }
    if !scheme {
        return true;
    }
    let ghost rest = b@.skip(7);
    let mut i: usize = 7;
    while i < n
        invariant
            n == b@.len(),
            b@ == uri.spec_bytes(),
            crate::ls::paths::has_file_scheme(b@),
            7 <= i <= n,
            rest == b@.skip(7),
            forall|j: int| 0 <= j && j + 7 < i && j + 3 < rest.len() && rest[j] == 0x25 ==> !is_continuation_byte(#[trigger] rest[j + 3]),
        decreases n - i,
    {
        if b[i] == 0x25 && 3 < n - i && 0x80 <= b[i + 3] && b[i + 3] < 0xC0 {
            proof {
                assert(b@ == uri.spec_bytes());
                assert(rest[i - 7] == 0x25);
                assert(rest[(i - 7) + 3] == b@[i + 3]);
                assert(!percent_decode_safe(rest));
            }
            return false;
        }
        proof {
            assert(rest[i - 7] == b@[i as int]);
            if i + 3 < n {
                assert(rest[(i - 7) + 3] == b@[i + 3]);
            }
        }
        i = i + 1;
    }
    proof {
        assert(percent_decode_safe(rest));
    }
    true
}

/// A header line of the protocol's framing.
#[derive(Debug, PartialEq, Eq)]
pub enum HeaderLine {
    /// The blank line that ends the headers.
    End,
    /// A line without `:`, as read (without its line ending).
    Malformed(String),
    /// The `Content-Length` header, with its value as written.
    ContentLength(String),
    /// Another header.
    Other,
}

/// A line without the carriage returns and line feeds at its end.
pub open spec fn spec_trim_line_end(s: Seq<char>) -> Seq<char>
    decreases s.len(),
{
    if s.len() > 0 && (s.last() == '\r' || s.last() == '\n') {
        spec_trim_line_end(s.drop_last())
    } else {
        s
    }
}

/// The position of the first `:` of a text, if it has one.
pub open spec fn spec_first_colon(s: Seq<char>, i: int) -> Option<int>
    decreases s.len() - i,
{
    if i < 0 || i >= s.len() {
        None
    } else if s[i] == ':' {
        Some(i)
    } else {
        spec_first_colon(s, i + 1)
    }
}

/// Whether two texts are equal ignoring ASCII case.
pub open spec fn eq_ignore_ascii_case(a: Seq<char>, b: Seq<char>) -> bool {
    a.len() == b.len() && forall|i: int| 0 <= i < a.len() ==> spec_ascii_lower(#[trigger] a[i]) == spec_ascii_lower(b[i])
}

/// What a header line says: the end of the headers when it is blank once
/// its line ending is dropped; else, split at its first `:`, the content
/// length when the name is `Content-Length` in any ASCII case, another
/// header, or a malformed line without `:`.
pub open spec fn spec_header_line(line: Seq<char>) -> (Seq<char>, Option<(Seq<char>, Seq<char>)>) {
    let header = spec_trim_line_end(line);
    match spec_first_colon(header, 0) {
        Some(i) => (header, Some((header.take(i), header.skip(i + 1)))),
        None => (header, None),
    }
}

/// The model of a header line.
pub open spec fn header_line_view(h: HeaderLine) -> Option<Option<Option<Seq<char>>>> {
    match h {
        HeaderLine::End => None,
        HeaderLine::Malformed(_) => Some(None),
        HeaderLine::ContentLength(v) => Some(Some(Some(v@))),
        HeaderLine::Other => Some(Some(None)),
    }
}

/// Reads a header line of the protocol's framing.
pub fn parse_header_line(line: &str) -> (r: HeaderLine)
    ensures
        ({
            let (header, split) = spec_header_line(line@);
            if header.len() == 0 {
                r == HeaderLine::End
            } else {
                match split {
                    None => r matches HeaderLine::Malformed(h) && h@ == header,
                    Some((name, value)) => if eq_ignore_ascii_case(name, "content-length"@) {
                        r matches HeaderLine::ContentLength(v) && v@ == value
                    } else {
                        r == HeaderLine::Other
                    },
                }
            }
        }),
{
    let chars = chars_of(line);
    let mut end = chars.len();
    proof {
        assert(line@.take(end as int) =~= line@);
    }
    while end > 0 && (chars[end - 1] == '\r' || chars[end - 1] == '\n')
        invariant
            chars@ == line@,
            end <= chars@.len(),
            spec_trim_line_end(line@) == spec_trim_line_end(line@.take(end as int)),
        decreases end,
    {
        proof {
            assert(line@.take(end as int).drop_last() =~= line@.take(end - 1));
        }
        end = end - 1;
    }
    let ghost header = line@.take(end as int);
    proof {
        assert(spec_trim_line_end(header) == header);
    }
    if end == 0 {
        return HeaderLine::End;
    }
    let mut colon: usize = 0;
    while colon < end && chars[colon] != ':'
        invariant
            chars@ == line@,
            end <= chars@.len(),
            header == line@.take(end as int),
            colon <= end,
            spec_first_colon(header, 0) == spec_first_colon(header, colon as int),
        decreases end - colon,
    {
        colon = colon + 1;
    }
    if colon == end {
        let mut h = String::new();
        let mut k: usize = 0;
        while k < end
            invariant
                chars@ == line@,
                end <= chars@.len(),
                k <= end,
                h@ == line@.take(k as int),
            decreases end - k,
        {
            push_char(&mut h, chars[k]);
            proof {
                assert(line@.take(k + 1) =~= line@.take(k as int).push(chars@[k as int]));
            }
            k = k + 1;
        }
        return HeaderLine::Malformed(h);
    }
    let name_len = colon;
    let target = chars_of("content-length");
    proof {
        reveal_strlit("content-length");
    }
    let mut same = name_len == target.len();
    let mut k: usize = 0;
    while same && k < name_len
        invariant
            chars@ == line@,
            target@ == "content-length"@,
            colon < end <= chars@.len(),
            name_len == colon,
            k <= name_len,
            same ==> name_len == target@.len(),
            same ==> forall|t: int| 0 <= t < k ==> spec_ascii_lower(#[trigger] header.take(colon as int)[t]) == spec_ascii_lower(target@[t]),
            !same ==> !eq_ignore_ascii_case(header.take(colon as int), target@),
            header == line@.take(end as int),
        decreases name_len - k,
    {
        proof {
            assert(header.take(colon as int)[k as int] == chars@[k as int]);
        }
        if ascii_lower(chars[k]) != ascii_lower(target[k]) {
            same = false;
        }
        k = k + 1;
    }
    if same {
        let mut v = String::new();
        let mut t: usize = colon + 1;
        while t < end
            invariant
                chars@ == line@,
                colon < end <= chars@.len(),
                colon + 1 <= t <= end,
                v@ == line@.subrange(colon + 1, t as int),
            decreases end - t,
        {
            push_char(&mut v, chars[t]);
            proof {
                assert(line@.subrange(colon + 1, t + 1) =~= line@.subrange(colon + 1, t as int).push(chars@[t as int]));
            }
            t = t + 1;
        }
        proof {
            assert(header.skip(colon + 1) =~= line@.subrange(colon + 1, end as int));
            assert(eq_ignore_ascii_case(header.take(colon as int), target@));
        }
        HeaderLine::ContentLength(v)
    } else {
        HeaderLine::Other
    }
}

/// How the gateway handles a client message that names a method.
#[derive(Clone, Copy, Debug, PartialEq, Eq, Structural)]
pub enum MethodPlan {
    /// Start both backends and answer the `initialize` request.
    Initialize,
    /// Pass `initialized` on to both backends and publish the unused
    /// endpoint diagnostics.
    Initialized,
    /// Send `shutdown` to the running backends.
    BeginShutdown,
    /// Remember that the client asked to exit.
    Exit,
    /// Answer with a file of the generated package cache.
    ReadGeneratedFile,
    /// Answer from the symbol graph, else as routed.
    Definition,
    References,
    Hover,
    PrepareRename,
    Rename,
    /// Forward the request to a backend.
    Forward(BackendKind),
    /// Answer that no handler exists.
    NoHandler,
    /// Forward the notification to a backend.
    Notify(BackendKind),
    /// Forward the notification to both backends.
    NotifyAll,
    /// Nothing to do (a request-only method sent without an id).
    Ignore,
}

/// How a client message with a method is handled, given whether it carries
/// an id and where its routing sends it.
pub open spec fn spec_plan_method(method: Seq<char>, has_id: bool, route: Option<BackendKind>) -> MethodPlan {
    if method == "initialize"@ {
        if has_id { MethodPlan::Initialize } else { MethodPlan::Ignore }
    } else if method == "initialized"@ {
        MethodPlan::Initialized
    } else if method == "shutdown"@ {
        if has_id { MethodPlan::BeginShutdown } else { MethodPlan::Ignore }
    } else if method == "exit"@ {
        MethodPlan::Exit
    } else if method == "api-ls/generatedPackageFile"@ {
        if has_id { MethodPlan::ReadGeneratedFile } else { MethodPlan::Ignore }
    } else if method == "textDocument/definition"@ {
        if has_id { MethodPlan::Definition } else { MethodPlan::Ignore }
    } else if method == "textDocument/references"@ {
        if has_id { MethodPlan::References } else { MethodPlan::Ignore }
    } else if method == "textDocument/hover"@ {
        if has_id { MethodPlan::Hover } else { MethodPlan::Ignore }
    } else if method == "textDocument/prepareRename"@ {
        if has_id { MethodPlan::PrepareRename } else { MethodPlan::Ignore }
    } else if method == "textDocument/rename"@ {
        if has_id { MethodPlan::Rename } else { MethodPlan::Ignore }
    } else if has_id {
        match route {
            Some(k) => MethodPlan::Forward(k),
            None => MethodPlan::NoHandler,
        }
    } else {
        match route {
            Some(k) => MethodPlan::Notify(k),
            None => MethodPlan::NotifyAll,
        }
    }
}

/// Decides how a client message with a method is handled.
pub fn plan_method_message(method: &str, has_id: bool, route: Option<BackendKind>) -> (r: MethodPlan)
    ensures
        r == spec_plan_method(method@, has_id, route),
{
    let with_id = |plan: MethodPlan| -> (r: MethodPlan)
        ensures
            r == (if has_id { plan } else { MethodPlan::Ignore }),
        {
            if has_id {
                plan
            } else {
                MethodPlan::Ignore
            }
        };
    if str_eq(method, "initialize") {
        with_id(MethodPlan::Initialize)
    } else if str_eq(method, "initialized") {
        MethodPlan::Initialized
    } else if str_eq(method, "shutdown") {
        with_id(MethodPlan::BeginShutdown)
    } else if str_eq(method, "exit") {
        MethodPlan::Exit
    } else if str_eq(method, "api-ls/generatedPackageFile") {
        with_id(MethodPlan::ReadGeneratedFile)
    } else if str_eq(method, "textDocument/definition") {
        with_id(MethodPlan::Definition)
    } else if str_eq(method, "textDocument/references") {
        with_id(MethodPlan::References)
    } else if str_eq(method, "textDocument/hover") {
        with_id(MethodPlan::Hover)
    } else if str_eq(method, "textDocument/prepareRename") {
        with_id(MethodPlan::PrepareRename)
    } else if str_eq(method, "textDocument/rename") {
        with_id(MethodPlan::Rename)
    } else if has_id {
        match route {
            Some(k) => MethodPlan::Forward(k),
            None => MethodPlan::NoHandler,
        }
    } else {
        match route {
            Some(k) => MethodPlan::Notify(k),
            None => MethodPlan::NotifyAll,
        }
    }
}

/// The error message of a method with no handler.
pub open spec fn spec_no_handler_message(method: Seq<char>) -> Seq<char> {
    "api-ls has no handler for `"@ + method + "` yet"@
}

/// The error message of a method with no handler.
pub fn no_handler_message(method: &str) -> (r: String)
    ensures
        r@ == spec_no_handler_message(method@),
{
    let mut m = "api-ls has no handler for `".to_owned();
    push_str(&mut m, method);
    push_str(&mut m, "` yet");
    m
}

/// How a query that the symbol graph may answer is answered.
#[derive(Clone, Copy, Debug, PartialEq, Eq, Structural)]
pub enum QueryReply {
    /// The graph's answer.
    FromGraph,
    /// The routed backend's answer.
    Forward(BackendKind),
    /// The method's default answer.
    Default,
}

/// A query is answered from the graph when it answered, else by the
/// routed backend, else with the method's default.
pub open spec fn spec_query_reply(answered: bool, route: Option<BackendKind>) -> QueryReply {
    if answered {
        QueryReply::FromGraph
    } else {
        match route {
            Some(k) => QueryReply::Forward(k),
            None => QueryReply::Default,
        }
    }
}

/// Decides who answers a query the symbol graph may answer.
pub fn plan_query_reply(answered: bool, route: Option<BackendKind>) -> (r: QueryReply)
    ensures
        r == spec_query_reply(answered, route),
{
    if answered {
        QueryReply::FromGraph
    } else {
        match route {
            Some(k) => QueryReply::Forward(k),
            None => QueryReply::Default,
        }
    }
}

/// How a message from a backend is relayed.
#[derive(Clone, Copy, Debug, PartialEq, Eq, Structural)]
pub enum BackendPlan {
    /// A request of the backend: give it a gateway id and send it on.
    RequestToClient,
    /// A cancellation of the backend: map the cancelled id and send it on.
    Cancel,
    /// Another notification: send it on as it is.
    Emit,
    /// A response to a forwarded request.
    Response,
    /// Nothing to relay.
    Ignore,
}

/// How a backend message with the given method and id presence is relayed.
pub open spec fn spec_plan_backend(method: Option<Seq<char>>, has_id: bool) -> BackendPlan {
    match method {
        Some(m) => if has_id {
            BackendPlan::RequestToClient
        } else if m == "$/cancelRequest"@ {
            BackendPlan::Cancel
        } else {
            BackendPlan::Emit
        },
        None => if has_id {
            BackendPlan::Response
        } else {
            BackendPlan::Ignore
        },
    }
}

/// Decides how a backend message is relayed.
pub fn plan_backend_message(method: Option<&str>, has_id: bool) -> (r: BackendPlan)
    ensures
        r == spec_plan_backend(
            match method {
                Some(m) => Some(m@),
                None => None,
            },
            has_id,
        ),
{
    match method {
        Some(m) => if has_id {
            BackendPlan::RequestToClient
        } else if str_eq(m, "$/cancelRequest") {
            BackendPlan::Cancel
        } else {
            BackendPlan::Emit
        },
        None => if has_id {
            BackendPlan::Response
        } else {
            BackendPlan::Ignore
        },
    }
}

/// The gateway stops once the client exited with no shutdown pending, or
/// the client's input ended with no request and no shutdown pending.
pub open spec fn spec_should_finish(exit_received: bool, shutdown_pending: bool, client_eof: bool, requests_pending: bool) -> bool {
    (exit_received && !shutdown_pending) || (client_eof && !requests_pending && !shutdown_pending)
}

/// Whether the gateway stops.
pub fn should_finish(exit_received: bool, shutdown_pending: bool, client_eof: bool, requests_pending: bool) -> (r: bool)
    ensures
        r == spec_should_finish(exit_received, shutdown_pending, client_eof, requests_pending),
{
    (exit_received && !shutdown_pending) || (client_eof && !requests_pending && !shutdown_pending)
}

/// The id under which a backend request is sent to the client.
pub open spec fn spec_backend_client_id(kind: BackendKind, n: u64) -> Seq<char> {
    "api-ls:"@ + spec_wire_label(kind) + ":"@ + decimal(n as nat)
}

/// The id under which a backend request is sent to the client.
pub fn backend_client_id(kind: BackendKind, n: u64) -> (r: String)
    ensures
        r@ == spec_backend_client_id(kind, n),
{
    let mut out = "api-ls:".to_owned();
    push_str(&mut out, kind.wire_label());
    push_str(&mut out, ":");
    push_decimal(&mut out, n);
    out
}

/// The log message of a failed backend.
pub open spec fn spec_backend_unavailable(kind: BackendKind, error: Seq<char>) -> Seq<char> {
    "api-ls "@ + spec_display_name(kind) + " backend unavailable: "@ + error
}

/// The log message of a failed backend.
pub fn backend_unavailable_message(kind: BackendKind, error: &str) -> (r: String)
    ensures
        r@ == spec_backend_unavailable(kind, error@),
{
    let mut out = "api-ls ".to_owned();
    push_str(&mut out, kind.display_name());
    push_str(&mut out, " backend unavailable: ");
    push_str(&mut out, error);
    out
}

/// The error of a request whose backend failed while handling it.
pub open spec fn spec_backend_stopped(kind: BackendKind, method: Seq<char>, error: Seq<char>) -> Seq<char> {
    spec_display_name(kind) + " backend stopped while handling `"@ + method + "`: "@ + error
}

/// The error of a request whose backend failed while handling it.
pub fn backend_stopped_message(kind: BackendKind, method: &str, error: &str) -> (r: String)
    ensures
        r@ == spec_backend_stopped(kind, method@, error@),
{
    let mut out = kind.display_name().to_owned();
    push_str(&mut out, " backend stopped while handling `");
    push_str(&mut out, method);
    push_str(&mut out, "`: ");
    push_str(&mut out, error);
    out
}

/// The error of a request whose backend is not running.
pub open spec fn spec_backend_missing(kind: BackendKind) -> Seq<char> {
    spec_display_name(kind) + " backend is not available"@
}

/// The error of a request whose backend is not running.
pub fn backend_missing_message(kind: BackendKind) -> (r: String)
    ensures
        r@ == spec_backend_missing(kind),
{
    let mut out = kind.display_name().to_owned();
    push_str(&mut out, " backend is not available");
    out
}

/// A shutdown waiting for the backends' answers: which backends have not
/// answered yet.
#[derive(Clone, Copy, Debug, PartialEq, Eq, Structural)]
pub struct PendingShutdown {
    pub rust: bool,
    pub typescript: bool,
}

impl PendingShutdown {
    /// Starts a shutdown with the running backends; `None` when none runs,
    /// and the client is answered at once.
    pub fn begin(rust_running: bool, typescript_running: bool) -> (r: Option<PendingShutdown>)
        ensures
            r == (if rust_running || typescript_running {
                Some(PendingShutdown { rust: rust_running, typescript: typescript_running })
            } else {
                None::<PendingShutdown>
            }),
    {
        if rust_running || typescript_running {
            Some(PendingShutdown { rust: rust_running, typescript: typescript_running })
        } else {
            None
        }
    }

    /// Records a backend's answer; true when no backend is left, and the
    /// client is answered.
    pub fn finish(&mut self, kind: BackendKind) -> (done: bool)
        ensures
            final(self).rust == (old(self).rust && kind != BackendKind::Rust),
            final(self).typescript == (old(self).typescript && kind != BackendKind::TypeScript),
            done == (!final(self).rust && !final(self).typescript),
    {
        match kind {
            BackendKind::Rust => self.rust = false,
            BackendKind::TypeScript => self.typescript = false,
        }
        !self.rust && !self.typescript
    }
}

/// Every client request other than `initialized` and `exit` is answered
/// or forwarded, and no notification is ever answered.
pub proof fn lemma_requests_answered_notifications_not(method: Seq<char>, route: Option<BackendKind>)
    ensures
        method != "initialized"@ && method != "exit"@ ==> match spec_plan_method(method, true, route) {
            MethodPlan::Ignore | MethodPlan::Notify(_) | MethodPlan::NotifyAll | MethodPlan::Initialized
            | MethodPlan::Exit => false,
            _ => true,
        },
        match spec_plan_method(method, false, route) {
            MethodPlan::Initialized | MethodPlan::Exit | MethodPlan::Notify(_) | MethodPlan::NotifyAll
            | MethodPlan::Ignore => true,
            _ => false,
        },
{
}

/// The state after a backend answers a shutdown, and whether the client is
/// answered then.
pub open spec fn spec_finish(p: PendingShutdown, kind: BackendKind) -> (PendingShutdown, bool) {
    let next = PendingShutdown {
        rust: p.rust && kind != BackendKind::Rust,
        typescript: p.typescript && kind != BackendKind::TypeScript,
    };
    (next, !next.rust && !next.typescript)
}

/// A shutdown started with running backends is answered when the last of
/// them answers, and not before, in whichever order they answer.
pub proof fn lemma_shutdown_answered_by_last_backend(rust_running: bool, typescript_running: bool, first: BackendKind)
    requires
        rust_running || typescript_running,
    ensures
        ({
            let p = PendingShutdown { rust: rust_running, typescript: typescript_running };
            let second = if first == BackendKind::Rust { BackendKind::TypeScript } else { BackendKind::Rust };
            if rust_running && typescript_running {
                !spec_finish(p, first).1 && spec_finish(spec_finish(p, first).0, second).1
            } else {
                let only = if rust_running { BackendKind::Rust } else { BackendKind::TypeScript };
                spec_finish(p, only).1
            }
        }),
{
}

/// The gateway stops after `exit` once no shutdown is pending, whatever
/// else is pending, and never while a shutdown is pending.
pub proof fn lemma_exit_stops_unless_shutdown_pending(client_eof: bool, requests_pending: bool, shutdown_pending: bool)
    ensures
        spec_should_finish(true, shutdown_pending, client_eof, requests_pending) == !shutdown_pending,
        shutdown_pending ==> !spec_should_finish(true, shutdown_pending, client_eof, requests_pending),
{
}

} // verus!
