//! The gateway's configuration and the workspace paths resolved from it.

use vstd::prelude::*;
use crate::gen::package::{join_path, spec_join_path};
use crate::lint::UsageLintLevel;
use crate::ls::paths::{
    file_uri_to_path, has_root, path_starts_with, spec_path_starts_with, uri_decodable, uri_path,
};
use crate::text::{chars_of, join, join_strings, push_str};

verus! {

/// External language-server command configuration.
#[derive(Clone, Debug, PartialEq, Eq)]
pub struct BackendCommand {
    pub command: String,
    pub args: Vec<String>,
}

impl Default for BackendCommand {
    fn default() -> (r: Self)
        ensures
            r.command@.len() == 0,
            r.args@.len() == 0,
    {
        BackendCommand { command: String::new(), args: Vec::new() }
    }
}

/// `api-ls` configuration loaded from the workspace root (paths as text).
#[derive(Clone, Debug, PartialEq, Eq)]
pub struct ApiLsConfig {
    pub rust_analyzer: BackendCommand,
    pub typescript: BackendCommand,
    pub effect_language_service_plugin: Option<String>,
    pub generated_cache_dir: String,
    pub symbol_graph: String,
    pub usage_index: String,
    pub unused_endpoint_lints: UsageLintLevel,
    pub log_file: Option<String>,
}

/// Whether a configuration is the default one.
pub open spec fn is_default_config(c: ApiLsConfig) -> bool {
    &&& c.rust_analyzer.command@ == "rust-analyzer"@
    &&& c.rust_analyzer.args@.len() == 0
    &&& c.typescript.command@ == "typescript-language-server"@
    &&& c.typescript.args@.len() == 1
    &&& c.typescript.args@[0]@ == "--stdio"@
    &&& c.effect_language_service_plugin matches Some(p) && p@ == "@effect/language-service"@
    &&& c.generated_cache_dir@ == "target/api-contract/effect-v4/packages"@
    &&& c.symbol_graph@ == "target/api-contract/rust-ts-symbols.json"@
    &&& c.usage_index@ == "target/api-contract/graph/effect-usage-index.json"@
    &&& c.unused_endpoint_lints == UsageLintLevel::Warn
    &&& c.log_file is None
}

impl Default for ApiLsConfig {
    fn default() -> (r: Self)
        ensures
            is_default_config(r),
    {
        let mut ts_args: Vec<String> = Vec::new();
        ts_args.push("--stdio".to_owned());
        ApiLsConfig {
            rust_analyzer: BackendCommand { command: "rust-analyzer".to_owned(), args: Vec::new() },
            typescript: BackendCommand { command: "typescript-language-server".to_owned(), args: ts_args },
            effect_language_service_plugin: Some("@effect/language-service".to_owned()),
            generated_cache_dir: "target/api-contract/effect-v4/packages".to_owned(),
            symbol_graph: "target/api-contract/rust-ts-symbols.json".to_owned(),
            usage_index: "target/api-contract/graph/effect-usage-index.json".to_owned(),
            unused_endpoint_lints: UsageLintLevel::Warn,
            log_file: None,
        }
    }
}

/// Resolved workspace and cache paths used by the gateway.
#[derive(Clone, Debug, PartialEq, Eq)]
pub struct WorkspaceConfig {
    pub root: String,
    pub config_path: Option<String>,
    pub config: ApiLsConfig,
    pub generated_cache_dir: String,
    pub symbol_graph: String,
    pub usage_index: String,
}

/// A path resolved from a root: itself when absolute, else joined onto the
/// root.
pub open spec fn spec_absolutize(root: Seq<char>, path: Seq<char>) -> Seq<char> {
    if has_root(path) {
        path
    } else {
        spec_join_path(root, path)
    }
}

/// Resolves a path from a root.
pub fn absolutize_from(root: &str, path: &str) -> (r: String)
    ensures
        r@ == spec_absolutize(root@, path@),
{
    let chars = chars_of(path);
    if chars.len() > 0 && chars[0] == '/' {
        path.to_owned()
    } else {
        join_path(root, path)
    }
}

/// Whether a workspace configuration resolves `config`'s paths from `root`.
pub open spec fn resolves_from(w: WorkspaceConfig, root: Seq<char>, config: ApiLsConfig) -> bool {
    &&& w.root@ == root
    &&& w.config == config
    &&& w.generated_cache_dir@ == spec_absolutize(root, config.generated_cache_dir@)
    &&& w.symbol_graph@ == spec_absolutize(root, config.symbol_graph@)
    &&& w.usage_index@ == spec_absolutize(root, config.usage_index@)
}

/// Resolves the configured paths from the workspace root.
pub fn resolve_workspace_config(root: String, config_path: Option<String>, config: ApiLsConfig) -> (r: WorkspaceConfig)
    ensures
        resolves_from(r, root@, config),
        r.config_path == config_path,
{
    let generated_cache_dir = absolutize_from(root.as_str(), config.generated_cache_dir.as_str());
    let symbol_graph = absolutize_from(root.as_str(), config.symbol_graph.as_str());
    let usage_index = absolutize_from(root.as_str(), config.usage_index.as_str());
    WorkspaceConfig { root, config_path, config, generated_cache_dir, symbol_graph, usage_index }
}

/// The log file of a workspace, resolved from its root, when configured.
pub fn workspace_log_file(workspace: &WorkspaceConfig) -> (r: Option<String>)
    ensures
        match (r, workspace.config.log_file) {
            (Some(p), Some(l)) => p@ == spec_absolutize(workspace.root@, l@),
            (None, None) => true,
            _ => false,
        },
{
    match &workspace.config.log_file {
        Some(path) => Some(absolutize_from(workspace.root.as_str(), path.as_str())),
        None => None,
    }
}

/// How a backend command is shown in messages: the command and its
/// arguments separated by spaces, or `<empty command>`.
pub open spec fn spec_command_label(command: Seq<char>, args: Seq<Seq<char>>) -> Seq<char> {
    if command.len() == 0 {
        "<empty command>"@
    } else {
        join(seq![command] + args, " "@)
    }
}

/// How a backend command is shown in messages.
pub fn backend_command_label(command: &BackendCommand) -> (r: String)
    ensures
        r@ == spec_command_label(command.command@, command.args@.map_values(|a: String| a@)),
{
    if command.command.as_str().is_empty() {
        proof {
            reveal_strlit("<empty command>");
        }
        return "<empty command>".to_owned();
    }
    let mut parts: Vec<String> = Vec::new();
    parts.push(command.command.clone());
    let mut i: usize = 0;
    while i < command.args.len()
        invariant
            i <= command.args@.len(),
            parts@.map_values(|a: String| a@) == seq![command.command@] + command.args@.map_values(|a: String| a@).take(i as int),
        decreases command.args@.len() - i,
    {
        let ghost before = parts@;
        parts.push(command.args[i].clone());
        proof {
            assert(parts@.map_values(|a: String| a@) =~= before.map_values(|a: String| a@).push(command.args@[i as int]@));
            assert(command.args@.map_values(|a: String| a@).take(i + 1) =~= command.args@.map_values(|a: String| a@).take(i as int).push(command.args@[i as int]@));
        }
        i = i + 1;
    }
    proof {
        assert(command.args@.map_values(|a: String| a@).take(i as int) =~= command.args@.map_values(|a: String| a@));
    }
    join_strings(&parts, " ")
}

/// Whether a URI is a `file://` URI inside the workspace's generated cache.
pub open spec fn spec_is_generated_uri(workspace: Option<WorkspaceConfig>, uri: Seq<char>) -> bool {
    match workspace {
        None => false,
        Some(w) => match uri_path(uri) {
            Some(p) => spec_path_starts_with(p, w.generated_cache_dir@),
            None => false,
        },
    }
}

/// Whether a URI names a file inside the generated package cache.
pub fn is_generated_package_uri(workspace: &Option<WorkspaceConfig>, uri: &str) -> (r: bool)
    requires
        workspace is Some ==> uri_decodable(uri@),
    ensures
        r == spec_is_generated_uri(*workspace, uri@),
{
    match workspace {
        None => false,
        Some(w) => match file_uri_to_path(uri) {
            Some(p) => path_starts_with(p.as_str(), w.generated_cache_dir.as_str()),
            None => false,
        },
    }
}

/// The file a generated-package request names: the path of its `file://`
/// URI, else its `path`, resolved from the generated cache, when it lies
/// inside the cache.
pub open spec fn spec_generated_file_path(
    uri: Option<Seq<char>>,
    path: Option<Seq<char>>,
    cache_dir: Seq<char>,
) -> Option<Seq<char>> {
    let named = match uri {
        Some(u) => match uri_path(u) {
            Some(p) => Some(p),
            None => path,
        },
        None => path,
    };
    match named {
        None => None,
        Some(p) => {
            let full = if has_root(p) {
                p
            } else {
                spec_join_path(cache_dir, p)
            };
            if spec_path_starts_with(full, cache_dir) {
                Some(full)
            } else {
                None
            }
        },
    }
}

/// The file a generated-package request names, when it lies inside the
/// generated cache.
pub fn generated_file_path(uri: Option<&str>, path: Option<&str>, workspace: &WorkspaceConfig) -> (r: Option<String>)
    requires
        uri matches Some(u) ==> uri_decodable(u@),
    ensures
        crate::ls::paths::opt_chars(r) == spec_generated_file_path(
            match uri {
                Some(u) => Some(u@),
                None => None,
            },
            match path {
                Some(p) => Some(p@),
                None => None,
            },
            workspace.generated_cache_dir@,
        ),
{
    let named: Option<String> = match uri {
        Some(u) => match file_uri_to_path(u) {
            Some(p) => Some(p),
            None => match path {
                Some(p) => Some(p.to_owned()),
                None => None,
            },
        },
        None => match path {
            Some(p) => Some(p.to_owned()),
            None => None,
        },
    };
    match named {
        None => None,
        Some(p) => {
            let full = absolutize_from(workspace.generated_cache_dir.as_str(), p.as_str());
            if path_starts_with(full.as_str(), workspace.generated_cache_dir.as_str()) {
                Some(full)
            } else {
                None
            }
        },
    }
}

/// The error of an `initialize` whose backend did not start.
pub open spec fn spec_required_backend_error(label: Seq<char>, command: Seq<char>, args: Seq<Seq<char>>, error: Seq<char>) -> Seq<char> {
    "api-ls requires the "@ + label + " backend to start and initialize; configured command: "@
        + spec_command_label(command, args) + "; error: "@ + error
        + "; help: install the backend or update `.api-ls.json` for this workspace"@
}

/// The error of an `initialize` whose backend did not start.
pub fn required_backend_error(label: &str, command: &BackendCommand, error: &str) -> (r: String)
    ensures
        r@ == spec_required_backend_error(label@, command.command@, command.args@.map_values(|a: String| a@), error@),
{
    let mut out = "api-ls requires the ".to_owned();
    push_str(&mut out, label);
    push_str(&mut out, " backend to start and initialize; configured command: ");
    let shown = backend_command_label(command);
    push_str(&mut out, shown.as_str());
    push_str(&mut out, "; error: ");
    push_str(&mut out, error);
    push_str(&mut out, "; help: install the backend or update `.api-ls.json` for this workspace");
    out
}

} // verus!
