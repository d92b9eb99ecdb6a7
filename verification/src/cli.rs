//! The `api` command line: argument parsing, package resolution, the
//! sources of the temporary collector crate, and the order in which a
//! workspace's packages are generated.

use vstd::prelude::*;
use crate::gen::symbols::{
    GraphLocation, LinkedSymbol, LocationModel, MetadataModel, SymbolGraph, SymbolModel, locations_view,
    spec_range_from_source, symbols_view,
};
use crate::ir::strings_view;
use crate::order::{flat_map, lemma_flat_map_step, sorted_unique_strings, spec_sorted_set, str_eq};
use crate::scan::{spec_trim, trim};
use crate::text::{chars_of, json_string, push_char, push_str, spec_json_string};

verus! {

/// Feature lists separate names by commas and spaces.
pub open spec fn is_feature_sep(c: char) -> bool {
    c == ',' || c == ' '
}

/// The pieces of a feature list finished and in progress.
pub open spec fn spec_feature_pieces_state(s: Seq<char>) -> (Seq<Seq<char>>, Seq<char>)
    decreases s.len(),
{
    if s.len() == 0 {
        (Seq::empty(), Seq::empty())
    } else {
        let (done, cur) = spec_feature_pieces_state(s.drop_last());
        if is_feature_sep(s.last()) {
            (done.push(cur), Seq::empty())
        } else {
            (done, cur.push(s.last()))
        }
    }
}

/// The pieces of a feature list between separators.
pub open spec fn spec_feature_pieces(s: Seq<char>) -> Seq<Seq<char>> {
    spec_feature_pieces_state(s).0.push(spec_feature_pieces_state(s).1)
}

/// The feature names of a list: its pieces, trimmed, without empty ones.
pub open spec fn spec_parse_features(s: Seq<char>) -> Seq<Seq<char>> {
    flat_map(
        spec_feature_pieces(s),
        |p: Seq<char>|
            if spec_trim(p).len() > 0 {
                seq![spec_trim(p)]
            } else {
                Seq::empty()
            },
    )
}

/// Splits a `--features` value into feature names.
pub fn parse_features(value: &str) -> (r: Vec<String>)
    ensures
        strings_view(r@) == spec_parse_features(value@),
{
    let chars = chars_of(value);
    let mut done: Vec<String> = Vec::new();
    let mut cur = String::new();
    assert(strings_view(done@) =~= Seq::<Seq<char>>::empty());
    for i in 0..chars.len()
        invariant
            chars@ == value@,
            (strings_view(done@), cur@) == spec_feature_pieces_state(value@.take(i as int)),
    {
        assert(value@.take(i + 1).drop_last() =~= value@.take(i as int));
        let c = chars[i];
        if c == ',' || c == ' ' {
            let ghost before = strings_view(done@);
            let piece = cur;
            cur = String::new();
            done.push(piece);
            assert(strings_view(done@) =~= before.push(piece@));
        } else {
            push_char(&mut cur, c);
        }
    }
    assert(value@.take(chars@.len() as int) =~= value@);
    let ghost before = strings_view(done@);
    let last = cur;
    done.push(last);
    assert(strings_view(done@) =~= before.push(last@));
    let ghost pieces = strings_view(done@);
    let ghost f = |p: Seq<char>|
        if spec_trim(p).len() > 0 {
            seq![spec_trim(p)]
        } else {
            Seq::<Seq<char>>::empty()
        };
    let mut out: Vec<String> = Vec::new();
    for i in 0..done.len()
        invariant
            pieces == strings_view(done@),
            f == (|p: Seq<char>|
                if spec_trim(p).len() > 0 {
                    seq![spec_trim(p)]
                } else {
                    Seq::<Seq<char>>::empty()
                }),
            strings_view(out@) == flat_map(pieces.take(i as int), f),
    {
        proof {
            lemma_flat_map_step(pieces, f, i as int);
        }
        assert(pieces[i as int] == done@[i as int]@);
        let t = trim(done[i].as_str());
        let ghost prev = strings_view(out@);
        if t.as_str().unicode_len() > 0 {
            out.push(t);
            assert(strings_view(out@) =~= prev + f(pieces[i as int]));
        } else {
            assert(strings_view(out@) =~= prev + f(pieces[i as int]));
        }
    }
    assert(pieces.take(done@.len() as int) =~= pieces);
    out
}

/// The view of an optional string.
pub open spec fn opt_view(o: Option<String>) -> Option<Seq<char>> {
    match o {
        Some(s) => Some(s@),
        None => None,
    }
}

/// The argument at `i`, if there is one.
pub open spec fn arg_at(args: Seq<Seq<char>>, i: int) -> Option<Seq<char>> {
    if 0 <= i < args.len() {
        Some(args[i])
    } else {
        None
    }
}

/// Options of `api collect`.
#[derive(Debug, PartialEq, Eq)]
pub struct CollectOptions {
    pub package_name: Option<String>,
    pub cargo_package: Option<String>,
    pub api_root: Option<String>,
    pub out: Option<String>,
    pub manifest_path: String,
    pub target_dir: Option<String>,
    pub features: Vec<String>,
    pub all_features: bool,
    pub no_default_features: bool,
    pub empty: bool,
    pub workspace: bool,
}

/// Model of [`CollectOptions`].
pub struct CollectModel {
    pub package_name: Option<Seq<char>>,
    pub cargo_package: Option<Seq<char>>,
    pub api_root: Option<Seq<char>>,
    pub out: Option<Seq<char>>,
    pub manifest_path: Seq<char>,
    pub target_dir: Option<Seq<char>>,
    pub features: Seq<Seq<char>>,
    pub all_features: bool,
    pub no_default_features: bool,
    pub empty: bool,
    pub workspace: bool,
}

impl View for CollectOptions {
    type V = CollectModel;

    open spec fn view(&self) -> CollectModel {
        CollectModel {
            package_name: opt_view(self.package_name),
            cargo_package: opt_view(self.cargo_package),
            api_root: opt_view(self.api_root),
            out: opt_view(self.out),
            manifest_path: self.manifest_path@,
            target_dir: opt_view(self.target_dir),
            features: strings_view(self.features@),
            all_features: self.all_features,
            no_default_features: self.no_default_features,
            empty: self.empty,
            workspace: self.workspace,
        }
    }
}

/// The options before any argument is read.
pub open spec fn spec_collect_defaults() -> CollectModel {
    CollectModel {
        package_name: None,
        cargo_package: None,
        api_root: None,
        out: None,
        manifest_path: "Cargo.toml"@,
        target_dir: None,
        features: Seq::empty(),
        all_features: false,
        no_default_features: false,
        empty: false,
        workspace: false,
    }
}

/// The options that the arguments from `i` on give, starting from `acc`:
/// each option takes the next argument as its value, `--features` adds
/// names, and the features end up sorted and each named once.
pub open spec fn spec_collect_args(args: Seq<Seq<char>>, i: int, acc: CollectModel) -> Result<CollectModel, Seq<char>>
    decreases args.len() + 2 - i,
{
    if i < 0 || i >= args.len() {
        Ok(CollectModel { features: spec_sorted_set(acc.features), ..acc })
    } else {
        let a = args[i];
        if a == "--package-name"@ {
            spec_collect_args(args, i + 2, CollectModel { package_name: arg_at(args, i + 1), ..acc })
        } else if a == "--package"@ || a == "-p"@ {
            spec_collect_args(args, i + 2, CollectModel { cargo_package: arg_at(args, i + 1), ..acc })
        } else if a == "--api-root"@ {
            spec_collect_args(args, i + 2, CollectModel { api_root: arg_at(args, i + 1), ..acc })
        } else if a == "--out"@ {
            spec_collect_args(args, i + 2, CollectModel { out: arg_at(args, i + 1), ..acc })
        } else if a == "--manifest-path"@ {
            match arg_at(args, i + 1) {
                Some(p) => spec_collect_args(args, i + 2, CollectModel { manifest_path: p, ..acc }),
                None => Err("--manifest-path requires <path>"@),
            }
        } else if a == "--target-dir"@ {
            match arg_at(args, i + 1) {
                Some(p) => spec_collect_args(args, i + 2, CollectModel { target_dir: Some(p), ..acc }),
                None => Err("--target-dir requires <path>"@),
            }
        } else if a == "--features"@ {
            match arg_at(args, i + 1) {
                Some(v) => spec_collect_args(
                    args,
                    i + 2,
                    CollectModel { features: acc.features + spec_parse_features(v), ..acc },
                ),
                None => Err("--features requires <features>"@),
            }
        } else if a == "--all-features"@ {
            spec_collect_args(args, i + 1, CollectModel { all_features: true, ..acc })
        } else if a == "--no-default-features"@ {
            spec_collect_args(args, i + 1, CollectModel { no_default_features: true, ..acc })
        } else if a == "--empty"@ {
            spec_collect_args(args, i + 1, CollectModel { empty: true, ..acc })
        } else if a == "--workspace"@ {
            spec_collect_args(args, i + 1, CollectModel { workspace: true, ..acc })
        } else {
            Err("unknown api collect argument `"@ + a + "`"@)
        }
    }
}

/// The model of a parse result.
pub open spec fn collect_result_view(r: Result<CollectOptions, String>) -> Result<CollectModel, Seq<char>> {
    match r {
        Ok(o) => Ok(o@),
        Err(e) => Err(e@),
    }
}

fn next_arg(args: &Vec<String>, i: usize) -> (r: Option<String>)
    requires
        i < args@.len(),
    ensures
        opt_view(r) == arg_at(strings_view(args@), i + 1),
{
    if args.len() - i > 1 {
        Some(args[i + 1].clone())
    } else {
        None
    }
}

proof fn lemma_collect_done(args: Seq<Seq<char>>, j: int, k: int, acc: CollectModel)
    requires
        j >= args.len(),
        k >= args.len(),
    ensures
        spec_collect_args(args, j, acc) == spec_collect_args(args, k, acc),
{
}

fn append_strings(dst: &mut Vec<String>, src: &Vec<String>)
    ensures
        strings_view(final(dst)@) == strings_view(old(dst)@) + strings_view(src@),
{
    let ghost before = strings_view(dst@);
    for k in 0..src.len()
        invariant
            strings_view(dst@) == before + strings_view(src@).take(k as int),
    {
        let ghost prev = strings_view(dst@);
        let item = src[k].clone();
        dst.push(item);
        assert(strings_view(dst@) =~= prev.push(src@[k as int]@));
        assert(strings_view(src@).take(k + 1) =~= strings_view(src@).take(k as int).push(src@[k as int]@));
    }
    assert(strings_view(src@).take(src@.len() as int) =~= strings_view(src@));
}

impl CollectOptions {
    /// Parses the arguments of `api collect`.
    pub fn parse(args: &Vec<String>) -> (r: Result<Self, String>)
        ensures
            collect_result_view(r) == spec_collect_args(strings_view(args@), 0, spec_collect_defaults()),
    {
        let ghost av = strings_view(args@);
        let mut options = CollectOptions {
            package_name: None,
            cargo_package: None,
            api_root: None,
            out: None,
            manifest_path: "Cargo.toml".to_owned(),
            target_dir: None,
            features: Vec::new(),
            all_features: false,
            no_default_features: false,
            empty: false,
            workspace: false,
        };
        assert(strings_view(options.features@) =~= Seq::<Seq<char>>::empty());
        assert(options@ == spec_collect_defaults());
        let mut i: usize = 0;
        while i < args.len()
            invariant
                av == strings_view(args@),
                spec_collect_args(av, 0, spec_collect_defaults()) == spec_collect_args(av, i as int, options@),
            decreases args.len() - i,
        {
            let a = args[i].as_str();
            assert(av[i as int] == a@);
            if str_eq(a, "--package-name") {
                options.package_name = next_arg(args, i);
                proof {
                    if i + 1 >= args@.len() {
                        lemma_collect_done(av, i + 2, args@.len() as int, options@);
                    }
                }
                i = if args.len() - i > 1 { i + 2 } else { args.len() };
            } else if str_eq(a, "--package") || str_eq(a, "-p") {
                options.cargo_package = next_arg(args, i);
                proof {
                    if i + 1 >= args@.len() {
                        lemma_collect_done(av, i + 2, args@.len() as int, options@);
                    }
                }
                i = if args.len() - i > 1 { i + 2 } else { args.len() };
            } else if str_eq(a, "--api-root") {
                options.api_root = next_arg(args, i);
                proof {
                    if i + 1 >= args@.len() {
                        lemma_collect_done(av, i + 2, args@.len() as int, options@);
                    }
                }
                i = if args.len() - i > 1 { i + 2 } else { args.len() };
            } else if str_eq(a, "--out") {
                options.out = next_arg(args, i);
                proof {
                    if i + 1 >= args@.len() {
                        lemma_collect_done(av, i + 2, args@.len() as int, options@);
                    }
                }
                i = if args.len() - i > 1 { i + 2 } else { args.len() };
            } else if str_eq(a, "--manifest-path") {
                match next_arg(args, i) {
                    Some(p) => {
                        options.manifest_path = p;
                        i = i + 2;
                    },
                    None => {
                        return Err("--manifest-path requires <path>".to_owned());
                    },
                }
            } else if str_eq(a, "--target-dir") {
                match next_arg(args, i) {
                    Some(p) => {
                        options.target_dir = Some(p);
                        i = i + 2;
                    },
                    None => {
                        return Err("--target-dir requires <path>".to_owned());
                    },
                }
            } else if str_eq(a, "--features") {
                match next_arg(args, i) {
                    Some(v) => {
                        let names = parse_features(v.as_str());
                        append_strings(&mut options.features, &names);
                        i = i + 2;
                    },
                    None => {
                        return Err("--features requires <features>".to_owned());
                    },
                }
            } else if str_eq(a, "--all-features") {
                options.all_features = true;
                i = i + 1;
            } else if str_eq(a, "--no-default-features") {
                options.no_default_features = true;
                i = i + 1;
            } else if str_eq(a, "--empty") {
                options.empty = true;
                i = i + 1;
            } else if str_eq(a, "--workspace") {
                options.workspace = true;
                i = i + 1;
            } else {
                let mut m = "unknown api collect argument `".to_owned();
                push_str(&mut m, a);
                push_str(&mut m, "`");
                return Err(m);
            }
        }
        let features = sorted_unique_strings(options.features);
        options.features = features;
        Ok(options)
    }
}

} // verus!

verus! {

/// Options of `api gen`, `api watch` and `api check`.
#[derive(Debug, PartialEq, Eq)]
pub struct ContractTargetOptions {
    pub contract: String,
    pub target_dir: String,
    pub once: bool,
}

/// What the arguments from `i` on give to a contract/target command:
/// the last `--contract`, the last `--target-dir` or `--out-dir`, and
/// whether `--once` was given.
pub open spec fn spec_target_args(
    args: Seq<Seq<char>>,
    i: int,
    command: Seq<char>,
    contract: Option<Seq<char>>,
    target_dir: Option<Seq<char>>,
    once: bool,
) -> Result<(Seq<char>, Seq<char>, bool), Seq<char>>
    decreases args.len() + 2 - i,
{
    if i < 0 || i >= args.len() {
        match contract {
            Some(c) => Ok(
                (
                    c,
                    match target_dir {
                        Some(t) => t,
                        None => "target"@,
                    },
                    once,
                ),
            ),
            None => Err(command + " requires --contract <path>"@),
        }
    } else {
        let a = args[i];
        if a == "--contract"@ {
            spec_target_args(args, i + 2, command, arg_at(args, i + 1), target_dir, once)
        } else if a == "--target-dir"@ || a == "--out-dir"@ {
            spec_target_args(args, i + 2, command, contract, arg_at(args, i + 1), once)
        } else if a == "--once"@ {
            spec_target_args(args, i + 1, command, contract, target_dir, true)
        } else {
            Err("unknown "@ + command + " argument `"@ + a + "`"@)
        }
    }
}

proof fn lemma_target_done(
    args: Seq<Seq<char>>,
    j: int,
    k: int,
    command: Seq<char>,
    contract: Option<Seq<char>>,
    target_dir: Option<Seq<char>>,
    once: bool,
)
    requires
        j >= args.len(),
        k >= args.len(),
    ensures
        spec_target_args(args, j, command, contract, target_dir, once) == spec_target_args(
            args,
            k,
            command,
            contract,
            target_dir,
            once,
        ),
{
}

impl ContractTargetOptions {
    /// Parses the arguments of `command`, one of `api gen`, `api watch` and
    /// `api check`.
    pub fn parse(args: &Vec<String>, command: &str) -> (r: Result<Self, String>)
        ensures
            match r {
                Ok(o) => spec_target_args(strings_view(args@), 0, command@, None, None, false) == Ok::<
                    (Seq<char>, Seq<char>, bool),
                    Seq<char>,
                >((o.contract@, o.target_dir@, o.once)),
                Err(e) => spec_target_args(strings_view(args@), 0, command@, None, None, false) == Err::<
                    (Seq<char>, Seq<char>, bool),
                    Seq<char>,
                >(e@),
            },
    {
        let ghost av = strings_view(args@);
        let mut contract: Option<String> = None;
        let mut target_dir: Option<String> = None;
        let mut once = false;
        let mut i: usize = 0;
        while i < args.len()
            invariant
                av == strings_view(args@),
                spec_target_args(av, 0, command@, None, None, false) == spec_target_args(
                    av,
                    i as int,
                    command@,
                    opt_view(contract),
                    opt_view(target_dir),
                    once,
                ),
            decreases args.len() - i,
        {
            let a = args[i].as_str();
            assert(av[i as int] == a@);
            if str_eq(a, "--contract") {
                contract = next_arg(args, i);
                proof {
                    if i + 1 >= args@.len() {
                        lemma_target_done(av, i + 2, args@.len() as int, command@, opt_view(contract), opt_view(target_dir), once);
                    }
                }
                i = if args.len() - i > 1 { i + 2 } else { args.len() };
            } else if str_eq(a, "--target-dir") || str_eq(a, "--out-dir") {
                target_dir = next_arg(args, i);
                proof {
                    if i + 1 >= args@.len() {
                        lemma_target_done(av, i + 2, args@.len() as int, command@, opt_view(contract), opt_view(target_dir), once);
                    }
                }
                i = if args.len() - i > 1 { i + 2 } else { args.len() };
            } else if str_eq(a, "--once") {
                once = true;
                i = i + 1;
            } else {
                let mut m = "unknown ".to_owned();
                push_str(&mut m, command);
                push_str(&mut m, " argument `");
                push_str(&mut m, a);
                push_str(&mut m, "`");
                return Err(m);
            }
        }
        match contract {
            Some(c) => {
                let t = match target_dir {
                    Some(t) => t,
                    None => "target".to_owned(),
                };
                Ok(ContractTargetOptions { contract: c, target_dir: t, once })
            },
            None => {
                let mut m = command.to_owned();
                push_str(&mut m, " requires --contract <path>");
                Err(m)
            },
        }
    }
}

/// The pieces of `s` between occurrences of `::`.
pub open spec fn spec_path_pieces(s: Seq<char>) -> Seq<Seq<char>>
    decreases s.len(),
{
    match crate::scan::spec_find(s, "::"@) {
        Some(i) => {
            proof {
                crate::scan::lemma_find_bounds(s, "::"@);
                reveal_strlit("::");
            }
            if 0 <= i && i + 2 <= s.len() {
                seq![s.take(i)] + spec_path_pieces(s.skip(i + 2))
            } else {
                seq![s]
            }
        },
        None => seq![s],
    }
}

/// The non-empty `::` pieces of a path.
pub open spec fn spec_path_segments(s: Seq<char>) -> Seq<Seq<char>> {
    spec_path_pieces(s).filter(|p: Seq<char>| p.len() > 0)
}

fn path_segments(s: &str) -> (r: Vec<String>)
    ensures
        strings_view(r@) == spec_path_segments(s@),
{
    let ghost pieces_target = spec_path_pieces(s@);
    let mut out: Vec<String> = Vec::new();
    let mut rest = s.to_owned();
    let ghost mut acc: Seq<Seq<char>> = Seq::empty();
    assert(strings_view(out@) =~= acc.filter(|p: Seq<char>| p.len() > 0));
    loop
        invariant
            acc + spec_path_pieces(rest@) == pieces_target,
            pieces_target == spec_path_pieces(s@),
            strings_view(out@) == acc.filter(|p: Seq<char>| p.len() > 0),
        decreases rest@.len(),
    {
        proof {
            reveal_strlit("::");
            crate::scan::lemma_find_bounds(rest@, "::"@);
        }
        match crate::scan::split_once(rest.as_str(), "::") {
            Some((head, tail)) => {
                let ghost prev = acc;
                proof {
                    acc = acc.push(head@);
                    assert(acc + spec_path_pieces(tail@) =~= prev + spec_path_pieces(rest@));
                }
                let ghost before = strings_view(out@);
                if head.as_str().unicode_len() > 0 {
                    out.push(head);
                }
                assert(acc.drop_last() =~= prev);
                assert(strings_view(out@) =~= acc.filter(|p: Seq<char>| p.len() > 0)) by {
                    reveal(Seq::filter);
                }
                rest = tail;
            },
            None => {
                let ghost prev = acc;
                proof {
                    acc = acc.push(rest@);
                }
                assert(acc =~= pieces_target);
                if rest.as_str().unicode_len() > 0 {
                    out.push(rest);
                }
                assert(acc.drop_last() =~= prev);
                assert(strings_view(out@) =~= acc.filter(|p: Seq<char>| p.len() > 0)) by {
                    reveal(Seq::filter);
                }
                return out;
            },
        }
    }
}

} // verus!

verus! {

/// The segments of a path without a leading crate name.
pub open spec fn spec_strip_crate(parts: Seq<Seq<char>>, lib_crate_name: Seq<char>) -> Seq<Seq<char>> {
    if parts.len() > 0 && parts[0] == lib_crate_name {
        parts.drop_first()
    } else {
        parts
    }
}

/// Whether every segment is an identifier.
pub open spec fn spec_all_identifiers(parts: Seq<Seq<char>>) -> bool {
    forall|j: int| 0 <= j < parts.len() ==> crate::collector::usage::spec_is_identifier(#[trigger] parts[j])
}

/// The path of the API root function inside the library: its non-empty
/// `::` segments without a leading crate name, when each is an identifier.
pub open spec fn spec_normalize_api_root(api_root: Seq<char>, lib_crate_name: Seq<char>) -> Result<Seq<Seq<char>>, Seq<char>> {
    let parts = spec_path_segments(api_root);
    if parts.len() == 0 {
        Err("api collect --api-root must name a Rust function path"@)
    } else if !spec_all_identifiers(spec_strip_crate(parts, lib_crate_name)) {
        Err("api collect --api-root `"@ + api_root + "` contains a non-identifier path segment"@)
    } else {
        Ok(spec_strip_crate(parts, lib_crate_name))
    }
}

/// Resolves `--api-root` against the library's crate name.
pub fn normalize_api_root(api_root: &str, lib_crate_name: &str) -> (r: Result<Vec<String>, String>)
    ensures
        match r {
            Ok(parts) => spec_normalize_api_root(api_root@, lib_crate_name@) == Ok::<Seq<Seq<char>>, Seq<char>>(
                strings_view(parts@),
            ),
            Err(e) => spec_normalize_api_root(api_root@, lib_crate_name@) == Err::<Seq<Seq<char>>, Seq<char>>(e@),
        },
{
    let parts = path_segments(api_root);
    if parts.len() == 0 {
        return Err("api collect --api-root must name a Rust function path".to_owned());
    }
    let ghost pv = strings_view(parts@);
    let mut rest: Vec<String> = Vec::new();
    let skip_first = str_eq(parts[0].as_str(), lib_crate_name);
    assert(pv[0] == parts@[0]@);
    let ghost spec_rest = spec_strip_crate(pv, lib_crate_name@);
    let start: usize = if skip_first { 1 } else { 0 };
    for i in start..parts.len()
        invariant
            pv == strings_view(parts@),
            start <= parts@.len(),
            strings_view(rest@) == pv.subrange(start as int, i as int),
    {
        let ghost before = strings_view(rest@);
        rest.push(parts[i].clone());
        assert(strings_view(rest@) =~= before.push(pv[i as int]));
        assert(pv.subrange(start as int, i + 1) =~= pv.subrange(start as int, i as int).push(pv[i as int]));
    }
    assert(pv.subrange(start as int, pv.len() as int) =~= if skip_first {
        pv.drop_first()
    } else {
        pv
    });
    let ghost rv = strings_view(rest@);
    assert(rv == spec_rest);
    for k in 0..rest.len()
        invariant
            rv == strings_view(rest@),
            rv == spec_rest,
            spec_path_segments(api_root@) == pv,
            pv.len() > 0,
            spec_rest == spec_strip_crate(pv, lib_crate_name@),
            forall|j: int| 0 <= j < k ==> crate::collector::usage::spec_is_identifier(#[trigger] rv[j]),
    {
        assert(rv[k as int] == rest@[k as int]@);
        if !crate::collector::usage::is_identifier(rest[k].as_str()) {
            assert(!crate::collector::usage::spec_is_identifier(rv[k as int]));
            let mut m = "api collect --api-root `".to_owned();
            push_str(&mut m, api_root);
            push_str(&mut m, "` contains a non-identifier path segment");
            return Err(m);
        }
    }
    Ok(rest)
}

/// A library target's crate name: its target name with `-` spelled `_`.
pub open spec fn spec_lib_crate_name(target_name: Seq<char>) -> Seq<char> {
    target_name.map_values(|c: char| if c == '-' { '_' } else { c })
}

/// The crate name of a library target.
pub fn lib_crate_name(target_name: &str) -> (r: String)
    ensures
        r@ == spec_lib_crate_name(target_name@),
{
    let chars = chars_of(target_name);
    let mut out = String::new();
    for i in 0..chars.len()
        invariant
            chars@ == target_name@,
            out@ == spec_lib_crate_name(target_name@.take(i as int)),
    {
        let c = chars[i];
        push_char(&mut out, if c == '-' { '_' } else { c });
        assert(out@ =~= spec_lib_crate_name(target_name@.take(i + 1)));
    }
    assert(target_name@.take(chars@.len() as int) =~= target_name@);
    out
}

/// A collector directory name: ASCII letters and digits kept, everything
/// else spelled `-`.
pub open spec fn spec_collector_dir_name(name: Seq<char>) -> Seq<char> {
    name.map_values(
        |c: char|
            if crate::gen::text::is_ascii_alpha(c) || crate::gen::text::is_ascii_digit(c) {
                c
            } else {
                '-'
            },
    )
}

/// The directory name of a package's temporary collector and contract.
pub fn sanitize_package_dir_name(name: &str) -> (r: String)
    ensures
        r@ == spec_collector_dir_name(name@),
{
    let chars = chars_of(name);
    let mut out = String::new();
    for i in 0..chars.len()
        invariant
            chars@ == name@,
            out@ == spec_collector_dir_name(name@.take(i as int)),
    {
        let c = chars[i];
        let keep = ('a' <= c && c <= 'z') || ('A' <= c && c <= 'Z') || ('0' <= c && c <= '9');
        push_char(&mut out, if keep { c } else { '-' });
        assert(out@ =~= spec_collector_dir_name(name@.take(i + 1)));
    }
    assert(name@.take(chars@.len() as int) =~= name@);
    out
}

} // verus!

verus! {

/// The `features = [...]` line of the collector manifest: each feature
/// quoted, joined by `, `; nothing without features.
pub open spec fn spec_features_line(features: Seq<Seq<char>>) -> Seq<char> {
    if features.len() == 0 {
        Seq::empty()
    } else {
        "features = ["@ + crate::text::join(features.map_values(|f: Seq<char>| spec_json_string(f)), ", "@)
            + "]\n"@
    }
}

/// The manifest of the temporary collector crate of a package.
pub open spec fn spec_collector_manifest(
    package_name: Seq<char>,
    api_collector_path: Seq<char>,
    api_core_path: Seq<char>,
    package_dir: Seq<char>,
    no_default_features: bool,
    features: Seq<Seq<char>>,
) -> Seq<char> {
    "[package]\nname = \"api-contract-collector-"@ + spec_collector_dir_name(package_name)
        + "\"\nversion = \"0.0.0\"\nedition = \"2021\"\npublish = false\n\n[workspace]\n\n[dependencies]\napi-collector = { path = "@
        + spec_json_string(api_collector_path) + " }\napi-core = { path = "@ + spec_json_string(api_core_path)
        + " }\n\n[dependencies.target-api-package]\npackage = "@ + spec_json_string(package_name) + "\npath = "@
        + spec_json_string(package_dir) + "\n"@ + (if no_default_features {
        "default-features = false\n"@
    } else {
        Seq::empty()
    }) + spec_features_line(features) + "\n"@
}

/// Renders the manifest of the temporary collector crate: a crate that
/// depends on the collector, on `api-core` and on the package, with the
/// package's features.
pub fn render_collector_manifest(
    package_name: &str,
    api_collector_path: &str,
    api_core_path: &str,
    package_dir: &str,
    no_default_features: bool,
    features: &Vec<String>,
) -> (r: String)
    ensures
        r@ == spec_collector_manifest(
            package_name@,
            api_collector_path@,
            api_core_path@,
            package_dir@,
            no_default_features,
            strings_view(features@),
        ),
{
    let mut out = "[package]\nname = \"api-contract-collector-".to_owned();
    let dir_name = sanitize_package_dir_name(package_name);
    push_str(&mut out, dir_name.as_str());
    push_str(
        &mut out,
        "\"\nversion = \"0.0.0\"\nedition = \"2021\"\npublish = false\n\n[workspace]\n\n[dependencies]\napi-collector = { path = ",
    );
    let q = json_string(api_collector_path);
    push_str(&mut out, q.as_str());
    push_str(&mut out, " }\napi-core = { path = ");
    let q = json_string(api_core_path);
    push_str(&mut out, q.as_str());
    push_str(&mut out, " }\n\n[dependencies.target-api-package]\npackage = ");
    let q = json_string(package_name);
    push_str(&mut out, q.as_str());
    push_str(&mut out, "\npath = ");
    let q = json_string(package_dir);
    push_str(&mut out, q.as_str());
    push_str(&mut out, "\n");
    if no_default_features {
        push_str(&mut out, "default-features = false\n");
    }
    let ghost fs = strings_view(features@);
    if features.len() > 0 {
        let mut quoted: Vec<String> = Vec::new();
        for i in 0..features.len()
            invariant
                fs == strings_view(features@),
                quoted@.len() == i,
                forall|j: int| 0 <= j < i ==> #[trigger] quoted@[j]@ == spec_json_string(fs[j]),
        {
            assert(fs[i as int] == features@[i as int]@);
            quoted.push(json_string(features[i].as_str()));
        }
        assert(quoted@.map_values(|s: String| s@) =~= fs.map_values(|f: Seq<char>| spec_json_string(f)));
        let joined = crate::text::join_strings(&quoted, ", ");
        push_str(&mut out, "features = [");
        push_str(&mut out, joined.as_str());
        push_str(&mut out, "]\n");
    }
    push_str(&mut out, "\n");
    out
}

/// The `main.rs` of the temporary collector crate: it calls the API root
/// and prints the collected contract as JSON.
pub open spec fn spec_collector_main(api_root: Seq<Seq<char>>, ts_package_name: Seq<char>) -> Seq<char> {
    "fn main() {\n    let root_module: api_core::ApiModule = target_api_package::"@ + crate::text::join(
        api_root,
        "::"@,
    ) + "();\n    let contract = api_collector::collect_contract(api_collector::CollectorInput {\n        package_name: "@
        + spec_json_string(ts_package_name)
        + ".to_owned(),\n        root_module,\n        types: Vec::new(),\n        errors: Vec::new(),\n    });\n    println!(\n        \"{}\",\n        api_collector::contract_to_json(&contract).expect(\"collected contract should serialize\")\n    );\n}\n"@
}

/// Renders the `main.rs` of the temporary collector crate.
pub fn render_collector_main(api_root: &Vec<String>, ts_package_name: &str) -> (r: String)
    ensures
        r@ == spec_collector_main(strings_view(api_root@), ts_package_name@),
{
    let mut out = "fn main() {\n    let root_module: api_core::ApiModule = target_api_package::".to_owned();
    assert(api_root@.map_values(|s: String| s@) =~= strings_view(api_root@));
    let path = crate::text::join_strings(api_root, "::");
    push_str(&mut out, path.as_str());
    push_str(
        &mut out,
        "();\n    let contract = api_collector::collect_contract(api_collector::CollectorInput {\n        package_name: ",
    );
    let q = json_string(ts_package_name);
    push_str(&mut out, q.as_str());
    push_str(
        &mut out,
        ".to_owned(),\n        root_module,\n        types: Vec::new(),\n        errors: Vec::new(),\n    });\n    println!(\n        \"{}\",\n        api_collector::contract_to_json(&contract).expect(\"collected contract should serialize\")\n    );\n}\n",
    );
    out
}

} // verus!

verus! {

/// The strong usage count that the last summary of `endpoint_id` records.
pub open spec fn spec_last_strong(
    summaries: Seq<crate::collector::usage::EndpointSummaryModel>,
    endpoint_id: Seq<char>,
) -> Option<nat>
    decreases summaries.len(),
{
    if summaries.len() == 0 {
        None
    } else if summaries.last().endpoint_id == endpoint_id {
        Some(summaries.last().strong)
    } else {
        spec_last_strong(summaries.drop_last(), endpoint_id)
    }
}

/// The TypeScript location of a usage in user code.
pub open spec fn spec_usage_location(u: crate::collector::usage::UsageModel) -> LocationModel {
    let range = spec_range_from_source(u.source);
    LocationModel {
        file: Some(u.file),
        range,
        name_range: Some(range),
        full_range: Some(range),
        generated: false,
        renamable: Some(false),
    }
}

/// The locations of the usages of `endpoint_id`, in order.
pub open spec fn spec_usage_locations(usages: Seq<crate::collector::usage::UsageModel>, endpoint_id: Seq<char>) -> Seq<LocationModel> {
    flat_map(
        usages,
        |u: crate::collector::usage::UsageModel|
            if u.endpoint_id == endpoint_id {
                seq![spec_usage_location(u)]
            } else {
                Seq::empty()
            },
    )
}

/// An endpoint symbol after a usage scan: its usage count set from the
/// index's strong count when the index has one, its user-code locations
/// replaced by the scanned usages, its generated locations kept. Other
/// symbols are unchanged.
pub open spec fn spec_with_usages(s: SymbolModel, index: crate::collector::usage::IndexModel) -> SymbolModel {
    if s.kind == "endpoint"@ {
        SymbolModel {
            metadata: match spec_last_strong(index.endpoints, s.id) {
                Some(k) => MetadataModel { usage_count: Some(k as u64), ..s.metadata },
                None => s.metadata,
            },
            typescript: s.typescript.filter(|l: LocationModel| l.generated) + spec_usage_locations(
                index.usages,
                s.id,
            ),
            ..s
        }
    } else {
        s
    }
}

fn last_strong(summaries: &Vec<crate::collector::usage::EndpointUsageSummary>, endpoint_id: &str) -> (r: Option<u64>)
    ensures
        match spec_last_strong(crate::collector::usage::endpoint_summaries_view(summaries@), endpoint_id@) {
            Some(k) => r == Some(k as u64),
            None => r is None,
        },
{
    let ghost sv = crate::collector::usage::endpoint_summaries_view(summaries@);
    let mut found: Option<u64> = None;
    for i in 0..summaries.len()
        invariant
            sv == crate::collector::usage::endpoint_summaries_view(summaries@),
            match spec_last_strong(sv.take(i as int), endpoint_id@) {
                Some(k) => found == Some(k as u64),
                None => found is None,
            },
    {
        assert(sv.take(i + 1).drop_last() =~= sv.take(i as int));
        assert(sv[i as int] == summaries@[i as int]@);
        if str_eq(summaries[i].endpoint_id.as_str(), endpoint_id) {
            found = Some(summaries[i].strong);
        }
    }
    assert(sv.take(summaries@.len() as int) =~= sv);
    found
}

fn usage_location(u: &crate::collector::usage::EndpointUsage) -> (r: GraphLocation)
    ensures
        r@ == spec_usage_location(u@),
{
    let range = crate::gen::symbols::graph_range_from_source(&u.source);
    GraphLocation {
        file: Some(u.file.clone()),
        range,
        name_range: Some(range),
        full_range: Some(range),
        generated: false,
        renamable: Some(false),
    }
}

/// The locations of the scanned usages of the endpoint `id`, in order.
fn usage_locations(index: &crate::collector::usage::EffectUsageIndex, id: &str) -> (r: Vec<GraphLocation>)
    ensures
        locations_view(r@) == spec_usage_locations(crate::collector::usage::usages_view(index.usages@), id@),
{
    let mut out: Vec<GraphLocation> = Vec::new();
    let ghost us = crate::collector::usage::usages_view(index.usages@);
    let ghost f = |u: crate::collector::usage::UsageModel|
        if u.endpoint_id == id@ {
            seq![spec_usage_location(u)]
        } else {
            Seq::<LocationModel>::empty()
        };
    assert(flat_map(us.take(0), f) =~= Seq::<LocationModel>::empty());
    for i in 0..index.usages.len()
        invariant
            us == crate::collector::usage::usages_view(index.usages@),
            f == (|u: crate::collector::usage::UsageModel|
                if u.endpoint_id == id@ {
                    seq![spec_usage_location(u)]
                } else {
                    Seq::<LocationModel>::empty()
                }),
            locations_view(out@) == flat_map(us.take(i as int), f),
    {
        proof {
            lemma_flat_map_step(us, f, i as int);
        }
        assert(us[i as int] == index.usages@[i as int]@);
        let ghost before = locations_view(out@);
        if str_eq(index.usages[i].endpoint_id.as_str(), id) {
            let l = usage_location(&index.usages[i]);
            out.push(l);
            assert(locations_view(out@) =~= before + f(us[i as int]));
        } else {
            assert(locations_view(out@) =~= before + f(us[i as int]));
        }
    }
    assert(us.take(index.usages@.len() as int) =~= us);
    out
}

fn with_usages(s: LinkedSymbol, index: &crate::collector::usage::EffectUsageIndex) -> (r: LinkedSymbol)
    ensures
        r@ == spec_with_usages(s@, index@),
{
    if !str_eq(s.kind.as_str(), "endpoint") {
        return s;
    }
    let mut s = s;
    let ghost orig = s@;
    match last_strong(&index.endpoints, s.id.as_str()) {
        Some(k) => {
            s.metadata.usage_count = Some(k);
        },
        None => {},
    }
    let mut kept: Vec<GraphLocation> = Vec::new();
    let mut rest = Vec::new();
    std::mem::swap(&mut rest, &mut s.typescript);
    let ghost rv = rest@;
    let mut taken: Vec<GraphLocation> = Vec::new();
    let n = rest.len();
    while rest.len() > 0
        invariant
            taken@.len() + rest@.len() == n,
            rv.len() == n,
            forall|i: int| 0 <= i < rest@.len() ==> #[trigger] rest@[i] == rv[i],
            forall|i: int| 0 <= i < taken@.len() ==> #[trigger] taken@[i] == rv[n - 1 - i],
        decreases rest.len(),
    {
        let l = rest.pop().unwrap();
        taken.push(l);
    }
    let ghost keep = |l: LocationModel| l.generated;
    let mut k: usize = 0;
    assert(locations_view(kept@) =~= locations_view(rv.take(0)).filter(keep));
    while taken.len() > 0
        invariant
            k + taken@.len() == n,
            rv.len() == n,
            keep == (|l: LocationModel| l.generated),
            forall|i: int| 0 <= i < taken@.len() ==> #[trigger] taken@[i] == rv[n - 1 - i],
            locations_view(kept@) == locations_view(rv.take(k as int)).filter(keep),
        decreases taken.len(),
    {
        let l = taken.pop().unwrap();
        let ghost before = locations_view(kept@);
        assert(l == rv[k as int]);
        assert(locations_view(rv.take(k + 1)) =~= locations_view(rv.take(k as int)).push(l@));
        assert(locations_view(rv.take(k + 1)).drop_last() =~= locations_view(rv.take(k as int)));
        assert(locations_view(rv.take(k + 1)).filter(keep) == (if l@.generated {
            locations_view(rv.take(k as int)).filter(keep).push(l@)
        } else {
            locations_view(rv.take(k as int)).filter(keep)
        })) by {
            reveal(Seq::filter);
        }
        if l.generated {
            kept.push(l);
            assert(locations_view(kept@) =~= before.push(l@));
        }
        k = k + 1;
    }
    assert(rv.take(n as int) =~= rv);
    let added = usage_locations(index, s.id.as_str());
    let ghost base = locations_view(kept@);
    let mut added = added;
    kept.append(&mut added);
    assert(locations_view(kept@) =~= base + spec_usage_locations(
        crate::collector::usage::usages_view(index.usages@),
        s.id@,
    ));
    s.typescript = kept;
    s
}

/// The indexes of the flags that are set, in order.
pub open spec fn spec_set_indexes(flags: Seq<bool>) -> Seq<int>
    decreases flags.len(),
{
    if flags.len() == 0 {
        Seq::empty()
    } else if flags.last() {
        spec_set_indexes(flags.drop_last()).push(flags.len() - 1)
    } else {
        spec_set_indexes(flags.drop_last())
    }
}

/// What recording a usage scan does to one endpoint symbol of a symbol
/// graph file.
pub struct UsageEdit {
    /// The strong usage count to record, when the index summarizes the
    /// endpoint.
    pub usage_count: Option<u64>,
    /// The indexes of the TypeScript locations to keep, the generated ones,
    /// in order.
    pub kept: Vec<usize>,
    /// The locations of the endpoint's scanned usages, to append after them.
    pub added: Vec<GraphLocation>,
}

/// What recording a usage scan does to a symbol read from a symbol graph
/// file as its kind, its id and, for each of its TypeScript locations,
/// whether it is generated: nothing unless it is an endpoint; for an
/// endpoint, the strong count of the index's last summary of it, its
/// generated locations kept and its scanned usages added. The edit speaks
/// of these fields alone, so whatever else the file holds stays as it is.
pub fn symbol_usage_edit(
    kind: &str,
    id: &str,
    generated: &Vec<bool>,
    index: &crate::collector::usage::EffectUsageIndex,
) -> (r: Option<UsageEdit>)
    ensures
        kind@ != "endpoint"@ ==> r is None,
        kind@ == "endpoint"@ ==> (r matches Some(e) && (match spec_last_strong(
            crate::collector::usage::endpoint_summaries_view(index.endpoints@),
            id@,
        ) {
            Some(k) => e.usage_count == Some(k as u64),
            None => e.usage_count is None,
        }) && indexes_view(e.kept@) == spec_set_indexes(generated@) && locations_view(e.added@)
            == spec_usage_locations(crate::collector::usage::usages_view(index.usages@), id@)),
{
    if !str_eq(kind, "endpoint") {
        return None;
    }
    let usage_count = last_strong(&index.endpoints, id);
    let mut kept: Vec<usize> = Vec::new();
    assert(generated@.take(0) =~= Seq::<bool>::empty());
    assert(indexes_view(kept@) =~= Seq::<int>::empty());
    for i in 0..generated.len()
        invariant
            indexes_view(kept@) == spec_set_indexes(generated@.take(i as int)),
    {
        assert(generated@.take(i + 1).drop_last() =~= generated@.take(i as int));
        assert(generated@.take(i + 1).last() == generated@[i as int]);
        if generated[i] {
            let ghost before = indexes_view(kept@);
            kept.push(i);
            assert(indexes_view(kept@) =~= before.push(i as int));
        }
    }
    assert(generated@.take(generated@.len() as int) =~= generated@);
    let added = usage_locations(index, id);
    Some(UsageEdit { usage_count, kept, added })
}

/// Records a usage scan in a symbol graph: for each endpoint symbol, the
/// strong usage count of the index and the locations of the scanned
/// usages, in place of the user-code locations it had.
pub fn update_symbol_graph_usage_locations(
    graph: SymbolGraph,
    index: &crate::collector::usage::EffectUsageIndex,
) -> (r: SymbolGraph)
    ensures
        symbols_view(r.symbols@) == symbols_view(graph.symbols@).map_values(
            |s: SymbolModel| spec_with_usages(s, index@),
        ),
{
    let mut rest = graph.symbols;
    let ghost rv = rest@;
    let n = rest.len();
    let mut taken: Vec<LinkedSymbol> = Vec::new();
    while rest.len() > 0
        invariant
            taken@.len() + rest@.len() == n,
            rv.len() == n,
            forall|i: int| 0 <= i < rest@.len() ==> #[trigger] rest@[i] == rv[i],
            forall|i: int| 0 <= i < taken@.len() ==> #[trigger] taken@[i] == rv[n - 1 - i],
        decreases rest.len(),
    {
        let s = rest.pop().unwrap();
        taken.push(s);
    }
    let mut out: Vec<LinkedSymbol> = Vec::new();
    let mut k: usize = 0;
    while taken.len() > 0
        invariant
            k + taken@.len() == n,
            rv.len() == n,
            forall|i: int| 0 <= i < taken@.len() ==> #[trigger] taken@[i] == rv[n - 1 - i],
            out@.len() == k,
            forall|i: int| 0 <= i < k ==> #[trigger] out@[i]@ == spec_with_usages(rv[i]@, index@),
        decreases taken.len(),
    {
        let s = taken.pop().unwrap();
        assert(s == rv[k as int]);
        out.push(with_usages(s, index));
        k = k + 1;
    }
    assert(symbols_view(out@) =~= symbols_view(rv).map_values(|s: SymbolModel| spec_with_usages(s, index@)));
    SymbolGraph { symbols: out }
}

} // verus!

verus! {

/// The `[package.metadata.rust_ts]` table of a package.
#[derive(Debug, Default, PartialEq, Eq)]
pub struct RustTsPackageMetadata {
    pub ts_package: Option<String>,
    pub api_root: Option<String>,
    pub features: Option<Vec<String>>,
}

/// A workspace package as the collector reads it from cargo's metadata.
#[derive(Debug, PartialEq, Eq)]
pub struct WorkspacePackage {
    pub name: String,
    /// The names of the package's features.
    pub features: Vec<String>,
    /// The names of the package's dependencies.
    pub dependencies: Vec<String>,
    /// Its `rust_ts` metadata: absent, read, or why it did not parse.
    pub rust_ts: Option<Result<RustTsPackageMetadata, String>>,
    /// The name of its library target, if it has one.
    pub lib_target: Option<String>,
}

/// The package, API root and features that a collection targets.
#[derive(Debug, PartialEq, Eq)]
pub struct ResolvedCollectTarget {
    pub ts_package_name: String,
    pub api_root: Vec<String>,
    pub features: Vec<String>,
}

/// The error of a package whose `rust_ts` metadata did not parse.
pub open spec fn spec_invalid_metadata(name: Seq<char>, e: Seq<char>) -> Seq<char> {
    "invalid [package.metadata.rust_ts] for package `"@ + name + "`: "@ + e
}

/// The `rust_ts` metadata of a package, if it declares one.
pub fn package_rust_ts_metadata(package: &WorkspacePackage) -> (r: Result<Option<&RustTsPackageMetadata>, String>)
    ensures
        match package.rust_ts {
            None => r == Ok::<Option<&RustTsPackageMetadata>, String>(None),
            Some(Ok(m)) => r matches Ok(Some(x)) && *x == m,
            Some(Err(e)) => r matches Err(m) && m@ == spec_invalid_metadata(package.name@, e@),
        },
{
    match &package.rust_ts {
        None => Ok(None),
        Some(Ok(m)) => Ok(Some(m)),
        Some(Err(e)) => {
            let mut m = "invalid [package.metadata.rust_ts] for package `".to_owned();
            push_str(&mut m, package.name.as_str());
            push_str(&mut m, "`: ");
            push_str(&mut m, e.as_str());
            Err(m)
        },
    }
}

/// The indexes of the packages that declare `rust_ts` metadata, in order,
/// or the error of the first whose metadata did not parse.
pub open spec fn spec_api_enabled(packages: Seq<WorkspacePackage>) -> Result<Seq<int>, Seq<char>>
    decreases packages.len(),
{
    if packages.len() == 0 {
        Ok(Seq::empty())
    } else {
        match spec_api_enabled(packages.drop_last()) {
            Err(e) => Err(e),
            Ok(found) => match packages.last().rust_ts {
                None => Ok(found),
                Some(Ok(_)) => Ok(found.push(packages.len() - 1)),
                Some(Err(e)) => Err(spec_invalid_metadata(packages.last().name@, e@)),
            },
        }
    }
}

/// The indexes of a list as integers.
pub open spec fn indexes_view(v: Seq<usize>) -> Seq<int> {
    v.map_values(|x: usize| x as int)
}

/// The packages that declare `rust_ts` metadata.
pub fn api_enabled_packages(packages: &Vec<WorkspacePackage>) -> (r: Result<Vec<usize>, String>)
    ensures
        match spec_api_enabled(packages@) {
            Ok(found) => r matches Ok(v) && indexes_view(v@) == found,
            Err(e) => r matches Err(m) && m@ == e,
        },
{
    let mut found: Vec<usize> = Vec::new();
    let mut i: usize = 0;
    assert(packages@.take(0) =~= Seq::<WorkspacePackage>::empty());
    assert(indexes_view(found@) =~= Seq::<int>::empty());
    while i < packages.len()
        invariant
            i <= packages@.len(),
            spec_api_enabled(packages@.take(i as int)) == Ok::<Seq<int>, Seq<char>>(indexes_view(found@)),
        decreases packages@.len() - i,
    {
        assert(packages@.take(i + 1).drop_last() =~= packages@.take(i as int));
        assert(packages@.take(i + 1).last() == packages@[i as int]);
        match package_rust_ts_metadata(&packages[i]) {
            Err(m) => {
                proof {
                    lemma_api_enabled_error(packages@, i as int);
                }
                return Err(m);
            },
            Ok(None) => {},
            Ok(Some(_)) => {
                let ghost before = indexes_view(found@);
                found.push(i);
                assert(indexes_view(found@) =~= before.push(i as int));
            },
        }
        i = i + 1;
    }
    assert(packages@.take(packages@.len() as int) =~= packages@);
    Ok(found)
}

proof fn lemma_api_enabled_error(packages: Seq<WorkspacePackage>, i: int)
    requires
        0 <= i < packages.len(),
        spec_api_enabled(packages.take(i)) is Ok,
        packages[i].rust_ts matches Some(Err(_)),
    ensures
        spec_api_enabled(packages) == spec_api_enabled(packages.take(i + 1)),
        spec_api_enabled(packages.take(i + 1)) is Err,
    decreases packages.len() - i,
{
    assert(packages.take(i + 1).drop_last() =~= packages.take(i));
    if i + 1 < packages.len() {
        lemma_api_enabled_error_extends(packages, i + 1);
    } else {
        assert(packages.take(i + 1) =~= packages);
    }
}

proof fn lemma_api_enabled_error_extends(packages: Seq<WorkspacePackage>, j: int)
    requires
        0 < j <= packages.len(),
        spec_api_enabled(packages.take(j)) is Err,
    ensures
        spec_api_enabled(packages) == spec_api_enabled(packages.take(j)),
    decreases packages.len() - j,
{
    if j < packages.len() {
        assert(packages.take(j + 1).drop_last() =~= packages.take(j));
        lemma_api_enabled_error_extends(packages, j + 1);
    } else {
        assert(packages.take(j) =~= packages);
    }
}

} // verus!

verus! {

/// The first package with a name.
pub open spec fn spec_find_package(packages: Seq<WorkspacePackage>, name: Seq<char>) -> Option<int>
    decreases packages.len(),
{
    if packages.len() == 0 {
        None
    } else if packages[0].name@ == name {
        Some(0)
    } else {
        match spec_find_package(packages.drop_first(), name) {
            Some(k) => Some(k + 1),
            None => None,
        }
    }
}

/// The package a collection targets: the one named, or else the single
/// package that declares `rust_ts` metadata.
pub open spec fn spec_resolve_package(packages: Seq<WorkspacePackage>, name: Option<Seq<char>>) -> Result<int, Seq<char>> {
    match name {
        Some(n) => match spec_find_package(packages, n) {
            Some(k) => Ok(k),
            None => Err("api collect could not find workspace package `"@ + n + "`"@),
        },
        None => match spec_api_enabled(packages) {
            Err(e) => Err(e),
            Ok(found) => if found.len() == 1 {
                Ok(found[0])
            } else if found.len() == 0 {
                Err(
                    "api collect requires --package <cargo-package> because no workspace package declares [package.metadata.rust_ts]"@,
                )
            } else {
                Err(
                    "api collect found multiple API-enabled packages ("@ + crate::text::join(
                        found.map_values(|k: int| packages[k].name@),
                        ", "@,
                    ) + ") ; pass --package <cargo-package>"@,
                )
            },
        },
    }
}

/// The error of a workspace collection that finds no API-enabled package.
pub open spec fn spec_no_api_packages() -> Seq<char> {
    "api collect --workspace found no packages with [package.metadata.rust_ts]"@
}

/// The packages a workspace collection collects: the API-enabled ones, of
/// which there must be at least one.
pub fn workspace_collect_packages(packages: &Vec<WorkspacePackage>) -> (r: Result<Vec<usize>, String>)
    ensures
        match spec_api_enabled(packages@) {
            Ok(found) => if found.len() == 0 {
                r matches Err(m) && m@ == spec_no_api_packages()
            } else {
                r matches Ok(v) && indexes_view(v@) == found
            },
            Err(e) => r matches Err(m) && m@ == e,
        },
{
    let found = api_enabled_packages(packages)?;
    if found.len() == 0 {
        return Err("api collect --workspace found no packages with [package.metadata.rust_ts]".to_owned());
    }
    Ok(found)
}

/// The packages found are indexes of the list.
pub proof fn lemma_api_enabled_bounds(packages: Seq<WorkspacePackage>)
    ensures
        spec_api_enabled(packages) matches Ok(found) ==> forall|j: int|
            0 <= j < found.len() ==> 0 <= #[trigger] found[j] < packages.len(),
    decreases packages.len(),
{
    if packages.len() > 0 {
        lemma_api_enabled_bounds(packages.drop_last());
    }
}

fn find_package(packages: &Vec<WorkspacePackage>, name: &str) -> (r: Option<usize>)
    ensures
        match spec_find_package(packages@, name@) {
            Some(k) => r == Some(k as usize),
            None => r is None,
        },
{
    let ghost ps = packages@;
    assert(ps.subrange(0, ps.len() as int) =~= ps);
    for k in 0..packages.len()
        invariant
            ps == packages@,
            spec_find_package(ps, name@) == match spec_find_package(ps.subrange(k as int, ps.len() as int), name@) {
                Some(j) => Some(j + k),
                None => None::<int>,
            },
    {
        let ghost rest = ps.subrange(k as int, ps.len() as int);
        assert(rest[0] == ps[k as int]);
        assert(rest.drop_first() =~= ps.subrange(k + 1, ps.len() as int));
        if str_eq(packages[k].name.as_str(), name) {
            return Some(k);
        }
    }
    assert(ps.subrange(ps.len() as int, ps.len() as int) =~= Seq::<WorkspacePackage>::empty());
    None
}

/// Resolves the package a collection targets.
pub fn resolve_collect_package(packages: &Vec<WorkspacePackage>, name: Option<&str>) -> (r: Result<usize, String>)
    ensures
        match spec_resolve_package(
            packages@,
            match name {
                Some(n) => Some(n@),
                None => None,
            },
        ) {
            Ok(k) => r == Ok::<usize, String>(k as usize),
            Err(e) => r matches Err(m) && m@ == e,
        },
{
    if let Some(n) = name {
        return match find_package(packages, n) {
            Some(k) => Ok(k),
            None => {
                let mut m = "api collect could not find workspace package `".to_owned();
                push_str(&mut m, n);
                push_str(&mut m, "`");
                Err(m)
            },
        };
    }
    let found = api_enabled_packages(packages)?;
    let ghost fv = indexes_view(found@);
    proof {
        lemma_api_enabled_bounds(packages@);
    }
    if found.len() == 1 {
        assert(fv[0] == found@[0] as int);
        return Ok(found[0]);
    }
    if found.len() == 0 {
        return Err(
            "api collect requires --package <cargo-package> because no workspace package declares [package.metadata.rust_ts]".to_owned(),
        );
    }
    let mut names: Vec<String> = Vec::new();
    for i in 0..found.len()
        invariant
            fv == indexes_view(found@),
            names@.len() == i,
            forall|j: int| 0 <= j < fv.len() ==> 0 <= #[trigger] fv[j] < packages@.len(),
            forall|j: int| 0 <= j < i ==> #[trigger] names@[j]@ == packages@[fv[j]].name@,
    {
        assert(fv[i as int] == found@[i as int] as int);
        names.push(packages[found[i]].name.clone());
    }
    assert(names@.map_values(|s: String| s@) =~= fv.map_values(|k: int| packages@[k].name@));
    let joined = crate::text::join_strings(&names, ", ");
    let mut m = "api collect found multiple API-enabled packages (".to_owned();
    push_str(&mut m, joined.as_str());
    push_str(&mut m, ") ; pass --package <cargo-package>");
    Err(m)
}

} // verus!

verus! {

/// A package's crate name, or why it has none.
pub fn package_lib_crate_name(package: &WorkspacePackage) -> (r: Result<String, String>)
    ensures
        match package.lib_target {
            Some(t) => r matches Ok(n) && n@ == spec_lib_crate_name(t@),
            None => r matches Err(m) && m@ == "api collect package `"@ + package.name@
                + "` must expose a library target so the temporary collector can depend on it"@,
        },
{
    match &package.lib_target {
        Some(t) => Ok(lib_crate_name(t.as_str())),
        None => {
            let mut m = "api collect package `".to_owned();
            push_str(&mut m, package.name.as_str());
            push_str(&mut m, "` must expose a library target so the temporary collector can depend on it");
            Err(m)
        },
    }
}

/// The dependencies of a package that are API packages themselves, in
/// text order and each once.
pub open spec fn spec_dependency_edges(dependencies: Seq<Seq<char>>, api_names: Seq<Seq<char>>) -> Seq<Seq<char>> {
    spec_sorted_set(dependencies.filter(|d: Seq<char>| api_names.contains(d)))
}

fn contains_string(items: &Vec<String>, s: &str) -> (r: bool)
    ensures
        r == strings_view(items@).contains(s@),
{
    for i in 0..items.len()
        invariant
            forall|j: int| 0 <= j < i ==> items@[j]@ != s@,
    {
        if str_eq(items[i].as_str(), s) {
            assert(strings_view(items@)[i as int] == s@);
            return true;
        }
    }
    assert(!strings_view(items@).contains(s@)) by {
        if strings_view(items@).contains(s@) {
            let j = choose|j: int| 0 <= j < items@.len() && strings_view(items@)[j] == s@;
            assert(items@[j]@ == s@);
        }
    }
    false
}

/// The API packages a package depends on.
pub fn api_dependency_edges(package: &WorkspacePackage, api_names: &Vec<String>) -> (r: Vec<String>)
    ensures
        strings_view(r@) == spec_dependency_edges(strings_view(package.dependencies@), strings_view(api_names@)),
{
    let ghost ds = strings_view(package.dependencies@);
    let ghost keep = |d: Seq<char>| strings_view(api_names@).contains(d);
    let mut out: Vec<String> = Vec::new();
    assert(strings_view(out@) =~= ds.take(0).filter(keep));
    for i in 0..package.dependencies.len()
        invariant
            ds == strings_view(package.dependencies@),
            keep == (|d: Seq<char>| strings_view(api_names@).contains(d)),
            strings_view(out@) == ds.take(i as int).filter(keep),
    {
        let d = &package.dependencies[i];
        assert(ds[i as int] == d@);
        assert(ds.take(i + 1).drop_last() =~= ds.take(i as int));
        assert(ds.take(i + 1).filter(keep) == (if keep(d@) {
            ds.take(i as int).filter(keep).push(d@)
        } else {
            ds.take(i as int).filter(keep)
        })) by {
            reveal(Seq::filter);
        }
        let ghost before = strings_view(out@);
        if contains_string(api_names, d.as_str()) {
            out.push(d.clone());
            assert(strings_view(out@) =~= before.push(d@));
        }
    }
    assert(ds.take(ds.len() as int) =~= ds);
    sorted_unique_strings(out)
}

/// Strings in text order.
pub open spec fn spec_sorted(items: Seq<Seq<char>>) -> Seq<Seq<char>> {
    crate::order::spec_sort(items, crate::order::text_order())
}

fn sort_strings(items: Vec<String>) -> (r: Vec<String>)
    ensures
        strings_view(r@) == spec_sorted(strings_view(items@)),
{
    let ghost slt = |a: String, b: String| crate::order::seq_lt(a@, b@);
    let lt = |a: &String, b: &String| -> (o: bool)
        ensures
            o == crate::order::seq_lt(a@, b@),
        { crate::order::str_lt(a.as_str(), b.as_str()) };
    let ghost before = items@;
    let sorted = crate::order::sort_by(items, lt, Ghost(slt));
    proof {
        let f = |s: String| s@;
        crate::order::lemma_sort_map(before, f, slt, crate::order::text_order());
        assert(before.map_values(f) =~= strings_view(before));
        assert(sorted@.map_values(f) =~= strings_view(sorted@));
    }
    sorted
}

/// The features a collection enables: all of the package's, in text
/// order, with `--all-features`; else those given on the command line;
/// else those of the package's `rust_ts` metadata.
pub open spec fn spec_target_features(
    options: CollectModel,
    package_features: Seq<Seq<char>>,
    metadata_features: Option<Seq<Seq<char>>>,
) -> Seq<Seq<char>> {
    if options.all_features {
        spec_sorted(package_features)
    } else if options.features.len() == 0 {
        match metadata_features {
            Some(f) => f,
            None => Seq::empty(),
        }
    } else {
        options.features
    }
}

/// The model of optional metadata features.
pub open spec fn metadata_features_view(m: Option<&RustTsPackageMetadata>) -> Option<Seq<Seq<char>>> {
    match m {
        Some(x) => match x.features {
            Some(f) => Some(strings_view(f@)),
            None => None,
        },
        None => None,
    }
}

/// The target of a collection: the TypeScript package name and API root
/// from the options, or else from the package's metadata, with the
/// features to enable.
pub open spec fn spec_resolve_target(
    options: CollectModel,
    package: WorkspacePackage,
    metadata: Option<&RustTsPackageMetadata>,
    lib_crate_name: Seq<char>,
) -> Result<(Seq<char>, Seq<Seq<char>>, Seq<Seq<char>>), Seq<char>> {
    let ts = match options.package_name {
        Some(n) => Some(n),
        None => match metadata {
            Some(m) => opt_view(m.ts_package),
            None => None,
        },
    };
    let root = match options.api_root {
        Some(r) => Some(r),
        None => match metadata {
            Some(m) => opt_view(m.api_root),
            None => None,
        },
    };
    match ts {
        None => Err(
            "api collect package `"@ + package.name@
                + "` requires --package-name <ts-package-name> or package.metadata.rust_ts.ts_package"@,
        ),
        Some(ts) => match root {
            None => Err(
                "api collect package `"@ + package.name@
                    + "` requires --api-root <path::to::api> or package.metadata.rust_ts.api_root"@,
            ),
            Some(root) => match spec_normalize_api_root(root, lib_crate_name) {
                Err(e) => Err(e),
                Ok(parts) => Ok(
                    (
                        ts,
                        parts,
                        spec_target_features(options, strings_view(package.features@), metadata_features_view(metadata)),
                    ),
                ),
            },
        },
    }
}

fn first_of(a: &Option<String>, m: Option<&RustTsPackageMetadata>, ts: bool) -> (r: Option<String>)
    ensures
        opt_view(r) == match *a {
            Some(x) => Some(x@),
            None => match m {
                Some(mm) => if ts {
                    opt_view(mm.ts_package)
                } else {
                    opt_view(mm.api_root)
                },
                None => None,
            },
        },
{
    match a {
        Some(x) => Some(x.clone()),
        None => match m {
            Some(mm) => {
                let v = if ts {
                    &mm.ts_package
                } else {
                    &mm.api_root
                };
                match v {
                    Some(s) => Some(s.clone()),
                    None => None,
                }
            },
            None => None,
        },
    }
}

/// Resolves the target of a collection.
pub fn resolve_collect_target(
    options: &CollectOptions,
    package: &WorkspacePackage,
    metadata: Option<&RustTsPackageMetadata>,
    lib_crate_name: &str,
) -> (r: Result<ResolvedCollectTarget, String>)
    ensures
        match spec_resolve_target(options@, *package, metadata, lib_crate_name@) {
            Ok((ts, root, features)) => r matches Ok(t) && t.ts_package_name@ == ts && strings_view(t.api_root@)
                == root && strings_view(t.features@) == features,
            Err(e) => r matches Err(m) && m@ == e,
        },
{
    let ts = match first_of(&options.package_name, metadata, true) {
        Some(ts) => ts,
        None => {
            let mut m = "api collect package `".to_owned();
            push_str(&mut m, package.name.as_str());
            push_str(&mut m, "` requires --package-name <ts-package-name> or package.metadata.rust_ts.ts_package");
            return Err(m);
        },
    };
    let root = match first_of(&options.api_root, metadata, false) {
        Some(root) => root,
        None => {
            let mut m = "api collect package `".to_owned();
            push_str(&mut m, package.name.as_str());
            push_str(&mut m, "` requires --api-root <path::to::api> or package.metadata.rust_ts.api_root");
            return Err(m);
        },
    };
    let features = if options.all_features {
        sort_strings(crate::ir::clone_strings(&package.features))
    } else if options.features.len() == 0 {
        match metadata {
            Some(m) => match &m.features {
                Some(f) => crate::ir::clone_strings(f),
                None => Vec::new(),
            },
            None => Vec::new(),
        }
    } else {
        crate::ir::clone_strings(&options.features)
    };
    assert(strings_view(features@) == spec_target_features(
        options@,
        strings_view(package.features@),
        metadata_features_view(metadata),
    ));
    let api_root = normalize_api_root(root.as_str(), lib_crate_name)?;
    Ok(ResolvedCollectTarget { ts_package_name: ts, api_root, features })
}

} // verus!

verus! {

/// A package of the workspace contract graph.
#[derive(Debug, PartialEq, Eq)]
pub struct WorkspaceContractPackage {
    pub cargo_package: String,
    pub ts_package: String,
    pub contract_path: String,
    pub dependencies: Vec<String>,
}

/// The API packages of a workspace and the contracts collected for them.
#[derive(Debug, PartialEq, Eq)]
pub struct WorkspaceContractGraph {
    pub packages: Vec<WorkspaceContractPackage>,
}

/// Packages are ordered by cargo package name.
pub open spec fn package_lt(a: WorkspaceContractPackage, b: WorkspaceContractPackage) -> bool {
    crate::order::seq_lt(a.cargo_package@, b.cargo_package@)
}

/// The order of a workspace graph's packages.
pub open spec fn package_order() -> spec_fn(WorkspaceContractPackage, WorkspaceContractPackage) -> bool {
    |a: WorkspaceContractPackage, b: WorkspaceContractPackage| package_lt(a, b)
}

/// The workspace contract graph of the collected `packages`: ordered by
/// cargo package name, packages of one name in the order given.
pub fn workspace_contract_graph(packages: Vec<WorkspaceContractPackage>) -> (r: WorkspaceContractGraph)
    ensures
        r.packages@ == crate::order::spec_sort(packages@, package_order()),
{
    let lt = |a: &WorkspaceContractPackage, b: &WorkspaceContractPackage| -> (o: bool)
        ensures
            o == package_lt(*a, *b),
        { crate::order::str_lt(a.cargo_package.as_str(), b.cargo_package.as_str()) };
    WorkspaceContractGraph { packages: crate::order::sort_by(packages, lt, Ghost(package_order())) }
}

/// The package a name refers to: the last one with that name.
pub open spec fn spec_lookup_package(pkgs: Seq<WorkspaceContractPackage>, name: Seq<char>) -> Option<int>
    decreases pkgs.len(),
{
    if pkgs.len() == 0 {
        None
    } else if pkgs.last().cargo_package@ == name {
        Some(pkgs.len() - 1)
    } else {
        spec_lookup_package(pkgs.drop_last(), name)
    }
}

/// The error of a dependency cycle through a package.
pub open spec fn spec_cycle_error(name: Seq<char>) -> Seq<char> {
    "workspace contract graph contains a dependency cycle at `"@ + name + "`"@
}

/// A depth-first visit of package `k`: unless already placed, its
/// dependencies are placed first, then it; a package met again while its
/// dependencies are being visited closes a cycle. `temp` holds the packages
/// being visited, `perm` those placed, `ordered` the placement order.
pub open spec fn spec_visit(
    pkgs: Seq<WorkspaceContractPackage>,
    k: int,
    temp: Set<int>,
    perm: Set<int>,
    ordered: Seq<int>,
    fuel: nat,
) -> Result<(Set<int>, Seq<int>), Seq<char>>
    decreases fuel, 0int,
{
    if perm.contains(k) {
        Ok((perm, ordered))
    } else if temp.contains(k) {
        Err(spec_cycle_error(pkgs[k].cargo_package@))
    } else if fuel == 0 {
        Err(Seq::empty())
    } else {
        match spec_visit_deps(
            pkgs,
            strings_view(pkgs[k].dependencies@),
            0,
            temp.insert(k),
            perm,
            ordered,
            (fuel - 1) as nat,
        ) {
            Err(e) => Err(e),
            Ok((p, o)) => Ok((p.insert(k), o.push(k))),
        }
    }
}

/// Visits the dependencies from the `j`-th on that name packages of the
/// graph.
pub open spec fn spec_visit_deps(
    pkgs: Seq<WorkspaceContractPackage>,
    deps: Seq<Seq<char>>,
    j: int,
    temp: Set<int>,
    perm: Set<int>,
    ordered: Seq<int>,
    fuel: nat,
) -> Result<(Set<int>, Seq<int>), Seq<char>>
    decreases fuel, deps.len() - j + 1,
{
    if j < 0 || j >= deps.len() {
        Ok((perm, ordered))
    } else {
        match spec_lookup_package(pkgs, deps[j]) {
            None => spec_visit_deps(pkgs, deps, j + 1, temp, perm, ordered, fuel),
            Some(k) => match spec_visit(pkgs, k, temp, perm, ordered, fuel) {
                Err(e) => Err(e),
                Ok((p, o)) => spec_visit_deps(pkgs, deps, j + 1, temp, p, o, fuel),
            },
        }
    }
}

/// Visits the packages from the `i`-th on, in order.
pub open spec fn spec_order_from(
    pkgs: Seq<WorkspaceContractPackage>,
    i: int,
    perm: Set<int>,
    ordered: Seq<int>,
) -> Result<Seq<int>, Seq<char>>
    decreases pkgs.len() - i,
{
    if i < 0 || i >= pkgs.len() {
        Ok(ordered)
    } else {
        match spec_lookup_package(pkgs, pkgs[i].cargo_package@) {
            None => Err(Seq::empty()),
            Some(k) => match spec_visit(pkgs, k, Set::empty(), perm, ordered, (pkgs.len() + 1) as nat) {
                Err(e) => Err(e),
                Ok((p, o)) => spec_order_from(pkgs, i + 1, p, o),
            },
        }
    }
}

/// The order in which a workspace's packages are generated: every package
/// after the packages it depends on, otherwise in the graph's order; or
/// the cycle that prevents one.
pub open spec fn spec_generation_order(pkgs: Seq<WorkspaceContractPackage>) -> Result<Seq<int>, Seq<char>> {
    spec_order_from(pkgs, 0, Set::empty(), Seq::empty())
}

/// The indexes whose mark is set.
pub open spec fn mark_set(marks: Seq<bool>) -> Set<int> {
    Set::new(|i: int| 0 <= i < marks.len() && marks[i])
}

proof fn lemma_mark_set_bounds(marks: Seq<bool>)
    ensures
        mark_set(marks).finite(),
        mark_set(marks).len() <= marks.len(),
        mark_set(marks).subset_of(vstd::set_lib::set_int_range(0, marks.len() as int)),
{
    vstd::set_lib::lemma_int_range(0, marks.len() as int);
    vstd::set_lib::lemma_len_subset(mark_set(marks), vstd::set_lib::set_int_range(0, marks.len() as int));
}

proof fn lemma_mark_insert(marks: Seq<bool>, k: int)
    requires
        0 <= k < marks.len(),
        !marks[k],
    ensures
        mark_set(marks.update(k, true)) == mark_set(marks).insert(k),
        mark_set(marks.update(k, true)).len() == mark_set(marks).len() + 1,
        mark_set(marks).len() + 1 <= marks.len(),
{
    assert(mark_set(marks.update(k, true)) =~= mark_set(marks).insert(k));
    lemma_mark_set_bounds(marks);
    lemma_mark_set_bounds(marks.update(k, true));
    vstd::set::axiom_set_insert_len(mark_set(marks), k);
}

fn lookup_package(pkgs: &Vec<WorkspaceContractPackage>, name: &str) -> (r: Option<usize>)
    ensures
        match spec_lookup_package(pkgs@, name@) {
            Some(k) => r == Some(k as usize),
            None => r is None,
        },
{
    let mut found: Option<usize> = None;
    for i in 0..pkgs.len()
        invariant
            match spec_lookup_package(pkgs@.take(i as int), name@) {
                Some(k) => found == Some(k as usize),
                None => found is None,
            },
    {
        assert(pkgs@.take(i + 1).drop_last() =~= pkgs@.take(i as int));
        if str_eq(pkgs[i].cargo_package.as_str(), name) {
            found = Some(i);
        }
    }
    assert(pkgs@.take(pkgs@.len() as int) =~= pkgs@);
    found
}

proof fn lemma_lookup_bound(pkgs: Seq<WorkspaceContractPackage>, name: Seq<char>)
    ensures
        spec_lookup_package(pkgs, name) matches Some(k) ==> 0 <= k < pkgs.len(),
    decreases pkgs.len(),
{
    if pkgs.len() > 0 {
        lemma_lookup_bound(pkgs.drop_last(), name);
    }
}

} // verus!

verus! {

fn visit_package(
    pkgs: &Vec<WorkspaceContractPackage>,
    k: usize,
    temp: &mut Vec<bool>,
    perm: &mut Vec<bool>,
    ordered: &mut Vec<usize>,
    Ghost(fuel): Ghost<nat>,
) -> (r: Result<(), String>)
    requires
        k < pkgs@.len(),
        old(temp)@.len() == pkgs@.len(),
        old(perm)@.len() == pkgs@.len(),
        fuel + mark_set(old(temp)@).len() >= pkgs@.len() + 1,
    ensures
        final(temp)@.len() == pkgs@.len(),
        final(perm)@.len() == pkgs@.len(),
        match spec_visit(
            pkgs@,
            k as int,
            mark_set(old(temp)@),
            mark_set(old(perm)@),
            indexes_view(old(ordered)@),
            fuel,
        ) {
            Ok((p, o)) => r is Ok && final(temp)@ == old(temp)@ && mark_set(final(perm)@) == p && indexes_view(
                final(ordered)@,
            ) == o,
            Err(e) => r matches Err(m) && m@ == e,
        },
    decreases fuel,
{
    let ghost n = pkgs@.len();
    let count = pkgs.len();
    let ghost temp0 = temp@;
    let ghost perm0 = perm@;
    let ghost ord0 = indexes_view(ordered@);
    assert(mark_set(perm@).contains(k as int) == perm@[k as int]);
    assert(mark_set(temp@).contains(k as int) == temp@[k as int]);
    if perm[k] {
        return Ok(());
    }
    if temp[k] {
        let mut m = "workspace contract graph contains a dependency cycle at `".to_owned();
        push_str(&mut m, pkgs[k].cargo_package.as_str());
        push_str(&mut m, "`");
        return Err(m);
    }
    proof {
        lemma_mark_insert(temp@, k as int);
    }
    temp.set(k, true);
    let ghost t1 = mark_set(temp@);
    let ghost f1 = (fuel - 1) as nat;
    let deps = &pkgs[k].dependencies;
    let ghost dv = strings_view(deps@);
    let ghost target = spec_visit_deps(pkgs@, dv, 0, t1, mark_set(perm@), indexes_view(ordered@), f1);
    assert(t1 == mark_set(temp0).insert(k as int));
    assert(fuel > 0);
    assert(spec_visit(pkgs@, k as int, mark_set(temp0), mark_set(perm0), ord0, fuel) == match target {
        Err(e) => Err(e),
        Ok((p, o)) => Ok::<(Set<int>, Seq<int>), Seq<char>>((p.insert(k as int), o.push(k as int))),
    });
    for j in 0..deps.len()
        invariant
            n == pkgs@.len(),
            count == n,
            k < n,
            temp0.len() == n,
            f1 + 1 == fuel,
            temp@ == temp0.update(k as int, true),
            t1 == mark_set(temp@),
            perm@.len() == n,
            dv == strings_view(deps@),
            deps == &pkgs@[k as int].dependencies,
            f1 + t1.len() >= n + 1,
            spec_visit_deps(pkgs@, dv, j as int, t1, mark_set(perm@), indexes_view(ordered@), f1) == target,
            spec_visit(pkgs@, k as int, mark_set(old(temp)@), mark_set(old(perm)@), indexes_view(old(ordered)@), fuel)
                == match target {
                Err(e) => Err(e),
                Ok((p, o)) => Ok::<(Set<int>, Seq<int>), Seq<char>>((p.insert(k as int), o.push(k as int))),
            },
    {
        assert(dv[j as int] == deps@[j as int]@);
        let found = lookup_package(pkgs, deps[j].as_str());
        proof {
            lemma_lookup_bound(pkgs@, dv[j as int]);
        }
        assert(match spec_lookup_package(pkgs@, dv[j as int]) {
            Some(kk) => found == Some(kk as usize),
            None => found is None,
        });
        match found {
            None => {},
            Some(k2) => {
                let ghost pre_perm = mark_set(perm@);
                let ghost pre_ord = indexes_view(ordered@);
                assert(spec_lookup_package(pkgs@, dv[j as int]) == Some(k2 as int));
                assert(spec_visit_deps(pkgs@, dv, j as int, t1, pre_perm, pre_ord, f1) == match spec_visit(
                    pkgs@,
                    k2 as int,
                    t1,
                    pre_perm,
                    pre_ord,
                    f1,
                ) {
                    Err(e) => Err(e),
                    Ok((p, o)) => spec_visit_deps(pkgs@, dv, j + 1, t1, p, o, f1),
                });
                match visit_package(pkgs, k2, temp, perm, ordered, Ghost(f1)) {
                    Err(e) => {
                        assert(spec_visit(pkgs@, k2 as int, t1, pre_perm, pre_ord, f1) == Err::<(Set<int>, Seq<int>), Seq<char>>(e@));
                        assert(target == Err::<(Set<int>, Seq<int>), Seq<char>>(e@));
                        return Err(e);
                    },
                    Ok(()) => {
                        assert(spec_visit(pkgs@, k2 as int, t1, pre_perm, pre_ord, f1) == Ok::<
                            (Set<int>, Seq<int>),
                            Seq<char>,
                        >((mark_set(perm@), indexes_view(ordered@))));
                    },
                }
            },
        }
    }
    temp.set(k, false);
    assert(temp@ =~= temp0);
    let ghost p_before = mark_set(perm@);
    perm.set(k, true);
    assert(mark_set(perm@) =~= p_before.insert(k as int));
    let ghost o_before = indexes_view(ordered@);
    ordered.push(k);
    assert(indexes_view(ordered@) =~= o_before.push(k as int));
    Ok(())
}

/// Whether the `d`-th dependency of the `i`-th placed package, when it
/// names a package of the graph, was placed before it.
pub open spec fn dep_placed_before(pkgs: Seq<WorkspaceContractPackage>, o: Seq<int>, i: int, d: int) -> bool {
    match spec_lookup_package(pkgs, pkgs[o[i]].dependencies@[d]@) {
        Some(kd) => exists|j: int| 0 <= j < i && o[j] == kd,
        None => true,
    }
}

/// Whether every placed package comes after the packages of the graph
/// that it depends on.
pub open spec fn deps_placed_before(pkgs: Seq<WorkspaceContractPackage>, o: Seq<int>) -> bool {
    forall|i: int, d: int|
        0 <= i < o.len() && 0 <= d < pkgs[o[i]].dependencies@.len() ==> #[trigger] dep_placed_before(pkgs, o, i, d)
}

/// What a partial placement keeps: dependencies first, the placed set is
/// the set of the placement, and every placed index is a package.
pub open spec fn placement_inv(pkgs: Seq<WorkspaceContractPackage>, p: Set<int>, o: Seq<int>) -> bool {
    &&& deps_placed_before(pkgs, o)
    &&& forall|x: int| p.contains(x) <==> o.contains(x)
    &&& forall|i: int| 0 <= i < o.len() ==> 0 <= #[trigger] o[i] < pkgs.len()
}

proof fn lemma_visit_places(
    pkgs: Seq<WorkspaceContractPackage>,
    k: int,
    temp: Set<int>,
    perm: Set<int>,
    ordered: Seq<int>,
    fuel: nat,
)
    requires
        placement_inv(pkgs, perm, ordered),
        0 <= k < pkgs.len(),
    ensures
        spec_visit(pkgs, k, temp, perm, ordered, fuel) matches Ok((p, o)) ==> placement_inv(pkgs, p, o)
            && p.contains(k) && perm.subset_of(p),
    decreases fuel, 0int,
{
    if perm.contains(k) || temp.contains(k) || fuel == 0 {
    } else {
        let deps = strings_view(pkgs[k].dependencies@);
        lemma_visit_deps_places(pkgs, k, 0, temp.insert(k), perm, ordered, (fuel - 1) as nat);
        match spec_visit_deps(pkgs, deps, 0, temp.insert(k), perm, ordered, (fuel - 1) as nat) {
            Err(_) => {},
            Ok((p1, o1)) => {
                let p2 = p1.insert(k);
                let o2 = o1.push(k);
                assert forall|x: int| p2.contains(x) <==> o2.contains(x) by {
                    if o2.contains(x) && x != k {
                        let j = choose|j: int| 0 <= j < o2.len() && o2[j] == x;
                        assert(o1[j] == x);
                    }
                    if p1.contains(x) {
                        assert(o1.contains(x));
                        let j = choose|j: int| 0 <= j < o1.len() && o1[j] == x;
                        assert(o2[j] == x);
                    }
                    assert(o2[o1.len() as int] == k);
                }
                assert forall|i: int, d: int|
                    0 <= i < o2.len() && 0 <= d < pkgs[o2[i]].dependencies@.len() implies #[trigger] dep_placed_before(
                    pkgs,
                    o2,
                    i,
                    d,
                ) by {
                    if i < o1.len() {
                        assert(o2[i] == o1[i]);
                        assert(dep_placed_before(pkgs, o1, i, d));
                        match spec_lookup_package(pkgs, pkgs[o1[i]].dependencies@[d]@) {
                            Some(kd) => {
                                let j = choose|j: int| 0 <= j < i && o1[j] == kd;
                                assert(o2[j] == kd);
                            },
                            None => {},
                        }
                    } else {
                        assert(o2[i] == k);
                        assert(deps[d] == pkgs[k].dependencies@[d]@);
                        match spec_lookup_package(pkgs, deps[d]) {
                            Some(kd) => {
                                assert(p1.contains(kd));
                                assert(o1.contains(kd));
                                let j = choose|j: int| 0 <= j < o1.len() && o1[j] == kd;
                                assert(o2[j] == kd);
                            },
                            None => {},
                        }
                    }
                }
            },
        }
    }
}

proof fn lemma_visit_deps_places(
    pkgs: Seq<WorkspaceContractPackage>,
    k: int,
    j: int,
    temp: Set<int>,
    perm: Set<int>,
    ordered: Seq<int>,
    fuel: nat,
)
    requires
        placement_inv(pkgs, perm, ordered),
        0 <= k < pkgs.len(),
        0 <= j,
    ensures
        spec_visit_deps(pkgs, strings_view(pkgs[k].dependencies@), j, temp, perm, ordered, fuel) matches Ok((p, o))
            ==> placement_inv(pkgs, p, o) && perm.subset_of(p) && forall|jj: int|
            j <= jj < pkgs[k].dependencies@.len() ==> (spec_lookup_package(
                pkgs,
                #[trigger] strings_view(pkgs[k].dependencies@)[jj],
            ) matches Some(kd) ==> p.contains(kd)),
    decreases fuel, strings_view(pkgs[k].dependencies@).len() - j + 1,
{
    let deps = strings_view(pkgs[k].dependencies@);
    if j >= deps.len() {
    } else {
        lemma_lookup_bound(pkgs, deps[j]);
        match spec_lookup_package(pkgs, deps[j]) {
            None => {
                lemma_visit_deps_places(pkgs, k, j + 1, temp, perm, ordered, fuel);
            },
            Some(kd) => {
                lemma_visit_places(pkgs, kd, temp, perm, ordered, fuel);
                match spec_visit(pkgs, kd, temp, perm, ordered, fuel) {
                    Err(_) => {},
                    Ok((p1, o1)) => {
                        lemma_visit_deps_places(pkgs, k, j + 1, temp, p1, o1, fuel);
                    },
                }
            },
        }
    }
}

proof fn lemma_order_from_places(pkgs: Seq<WorkspaceContractPackage>, i: int, perm: Set<int>, ordered: Seq<int>)
    requires
        placement_inv(pkgs, perm, ordered),
        0 <= i,
    ensures
        spec_order_from(pkgs, i, perm, ordered) matches Ok(o) ==> deps_placed_before(pkgs, o),
    decreases pkgs.len() - i,
{
    if i < pkgs.len() {
        lemma_lookup_bound(pkgs, pkgs[i].cargo_package@);
        match spec_lookup_package(pkgs, pkgs[i].cargo_package@) {
            None => {},
            Some(k) => {
                lemma_visit_places(pkgs, k, Set::empty(), perm, ordered, (pkgs.len() + 1) as nat);
                match spec_visit(pkgs, k, Set::empty(), perm, ordered, (pkgs.len() + 1) as nat) {
                    Err(_) => {},
                    Ok((p, o)) => {
                        lemma_order_from_places(pkgs, i + 1, p, o);
                    },
                }
            },
        }
    }
}

/// Packages are generated after the packages of the graph they depend on:
/// in a generation order, each dependency that names a package of the
/// graph comes earlier than the package that depends on it.
pub proof fn lemma_generation_order_respects_dependencies(pkgs: Seq<WorkspaceContractPackage>)
    ensures
        spec_generation_order(pkgs) matches Ok(o) ==> deps_placed_before(pkgs, o),
{
    assert(placement_inv(pkgs, Set::empty(), Seq::empty())) by {
        assert forall|x: int| Set::<int>::empty().contains(x) <==> Seq::<int>::empty().contains(x) by {}
    }
    lemma_order_from_places(pkgs, 0, Set::empty(), Seq::empty());
}

proof fn lemma_lookup_own(pkgs: Seq<WorkspaceContractPackage>, i: int)
    requires
        0 <= i < pkgs.len(),
    ensures
        spec_lookup_package(pkgs, pkgs[i].cargo_package@) is Some,
    decreases pkgs.len(),
{
    if pkgs.last().cargo_package@ != pkgs[i].cargo_package@ {
        assert(i < pkgs.len() - 1);
        assert(pkgs.drop_last()[i] == pkgs[i]);
        lemma_lookup_own(pkgs.drop_last(), i);
    }
}

/// The order in which a workspace's packages are generated: every package
/// after the API packages it depends on, otherwise in the graph's order.
pub fn workspace_generation_order(graph: &WorkspaceContractGraph) -> (r: Result<Vec<usize>, String>)
    ensures
        match spec_generation_order(graph.packages@) {
            Ok(o) => r matches Ok(v) && indexes_view(v@) == o,
            Err(e) => r matches Err(m) && m@ == e,
        },
{
    let pkgs = &graph.packages;
    let n = pkgs.len();
    let mut temp: Vec<bool> = Vec::new();
    let mut perm: Vec<bool> = Vec::new();
    for i in 0..n
        invariant
            temp@.len() == i,
            perm@.len() == i,
            forall|j: int| 0 <= j < i ==> !temp@[j] && !perm@[j],
    {
        temp.push(false);
        perm.push(false);
    }
    assert(mark_set(temp@) =~= Set::<int>::empty());
    assert(mark_set(perm@) =~= Set::<int>::empty());
    let mut ordered: Vec<usize> = Vec::new();
    assert(indexes_view(ordered@) =~= Seq::<int>::empty());
    for i in 0..n
        invariant
            n == pkgs@.len(),
            pkgs == &graph.packages,
            temp@.len() == n,
            perm@.len() == n,
            mark_set(temp@) == Set::<int>::empty(),
            spec_generation_order(pkgs@) == spec_order_from(pkgs@, i as int, mark_set(perm@), indexes_view(ordered@)),
    {
        proof {
            lemma_lookup_own(pkgs@, i as int);
            lemma_lookup_bound(pkgs@, pkgs@[i as int].cargo_package@);
        }
        let found = lookup_package(pkgs, pkgs[i].cargo_package.as_str());
        match found {
            None => {
                return Err(String::new());
            },
            Some(k) => {
                let ghost pre_perm = mark_set(perm@);
                let ghost pre_ord = indexes_view(ordered@);
                assert(spec_lookup_package(pkgs@, pkgs@[i as int].cargo_package@) == Some(k as int));
                assert(spec_order_from(pkgs@, i as int, pre_perm, pre_ord) == match spec_visit(
                    pkgs@,
                    k as int,
                    Set::empty(),
                    pre_perm,
                    pre_ord,
                    (pkgs@.len() + 1) as nat,
                ) {
                    Err(e) => Err(e),
                    Ok((p, o)) => spec_order_from(pkgs@, i + 1, p, o),
                });
                let ghost pre_temp = temp@;
                match visit_package(pkgs, k, &mut temp, &mut perm, &mut ordered, Ghost((n + 1) as nat)) {
                    Err(e) => {
                        assert(mark_set(pre_temp) == Set::<int>::empty());
                        assert(spec_visit(pkgs@, k as int, Set::empty(), pre_perm, pre_ord, (pkgs@.len() + 1) as nat)
                            == Err::<(Set<int>, Seq<int>), Seq<char>>(e@));
                        assert(spec_generation_order(pkgs@) == Err::<Seq<int>, Seq<char>>(e@));
                        return Err(e);
                    },
                    Ok(()) => {},
                }
            },
        }
    }
    Ok(ordered)
}

} // verus!

verus! {

/// The directory of a package's generated sources, with forward slashes.
pub open spec fn spec_workspace_package_dir(target_dir: Seq<char>, ts_package: Seq<char>) -> Seq<char> {
    crate::gen::package::spec_normalize_path(crate::gen::package::spec_package_dir(target_dir, ts_package))
}

/// The two path mappings of a package: its name to its barrel, and its
/// subpaths to its directory.
pub open spec fn spec_tsconfig_entries(target_dir: Seq<char>, ts_package: Seq<char>) -> Seq<Seq<char>> {
    let dir = spec_workspace_package_dir(target_dir, ts_package);
    seq![
        "      "@ + spec_json_string(ts_package) + ": [\n        "@ + spec_json_string(dir + "/index.ts"@)
            + "\n      ]"@,
        "      "@ + spec_json_string(ts_package + "/*"@) + ": [\n        "@ + spec_json_string(dir + "/*"@)
            + "\n      ]"@,
    ]
}

/// The `tsconfig.paths.json` of a workspace: the path mappings of every
/// package of the graph.
pub open spec fn spec_workspace_tsconfig_paths(target_dir: Seq<char>, pkgs: Seq<WorkspaceContractPackage>) -> Seq<char> {
    "{\n  \"compilerOptions\": {\n    \"paths\": {\n"@ + crate::text::join(
        flat_map(pkgs, |p: WorkspaceContractPackage| spec_tsconfig_entries(target_dir, p.ts_package@)),
        ",\n"@,
    ) + "\n    }\n  }\n}\n"@
}

fn tsconfig_entry(name: &str, path: &str) -> (r: String)
    ensures
        r@ == "      "@ + spec_json_string(name@) + ": [\n        "@ + spec_json_string(path@) + "\n      ]"@,
{
    let mut out = "      ".to_owned();
    let q = json_string(name);
    push_str(&mut out, q.as_str());
    push_str(&mut out, ": [\n        ");
    let q = json_string(path);
    push_str(&mut out, q.as_str());
    push_str(&mut out, "\n      ]");
    out
}

/// Renders the workspace `tsconfig.paths.json` for generated packages
/// under `target_dir`.
pub fn render_workspace_tsconfig_paths(graph: &WorkspaceContractGraph, target_dir: &str) -> (r: String)
    ensures
        r@ == spec_workspace_tsconfig_paths(target_dir@, graph.packages@),
{
    let ghost f = |p: WorkspaceContractPackage| spec_tsconfig_entries(target_dir@, p.ts_package@);
    let ghost ps = graph.packages@;
    let mut entries: Vec<String> = Vec::new();
    for i in 0..graph.packages.len()
        invariant
            ps == graph.packages@,
            f == (|p: WorkspaceContractPackage| spec_tsconfig_entries(target_dir@, p.ts_package@)),
            strings_view(entries@) == flat_map(ps.take(i as int), f),
    {
        proof {
            lemma_flat_map_step(ps, f, i as int);
        }
        let ts = graph.packages[i].ts_package.as_str();
        let dir = crate::gen::package::normalize_path(
            crate::gen::package::generated_package_dir(target_dir, ts).as_str(),
        );
        let mut index_path = dir.clone();
        push_str(&mut index_path, "/index.ts");
        let mut glob = ts.to_owned();
        push_str(&mut glob, "/*");
        let mut dir_glob = dir.clone();
        push_str(&mut dir_glob, "/*");
        let ghost before = strings_view(entries@);
        let a = tsconfig_entry(ts, index_path.as_str());
        let b = tsconfig_entry(glob.as_str(), dir_glob.as_str());
        entries.push(a);
        entries.push(b);
        assert(strings_view(entries@) =~= before + f(ps[i as int]));
    }
    assert(ps.take(ps.len() as int) =~= ps);
    assert(entries@.map_values(|s: String| s@) =~= strings_view(entries@));
    let joined = crate::text::join_strings(&entries, ",\n");
    let mut out = "{\n  \"compilerOptions\": {\n    \"paths\": {\n".to_owned();
    push_str(&mut out, joined.as_str());
    push_str(&mut out, "\n    }\n  }\n}\n");
    out
}

} // verus!

verus! {

/// The usage text of `api`.
pub open spec fn spec_usage() -> Seq<char> {
    "usage:\n  api collect --package <cargo-package> --out <path> [--api-root <path::to::api>] [--package-name <ts-package>] [--manifest-path <Cargo.toml>] [--target-dir <dir>] [--features <list>] [--all-features] [--no-default-features]\n  api collect --workspace [--manifest-path <Cargo.toml>] [--target-dir <dir>]\n  api collect --empty --package-name <ts-package> --out <path>\n  api gen --contract <path> [--target-dir <dir>]\n  api gen --workspace-contract <path> [--target-dir <dir>]\n  api watch --contract <path> [--target-dir <dir>] [--once]\n  api check --contract <path> [--target-dir <dir>]\n  api check-usages --contract <path> --out <path> [--symbol-graph <path>] [--ts <file>] [--ts-dir <dir>]\n  api doctor [--manifest-path <Cargo.toml>]"@
}

/// The usage text of `api`.
pub fn usage() -> (r: String)
    ensures
        r@ == spec_usage(),
{
    "usage:\n  api collect --package <cargo-package> --out <path> [--api-root <path::to::api>] [--package-name <ts-package>] [--manifest-path <Cargo.toml>] [--target-dir <dir>] [--features <list>] [--all-features] [--no-default-features]\n  api collect --workspace [--manifest-path <Cargo.toml>] [--target-dir <dir>]\n  api collect --empty --package-name <ts-package> --out <path>\n  api gen --contract <path> [--target-dir <dir>]\n  api gen --workspace-contract <path> [--target-dir <dir>]\n  api watch --contract <path> [--target-dir <dir>] [--once]\n  api check --contract <path> [--target-dir <dir>]\n  api check-usages --contract <path> --out <path> [--symbol-graph <path>] [--ts <file>] [--ts-dir <dir>]\n  api doctor [--manifest-path <Cargo.toml>]".to_owned()
}

/// The subcommands of `api`.
#[derive(Clone, Copy, Debug, PartialEq, Eq, Structural)]
pub enum CliCommand {
    Collect,
    Gen,
    Watch,
    Check,
    CheckUsages,
    Doctor,
    Help,
}

/// The subcommand a first argument names; without one, or with an unknown
/// one, the usage text as an error.
pub open spec fn spec_command(command: Option<Seq<char>>) -> Result<CliCommand, Seq<char>> {
    match command {
        None => Err(spec_usage()),
        Some(c) => if c == "collect"@ {
            Ok(CliCommand::Collect)
        } else if c == "gen"@ {
            Ok(CliCommand::Gen)
        } else if c == "watch"@ {
            Ok(CliCommand::Watch)
        } else if c == "check"@ {
            Ok(CliCommand::Check)
        } else if c == "check-usages"@ {
            Ok(CliCommand::CheckUsages)
        } else if c == "doctor"@ {
            Ok(CliCommand::Doctor)
        } else if c == "--help"@ || c == "-h"@ || c == "help"@ {
            Ok(CliCommand::Help)
        } else {
            Err("unknown api command `"@ + c + "`\n\n"@ + spec_usage())
        },
    }
}

impl CliCommand {
    /// Parses the first argument of `api`.
    pub fn parse(command: Option<&str>) -> (r: Result<Self, String>)
        ensures
            match spec_command(
                match command {
                    Some(c) => Some(c@),
                    None => None,
                },
            ) {
                Ok(c) => r == Ok::<CliCommand, String>(c),
                Err(e) => r matches Err(m) && m@ == e,
            },
    {
        match command {
            None => Err(usage()),
            Some(c) => {
                if str_eq(c, "collect") {
                    Ok(CliCommand::Collect)
                } else if str_eq(c, "gen") {
                    Ok(CliCommand::Gen)
                } else if str_eq(c, "watch") {
                    Ok(CliCommand::Watch)
                } else if str_eq(c, "check") {
                    Ok(CliCommand::Check)
                } else if str_eq(c, "check-usages") {
                    Ok(CliCommand::CheckUsages)
                } else if str_eq(c, "doctor") {
                    Ok(CliCommand::Doctor)
                } else if str_eq(c, "--help") || str_eq(c, "-h") || str_eq(c, "help") {
                    Ok(CliCommand::Help)
                } else {
                    let mut m = "unknown api command `".to_owned();
                    push_str(&mut m, c);
                    push_str(&mut m, "`\n\n");
                    let u = usage();
                    push_str(&mut m, u.as_str());
                    Err(m)
                }
            },
        }
    }
}

/// What `api collect` does with its options.
#[derive(Debug, PartialEq, Eq)]
pub enum CollectPlan {
    /// Write an empty contract for a package name.
    Empty { out: String, package_name: String },
    /// Collect every API package of the workspace.
    Workspace,
    /// Collect one package's contract.
    Package { out: String },
}

/// The plan of `api collect`: an empty contract with `--empty` (which
/// needs `--out` and `--package-name`), the workspace with `--workspace`,
/// else one package (which needs `--out`).
pub fn plan_collect(options: &CollectOptions) -> (r: Result<CollectPlan, String>)
    ensures
        options.empty ==> (match (options.out, options.package_name) {
            (Some(o), Some(p)) => r matches Ok(CollectPlan::Empty { out, package_name }) && out@ == o@ && package_name@
                == p@,
            (None, _) => r matches Err(m) && m@ == "api collect --empty requires --out <path>"@,
            (Some(_), None) => r matches Err(m) && m@ == "api collect --empty requires --package-name <ts-package-name>"@,
        }),
        !options.empty && options.workspace ==> r == Ok::<CollectPlan, String>(CollectPlan::Workspace),
        !options.empty && !options.workspace ==> (match options.out {
            Some(o) => r matches Ok(CollectPlan::Package { out }) && out@ == o@,
            None => r matches Err(m) && m@ == "api collect requires --out <path>"@,
        }),
{
    if options.empty {
        let out = match &options.out {
            Some(o) => o.clone(),
            None => {
                return Err("api collect --empty requires --out <path>".to_owned());
            },
        };
        let package_name = match &options.package_name {
            Some(p) => p.clone(),
            None => {
                return Err("api collect --empty requires --package-name <ts-package-name>".to_owned());
            },
        };
        return Ok(CollectPlan::Empty { out, package_name });
    }
    if options.workspace {
        return Ok(CollectPlan::Workspace);
    }
    match &options.out {
        Some(o) => Ok(CollectPlan::Package { out: o.clone() }),
        None => Err("api collect requires --out <path>".to_owned()),
    }
}

/// Whether `api gen` was given a workspace contract.
pub fn is_workspace_gen(args: &Vec<String>) -> (r: bool)
    ensures
        r == strings_view(args@).contains("--workspace-contract"@),
{
    contains_string(args, "--workspace-contract")
}

/// The message of a generated package that differs from the contract.
pub open spec fn spec_stale_message(contract: Seq<char>, target_dir: Seq<char>, stale: Seq<Seq<char>>) -> Seq<char> {
    "generated package is stale; run `api gen --contract "@ + contract + " --target-dir "@ + target_dir + "`\n"@
        + crate::text::join(stale, "\n"@)
}

/// The outcome of `api check`: current when no file is stale, else the
/// stale files and how to regenerate them.
pub fn check_outcome(options: &ContractTargetOptions, stale: &Vec<String>) -> (r: Result<(), String>)
    ensures
        stale@.len() == 0 ==> r is Ok,
        stale@.len() > 0 ==> (r matches Err(m) && m@ == spec_stale_message(
            options.contract@,
            options.target_dir@,
            strings_view(stale@),
        )),
{
    if stale.len() == 0 {
        return Ok(());
    }
    let mut m = "generated package is stale; run `api gen --contract ".to_owned();
    push_str(&mut m, options.contract.as_str());
    push_str(&mut m, " --target-dir ");
    push_str(&mut m, options.target_dir.as_str());
    push_str(&mut m, "`\n");
    assert(stale@.map_values(|s: String| s@) =~= strings_view(stale@));
    let joined = crate::text::join_strings(stale, "\n");
    push_str(&mut m, joined.as_str());
    Err(m)
}

/// How reading a generated file from disk went.
#[derive(Debug, PartialEq, Eq)]
pub enum FileState {
    /// The file's contents.
    Contents(String),
    /// No file is there.
    Missing,
    /// The file could not be read; the reader's error.
    Unreadable(String),
}

/// The stale or missing files of a generated package, given what is on
/// disk for each of its files in order; or the first read error.
pub open spec fn spec_stale_files(
    dir: Seq<char>,
    files: Seq<crate::gen::writer::GeneratedFile>,
    states: Seq<FileState>,
) -> Result<Seq<Seq<char>>, Seq<char>>
    decreases files.len(),
{
    if files.len() == 0 || states.len() == 0 {
        Ok(Seq::empty())
    } else {
        match spec_stale_files(dir, files.drop_last(), states.drop_last()) {
            Err(e) => Err(e),
            Ok(prev) => {
                let f = files.last();
                let path = crate::gen::package::spec_join_path(dir, f.path@);
                match states.last() {
                    FileState::Contents(c) => if c@ == f.contents@ {
                        Ok(prev)
                    } else {
                        Ok(prev.push("stale: "@ + path))
                    },
                    FileState::Missing => Ok(prev.push("missing: "@ + path)),
                    FileState::Unreadable(e) => Err(
                        "failed to read generated package file `"@ + path + "`: "@ + e@,
                    ),
                }
            },
        }
    }
}

/// Compares a generated package with what is on disk.
pub fn stale_generated_files(
    package: &crate::gen::package::GeneratedPackage,
    states: &Vec<FileState>,
) -> (r: Result<Vec<String>, String>)
    requires
        states@.len() == package.files@.len(),
    ensures
        match spec_stale_files(package.package_dir@, package.files@, states@) {
            Ok(s) => r matches Ok(v) && strings_view(v@) == s,
            Err(e) => r matches Err(m) && m@ == e,
        },
{
    let ghost fs = package.files@;
    let ghost ss = states@;
    let mut stale: Vec<String> = Vec::new();
    assert(strings_view(stale@) =~= Seq::<Seq<char>>::empty());
    for i in 0..package.files.len()
        invariant
            fs == package.files@,
            ss == states@,
            ss.len() == fs.len(),
            spec_stale_files(package.package_dir@, fs.take(i as int), ss.take(i as int)) == Ok::<
                Seq<Seq<char>>,
                Seq<char>,
            >(strings_view(stale@)),
    {
        assert(fs.take(i + 1).drop_last() =~= fs.take(i as int));
        assert(ss.take(i + 1).drop_last() =~= ss.take(i as int));
        assert(fs.take(i + 1).last() == fs[i as int]);
        assert(ss.take(i + 1).last() == ss[i as int]);
        let file = &package.files[i];
        let path = crate::gen::package::join_path(package.package_dir.as_str(), file.path.as_str());
        let ghost before = strings_view(stale@);
        match &states[i] {
            FileState::Contents(c) => {
                if !crate::order::str_eq(c.as_str(), file.contents.as_str()) {
                    let mut m = "stale: ".to_owned();
                    push_str(&mut m, path.as_str());
                    stale.push(m);
                    assert(strings_view(stale@) =~= before.push("stale: "@ + path@));
                }
            },
            FileState::Missing => {
                let mut m = "missing: ".to_owned();
                push_str(&mut m, path.as_str());
                stale.push(m);
                assert(strings_view(stale@) =~= before.push("missing: "@ + path@));
            },
            FileState::Unreadable(e) => {
                let mut m = "failed to read generated package file `".to_owned();
                push_str(&mut m, path.as_str());
                push_str(&mut m, "`: ");
                push_str(&mut m, e.as_str());
                proof {
                    lemma_stale_error(package.package_dir@, fs, ss, i + 1);
                }
                return Err(m);
            },
        }
    }
    assert(fs.take(fs.len() as int) =~= fs);
    assert(ss.take(ss.len() as int) =~= ss);
    Ok(stale)
}

proof fn lemma_stale_error(
    dir: Seq<char>,
    files: Seq<crate::gen::writer::GeneratedFile>,
    states: Seq<FileState>,
    j: int,
)
    requires
        0 < j <= files.len(),
        states.len() == files.len(),
        spec_stale_files(dir, files.take(j), states.take(j)) is Err,
    ensures
        spec_stale_files(dir, files, states) == spec_stale_files(dir, files.take(j), states.take(j)),
    decreases files.len() - j,
{
    if j < files.len() {
        assert(files.take(j + 1).drop_last() =~= files.take(j));
        assert(states.take(j + 1).drop_last() =~= states.take(j));
        lemma_stale_error(dir, files, states, j + 1);
    } else {
        assert(files.take(j) =~= files);
        assert(states.take(j) =~= states);
    }
}

} // verus!

verus! {

/// Options of `api check-usages`.
#[derive(Debug, PartialEq, Eq)]
pub struct CheckUsagesOptions {
    pub contract: String,
    pub out: String,
    pub symbol_graph: Option<String>,
    pub explicit_symbol_graph: bool,
    pub ts_files: Vec<String>,
    pub ts_dirs: Vec<String>,
}

/// The state of `api check-usages` argument parsing.
pub struct CheckUsagesModel {
    pub contract: Option<Seq<char>>,
    pub out: Option<Seq<char>>,
    pub symbol_graph: Option<Seq<char>>,
    pub explicit_symbol_graph: bool,
    pub ts_files: Seq<Seq<char>>,
    pub ts_dirs: Seq<Seq<char>>,
}

/// What the arguments from `i` on give to `api check-usages`.
pub open spec fn spec_check_usages_args(args: Seq<Seq<char>>, i: int, acc: CheckUsagesModel) -> Result<CheckUsagesModel, Seq<char>>
    decreases args.len() + 2 - i,
{
    if i < 0 || i >= args.len() {
        Ok(acc)
    } else {
        let a = args[i];
        if a == "--contract"@ {
            spec_check_usages_args(args, i + 2, CheckUsagesModel { contract: arg_at(args, i + 1), ..acc })
        } else if a == "--out"@ {
            spec_check_usages_args(args, i + 2, CheckUsagesModel { out: arg_at(args, i + 1), ..acc })
        } else if a == "--symbol-graph"@ {
            spec_check_usages_args(
                args,
                i + 2,
                CheckUsagesModel { symbol_graph: arg_at(args, i + 1), explicit_symbol_graph: true, ..acc },
            )
        } else if a == "--ts"@ {
            match arg_at(args, i + 1) {
                Some(p) => spec_check_usages_args(args, i + 2, CheckUsagesModel { ts_files: acc.ts_files.push(p), ..acc }),
                None => Err("--ts requires <path>"@),
            }
        } else if a == "--ts-dir"@ {
            match arg_at(args, i + 1) {
                Some(p) => spec_check_usages_args(args, i + 2, CheckUsagesModel { ts_dirs: acc.ts_dirs.push(p), ..acc }),
                None => Err("--ts-dir requires <path>"@),
            }
        } else {
            Err("unknown api check-usages argument `"@ + a + "`"@)
        }
    }
}

/// The options of `api check-usages`, which needs `--contract` and `--out`.
pub open spec fn spec_check_usages(args: Seq<Seq<char>>) -> Result<CheckUsagesModel, Seq<char>> {
    match spec_check_usages_args(
        args,
        0,
        CheckUsagesModel {
            contract: None,
            out: None,
            symbol_graph: None,
            explicit_symbol_graph: false,
            ts_files: Seq::empty(),
            ts_dirs: Seq::empty(),
        },
    ) {
        Err(e) => Err(e),
        Ok(m) => if m.contract is None {
            Err("api check-usages requires --contract <path>"@)
        } else if m.out is None {
            Err("api check-usages requires --out <path>"@)
        } else {
            Ok(m)
        },
    }
}

proof fn lemma_check_usages_done(args: Seq<Seq<char>>, j: int, k: int, acc: CheckUsagesModel)
    requires
        j >= args.len(),
        k >= args.len(),
    ensures
        spec_check_usages_args(args, j, acc) == spec_check_usages_args(args, k, acc),
{
}

impl CheckUsagesOptions {
    /// Parses the arguments of `api check-usages`.
    pub fn parse(args: &Vec<String>) -> (r: Result<Self, String>)
        ensures
            match spec_check_usages(strings_view(args@)) {
                Ok(m) => r matches Ok(o) && Some(o.contract@) == m.contract && Some(o.out@) == m.out
                    && opt_view(o.symbol_graph) == m.symbol_graph && o.explicit_symbol_graph == m.explicit_symbol_graph
                    && strings_view(o.ts_files@) == m.ts_files && strings_view(o.ts_dirs@) == m.ts_dirs,
                Err(e) => r matches Err(m) && m@ == e,
            },
    {
        let ghost av = strings_view(args@);
        let mut contract: Option<String> = None;
        let mut out: Option<String> = None;
        let mut symbol_graph: Option<String> = None;
        let mut explicit = false;
        let mut ts_files: Vec<String> = Vec::new();
        let mut ts_dirs: Vec<String> = Vec::new();
        let ghost init = CheckUsagesModel {
            contract: None,
            out: None,
            symbol_graph: None,
            explicit_symbol_graph: false,
            ts_files: Seq::empty(),
            ts_dirs: Seq::empty(),
        };
        assert(strings_view(ts_files@) =~= Seq::<Seq<char>>::empty());
        assert(strings_view(ts_dirs@) =~= Seq::<Seq<char>>::empty());
        let mut i: usize = 0;
        while i < args.len()
            invariant
                av == strings_view(args@),
                init == (CheckUsagesModel {
                    contract: None,
                    out: None,
                    symbol_graph: None,
                    explicit_symbol_graph: false,
                    ts_files: Seq::empty(),
                    ts_dirs: Seq::empty(),
                }),
                spec_check_usages_args(av, 0, init) == spec_check_usages_args(
                    av,
                    i as int,
                    CheckUsagesModel {
                        contract: opt_view(contract),
                        out: opt_view(out),
                        symbol_graph: opt_view(symbol_graph),
                        explicit_symbol_graph: explicit,
                        ts_files: strings_view(ts_files@),
                        ts_dirs: strings_view(ts_dirs@),
                    },
                ),
            decreases args.len() - i,
        {
            let a = args[i].as_str();
            assert(av[i as int] == a@);
            let is_contract = str_eq(a, "--contract");
            let is_out = str_eq(a, "--out");
            let is_graph = str_eq(a, "--symbol-graph");
            if is_contract || is_out || is_graph {
                let v = next_arg(args, i);
                if is_contract {
                    contract = v;
                } else if is_out {
                    out = v;
                } else {
                    symbol_graph = v;
                    explicit = true;
                }
                proof {
                    if i + 1 >= args@.len() {
                        lemma_check_usages_done(
                            av,
                            i + 2,
                            args@.len() as int,
                            CheckUsagesModel {
                                contract: opt_view(contract),
                                out: opt_view(out),
                                symbol_graph: opt_view(symbol_graph),
                                explicit_symbol_graph: explicit,
                                ts_files: strings_view(ts_files@),
                                ts_dirs: strings_view(ts_dirs@),
                            },
                        );
                    }
                }
                i = if args.len() - i > 1 { i + 2 } else { args.len() };
            } else if str_eq(a, "--ts") {
                match next_arg(args, i) {
                    Some(p) => {
                        let ghost before = strings_view(ts_files@);
                        ts_files.push(p);
                        assert(strings_view(ts_files@) =~= before.push(av[i + 1]));
                        i = i + 2;
                    },
                    None => {
                        return Err("--ts requires <path>".to_owned());
                    },
                }
            } else if str_eq(a, "--ts-dir") {
                match next_arg(args, i) {
                    Some(p) => {
                        let ghost before = strings_view(ts_dirs@);
                        ts_dirs.push(p);
                        assert(strings_view(ts_dirs@) =~= before.push(av[i + 1]));
                        i = i + 2;
                    },
                    None => {
                        return Err("--ts-dir requires <path>".to_owned());
                    },
                }
            } else {
                let mut m = "unknown api check-usages argument `".to_owned();
                push_str(&mut m, a);
                push_str(&mut m, "`");
                return Err(m);
            }
        }
        let contract = match contract {
            Some(c) => c,
            None => {
                return Err("api check-usages requires --contract <path>".to_owned());
            },
        };
        let out = match out {
            Some(o) => o,
            None => {
                return Err("api check-usages requires --out <path>".to_owned());
            },
        };
        Ok(CheckUsagesOptions { contract, out, symbol_graph, explicit_symbol_graph: explicit, ts_files, ts_dirs })
    }
}

} // verus!

verus! {

/// What the arguments from `i` on give to `api gen --workspace-contract`:
/// the last workspace contract and target directory named.
pub open spec fn spec_gen_workspace_args(
    args: Seq<Seq<char>>,
    i: int,
    contract: Option<Seq<char>>,
    target_dir: Option<Seq<char>>,
) -> Result<(Seq<char>, Seq<char>), Seq<char>>
    decreases args.len() + 2 - i,
{
    if i < 0 || i >= args.len() {
        match contract {
            None => Err("api gen requires --workspace-contract <path>"@),
            Some(c) => Ok(
                (
                    c,
                    match target_dir {
                        Some(t) => t,
                        None => "target"@,
                    },
                ),
            ),
        }
    } else {
        let a = args[i];
        if a == "--workspace-contract"@ {
            spec_gen_workspace_args(args, i + 2, arg_at(args, i + 1), target_dir)
        } else if a == "--target-dir"@ || a == "--out-dir"@ {
            spec_gen_workspace_args(args, i + 2, contract, arg_at(args, i + 1))
        } else {
            Err("unknown api gen argument `"@ + a + "`"@)
        }
    }
}

proof fn lemma_gen_workspace_done(
    args: Seq<Seq<char>>,
    j: int,
    k: int,
    contract: Option<Seq<char>>,
    target_dir: Option<Seq<char>>,
)
    requires
        j >= args.len(),
        k >= args.len(),
    ensures
        spec_gen_workspace_args(args, j, contract, target_dir) == spec_gen_workspace_args(args, k, contract, target_dir),
{
}

/// Parses the arguments of `api gen --workspace-contract`: the workspace
/// contract graph's path and the target directory.
pub fn parse_gen_workspace_args(args: &Vec<String>) -> (r: Result<(String, String), String>)
    ensures
        match spec_gen_workspace_args(strings_view(args@), 0, None, None) {
            Ok((c, t)) => r matches Ok(p) && p.0@ == c && p.1@ == t,
            Err(e) => r matches Err(m) && m@ == e,
        },
{
    let ghost av = strings_view(args@);
    let mut contract: Option<String> = None;
    let mut target_dir: Option<String> = None;
    let mut i: usize = 0;
    while i < args.len()
        invariant
            av == strings_view(args@),
            spec_gen_workspace_args(av, 0, None, None) == spec_gen_workspace_args(
                av,
                i as int,
                opt_view(contract),
                opt_view(target_dir),
            ),
        decreases args.len() - i,
    {
        let a = args[i].as_str();
        assert(av[i as int] == a@);
        if str_eq(a, "--workspace-contract") {
            contract = next_arg(args, i);
        } else if str_eq(a, "--target-dir") || str_eq(a, "--out-dir") {
            target_dir = next_arg(args, i);
        } else {
            let mut m = "unknown api gen argument `".to_owned();
            push_str(&mut m, a);
            push_str(&mut m, "`");
            return Err(m);
        }
        proof {
            if i + 1 >= args@.len() {
                lemma_gen_workspace_done(av, i + 2, args@.len() as int, opt_view(contract), opt_view(target_dir));
            }
        }
        i = if args.len() - i > 1 { i + 2 } else { args.len() };
    }
    match contract {
        None => Err("api gen requires --workspace-contract <path>".to_owned()),
        Some(c) => {
            let t = match target_dir {
                Some(t) => t,
                None => "target".to_owned(),
            };
            Ok((c, t))
        },
    }
}

/// What the arguments from `i` on give to `api doctor`: the last manifest
/// path named.
pub open spec fn spec_doctor_args(args: Seq<Seq<char>>, i: int, manifest: Option<Seq<char>>) -> Result<Seq<char>, Seq<char>>
    decreases args.len() + 2 - i,
{
    if i < 0 || i >= args.len() {
        Ok(
            match manifest {
                Some(m) => m,
                None => "Cargo.toml"@,
            },
        )
    } else if args[i] == "--manifest-path"@ {
        spec_doctor_args(args, i + 2, arg_at(args, i + 1))
    } else {
        Err("unknown api doctor argument `"@ + args[i] + "`"@)
    }
}

proof fn lemma_doctor_done(args: Seq<Seq<char>>, j: int, k: int, manifest: Option<Seq<char>>)
    requires
        j >= args.len(),
        k >= args.len(),
    ensures
        spec_doctor_args(args, j, manifest) == spec_doctor_args(args, k, manifest),
{
}

/// Parses the arguments of `api doctor`: the manifest to inspect.
pub fn parse_doctor_args(args: &Vec<String>) -> (r: Result<String, String>)
    ensures
        match spec_doctor_args(strings_view(args@), 0, None) {
            Ok(p) => r matches Ok(s) && s@ == p,
            Err(e) => r matches Err(m) && m@ == e,
        },
{
    let ghost av = strings_view(args@);
    let mut manifest: Option<String> = None;
    let mut i: usize = 0;
    while i < args.len()
        invariant
            av == strings_view(args@),
            spec_doctor_args(av, 0, None) == spec_doctor_args(av, i as int, opt_view(manifest)),
        decreases args.len() - i,
    {
        let a = args[i].as_str();
        assert(av[i as int] == a@);
        if !str_eq(a, "--manifest-path") {
            let mut m = "unknown api doctor argument `".to_owned();
            push_str(&mut m, a);
            push_str(&mut m, "`");
            return Err(m);
        }
        manifest = next_arg(args, i);
        proof {
            if i + 1 >= args@.len() {
                lemma_doctor_done(av, i + 2, args@.len() as int, opt_view(manifest));
            }
        }
        i = if args.len() - i > 1 { i + 2 } else { args.len() };
    }
    match manifest {
        Some(m) => Ok(m),
        None => Ok("Cargo.toml".to_owned()),
    }
}

/// Whether `api check-usages` updates the symbol graph at `path`: it does
/// when the file exists; a graph named on the command line must exist.
pub fn symbol_graph_update(path: &str, is_file: bool, explicit: bool) -> (r: Result<bool, String>)
    ensures
        is_file ==> r == Ok::<bool, String>(true),
        !is_file && !explicit ==> r == Ok::<bool, String>(false),
        !is_file && explicit ==> (r matches Err(m) && m@ == "api check-usages --symbol-graph path does not exist: "@
            + path@),
{
    if is_file {
        Ok(true)
    } else if explicit {
        let mut m = "api check-usages --symbol-graph path does not exist: ".to_owned();
        push_str(&mut m, path);
        Err(m)
    } else {
        Ok(false)
    }
}

/// The symbols of several graphs in one graph, ordered by kind and id.
pub open spec fn spec_merged_symbols(graphs: Seq<Seq<SymbolModel>>) -> Seq<SymbolModel> {
    crate::order::spec_sort(flat_map(graphs, |g: Seq<SymbolModel>| g), crate::gen::symbols::symbol_order())
}

/// The models of the symbols of several graphs.
pub open spec fn graphs_view(graphs: Seq<SymbolGraph>) -> Seq<Seq<SymbolModel>> {
    graphs.map_values(|g: SymbolGraph| symbols_view(g.symbols@))
}

/// Merges the symbol graphs of a workspace's packages.
pub fn merge_symbol_graphs(graphs: Vec<SymbolGraph>) -> (r: SymbolGraph)
    ensures
        symbols_view(r.symbols@) == spec_merged_symbols(graphs_view(graphs@)),
{
    let ghost gv = graphs_view(graphs@);
    let ghost id = |g: Seq<SymbolModel>| g;
    let mut rest = graphs;
    let n = rest.len();
    let mut taken: Vec<SymbolGraph> = Vec::new();
    let ghost orig = rest@;
    while rest.len() > 0
        invariant
            taken@.len() + rest@.len() == n,
            orig.len() == n,
            forall|i: int| 0 <= i < rest@.len() ==> #[trigger] rest@[i] == orig[i],
            forall|i: int| 0 <= i < taken@.len() ==> #[trigger] taken@[i] == orig[n - 1 - i],
        decreases rest.len(),
    {
        let g = rest.pop().unwrap();
        taken.push(g);
    }
    let mut all: Vec<LinkedSymbol> = Vec::new();
    let mut k: usize = 0;
    while taken.len() > 0
        invariant
            k + taken@.len() == n,
            orig.len() == n,
            gv == graphs_view(orig),
            id == (|g: Seq<SymbolModel>| g),
            forall|i: int| 0 <= i < taken@.len() ==> #[trigger] taken@[i] == orig[n - 1 - i],
            symbols_view(all@) == flat_map(gv.take(k as int), id),
        decreases taken.len(),
    {
        let g = taken.pop().unwrap();
        assert(g == orig[k as int]);
        proof {
            lemma_flat_map_step(gv, id, k as int);
        }
        let ghost before = symbols_view(all@);
        let mut syms = g.symbols;
        let ghost sv = symbols_view(syms@);
        let mut back: Vec<LinkedSymbol> = Vec::new();
        let m = syms.len();
        let ghost so = syms@;
        while syms.len() > 0
            invariant
                back@.len() + syms@.len() == m,
                so.len() == m,
                forall|i: int| 0 <= i < syms@.len() ==> #[trigger] syms@[i] == so[i],
                forall|i: int| 0 <= i < back@.len() ==> #[trigger] back@[i] == so[m - 1 - i],
            decreases syms.len(),
        {
            let s = syms.pop().unwrap();
            back.push(s);
        }
        let mut j: usize = 0;
        while back.len() > 0
            invariant
                j + back@.len() == m,
                so.len() == m,
                forall|i: int| 0 <= i < back@.len() ==> #[trigger] back@[i] == so[m - 1 - i],
                symbols_view(all@) == before + symbols_view(so.take(j as int)),
            decreases back.len(),
        {
            let s = back.pop().unwrap();
            assert(s == so[j as int]);
            let ghost prev = symbols_view(all@);
            all.push(s);
            assert(symbols_view(all@) =~= prev.push(s@));
            assert(symbols_view(so.take(j + 1)) =~= symbols_view(so.take(j as int)).push(s@));
            j = j + 1;
        }
        assert(so.take(m as int) =~= so);
        assert(gv[k as int] == symbols_view(so));
        k = k + 1;
    }
    assert(gv.take(n as int) =~= gv);
    SymbolGraph { symbols: crate::gen::symbols::sort_symbols(all) }
}

} // verus!
