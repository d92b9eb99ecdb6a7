//! Name conventions: serde's `rename_all` rules, camel case, and the route
//! parameters and default TypeScript path of an endpoint.

use vstd::prelude::*;
use crate::ir::strings_view;
use crate::scan::{spec_split, spec_trim, split_char, trim};
use crate::text::{chars_of, join, join_strings, push_char, push_str};

verus! {

/// The ASCII upper-case form of a character; others are unchanged.
pub open spec fn spec_ascii_upper(c: char) -> char {
    if 'a' <= c && c <= 'z' {
        ((c as u32) - 32) as char
    } else {
        c
    }
}

/// The ASCII lower-case form of a character; others are unchanged.
pub open spec fn spec_ascii_lower(c: char) -> char {
    if 'A' <= c && c <= 'Z' {
        ((c as u32) + 32) as char
    } else {
        c
    }
}

/// Maps a character to ASCII upper case.
pub fn ascii_upper(c: char) -> (r: char)
    ensures
        r == spec_ascii_upper(c),
{
    if 'a' <= c && c <= 'z' {
        let b: u8 = c as u8;
        assert(b == c as u32);
        (b - 32) as char
    } else {
        c
    }
}

/// Maps a character to ASCII lower case.
pub fn ascii_lower(c: char) -> (r: char)
    ensures
        r == spec_ascii_lower(c),
{
    if 'A' <= c && c <= 'Z' {
        let b: u8 = c as u8;
        assert(b == c as u32);
        (b + 32) as char
    } else {
        c
    }
}

/// A string with each character mapped to ASCII upper case.
pub open spec fn spec_upper(s: Seq<char>) -> Seq<char> {
    s.map_values(|c: char| spec_ascii_upper(c))
}

/// A string with each character mapped to ASCII lower case.
pub open spec fn spec_lower(s: Seq<char>) -> Seq<char> {
    s.map_values(|c: char| spec_ascii_lower(c))
}

/// Maps a string to ASCII upper case.
pub fn to_ascii_upper(s: &str) -> (r: String)
    ensures
        r@ == spec_upper(s@),
{
    let chars = chars_of(s);
    let mut out = String::new();
    for i in 0..chars.len()
        invariant
            chars@ == s@,
            out@ == spec_upper(s@.take(i as int)),
    {
        push_char(&mut out, ascii_upper(chars[i]));
        assert(out@ =~= spec_upper(s@.take(i + 1)));
    }
    assert(s@.take(chars@.len() as int) =~= s@);
    out
}

/// Maps a string to ASCII lower case.
pub fn to_ascii_lower(s: &str) -> (r: String)
    ensures
        r@ == spec_lower(s@),
{
    let chars = chars_of(s);
    let mut out = String::new();
    for i in 0..chars.len()
        invariant
            chars@ == s@,
            out@ == spec_lower(s@.take(i as int)),
    {
        push_char(&mut out, ascii_lower(chars[i]));
        assert(out@ =~= spec_lower(s@.take(i + 1)));
    }
    assert(s@.take(chars@.len() as int) =~= s@);
    out
}

/// A word as a name rule spells it: its first character upper-cased, the
/// rest lower-cased.
pub open spec fn spec_word(current: Seq<char>) -> Seq<char> {
    seq![spec_ascii_upper(current[0])] + spec_lower(current.drop_first())
}

/// Ends the current word: appends it, capitalized, unless it is empty.
pub open spec fn spec_push_word(words: Seq<Seq<char>>, current: Seq<char>) -> Seq<Seq<char>> {
    if current.len() == 0 {
        words
    } else {
        words.push(spec_word(current))
    }
}

/// The words finished and the word in progress after reading `s`: `_` and
/// `-` end a word and are dropped, and an ASCII upper-case letter starts a
/// new one.
pub open spec fn spec_split_state(s: Seq<char>) -> (Seq<Seq<char>>, Seq<char>)
    decreases s.len(),
{
    if s.len() == 0 {
        (Seq::empty(), Seq::empty())
    } else {
        let (words, current) = spec_split_state(s.drop_last());
        let c = s.last();
        if c == '_' || c == '-' {
            (spec_push_word(words, current), Seq::empty())
        } else if 'A' <= c && c <= 'Z' && current.len() > 0 {
            (spec_push_word(words, current), seq![c])
        } else {
            (words, current.push(c))
        }
    }
}

/// The capitalized words of a name.
pub open spec fn spec_split_words(s: Seq<char>) -> Seq<Seq<char>> {
    let (words, current) = spec_split_state(s);
    spec_push_word(words, current)
}

/// Ends the word in `current`: appends it to `words`, its first character
/// upper-cased and the rest lower-cased, and clears `current`.
pub fn push_word(words: &mut Vec<String>, current: &mut String)
    ensures
        strings_view(final(words)@) == spec_push_word(strings_view(old(words)@), old(current)@),
        final(current)@ == Seq::<char>::empty(),
{
    let chars = chars_of(current.as_str());
    if chars.len() == 0 {
        *current = String::new();
        return;
    }
    let mut word = String::new();
    push_char(&mut word, ascii_upper(chars[0]));
    for i in 1..chars.len()
        invariant
            chars@ == old(current)@,
            chars@.len() > 0,
            word@ == seq![spec_ascii_upper(chars@[0])] + spec_lower(chars@.subrange(1, i as int)),
    {
        push_char(&mut word, ascii_lower(chars[i]));
        assert(chars@.subrange(1, i + 1) =~= chars@.subrange(1, i as int).push(chars@[i as int]));
        assert(spec_lower(chars@.subrange(1, i + 1)) =~= spec_lower(chars@.subrange(1, i as int)).push(
            spec_ascii_lower(chars@[i as int]),
        ));
    }
    assert(chars@.subrange(1, chars@.len() as int) =~= chars@.drop_first());
    let ghost before = strings_view(words@);
    words.push(word);
    assert(strings_view(words@) =~= before.push(spec_word(old(current)@)));
    *current = String::new();
}

/// Splits a name into capitalized words at `_`, `-` and ASCII upper-case
/// letters.
pub fn split_words(name: &str) -> (r: Vec<String>)
    ensures
        strings_view(r@) == spec_split_words(name@),
{
    let chars = chars_of(name);
    let mut words: Vec<String> = Vec::new();
    let mut current = String::new();
    let mut in_word = false;
    assert(strings_view(words@) =~= Seq::<Seq<char>>::empty());
    for i in 0..chars.len()
        invariant
            chars@ == name@,
            in_word == (current@.len() > 0),
            (strings_view(words@), current@) == spec_split_state(name@.take(i as int)),
    {
        assert(name@.take(i + 1).drop_last() =~= name@.take(i as int));
        let c = chars[i];
        if c == '_' || c == '-' {
            push_word(&mut words, &mut current);
            in_word = false;
        } else if 'A' <= c && c <= 'Z' && in_word {
            push_word(&mut words, &mut current);
            push_char(&mut current, c);
            assert(current@ =~= seq![c]);
        } else {
            push_char(&mut current, c);
            in_word = true;
        }
    }
    assert(name@.take(chars@.len() as int) =~= name@);
    push_word(&mut words, &mut current);
    words
}

/// Camel case: the words of a name joined, the first one lower-cased.
pub open spec fn spec_camel_case(s: Seq<char>) -> Seq<char> {
    let words = spec_split_words(s);
    if words.len() == 0 {
        Seq::empty()
    } else {
        spec_lower(words[0]) + join(words.drop_first(), Seq::empty())
    }
}

/// Converts a name to camel case.
pub fn to_camel_case(name: &str) -> (r: String)
    ensures
        r@ == spec_camel_case(name@),
{
    let words = split_words(name);
    if words.len() == 0 {
        return String::new();
    }
    let mut output = to_ascii_lower(words[0].as_str());
    let mut rest: Vec<String> = Vec::new();
    for i in 1..words.len()
        invariant
            words@.len() > 0,
            strings_view(rest@) == strings_view(words@).subrange(1, i as int),
    {
        let ghost before = strings_view(rest@);
        let w = words[i].clone();
        assert(w@ == strings_view(words@)[i as int]);
        rest.push(w);
        assert(strings_view(rest@) =~= before.push(w@));
        assert(strings_view(words@).subrange(1, i + 1) =~= strings_view(words@).subrange(1, i as int).push(
            strings_view(words@)[i as int],
        ));
    }
    assert(strings_view(words@).subrange(1, words@.len() as int) =~= strings_view(words@).drop_first());
    assert(rest@.map_values(|s: String| s@) =~= strings_view(rest@));
    let tail = join_strings(&rest, "");
    proof {
        reveal_strlit("");
        assert(""@ =~= Seq::<char>::empty());
        assert(strings_view(words@)[0] == words@[0]@);
    }
    push_str(&mut output, tail.as_str());
    output
}

} // verus!

verus! {

/// A serde `rename_all` rule.
#[derive(Clone, Copy, Debug, PartialEq, Eq, Structural)]
pub enum RenameRule {
    Camel,
    Pascal,
    Snake,
    Kebab,
    ScreamingSnake,
}

/// The rule a serde `rename_all` value names, if any.
pub open spec fn spec_rule_named(value: Seq<char>) -> Option<RenameRule> {
    if value == "camelCase"@ {
        Some(RenameRule::Camel)
    } else if value == "PascalCase"@ {
        Some(RenameRule::Pascal)
    } else if value == "snake_case"@ {
        Some(RenameRule::Snake)
    } else if value == "kebab-case"@ {
        Some(RenameRule::Kebab)
    } else if value == "SCREAMING_SNAKE_CASE"@ {
        Some(RenameRule::ScreamingSnake)
    } else {
        None
    }
}

impl RenameRule {
    /// Parses a serde `rename_all` value; any other value is an error that
    /// names it.
    pub fn parse(value: &str) -> (r: Result<Self, String>)
        ensures
            match spec_rule_named(value@) {
                Some(rule) => r == Ok::<RenameRule, String>(rule),
                None => match r {
                    Err(m) => m@ == "unsupported serde rename_all rule `"@ + value@ + "`"@,
                    Ok(_) => false,
                },
            },
    {
        if crate::order::str_eq(value, "camelCase") {
            Ok(RenameRule::Camel)
        } else if crate::order::str_eq(value, "PascalCase") {
            Ok(RenameRule::Pascal)
        } else if crate::order::str_eq(value, "snake_case") {
            Ok(RenameRule::Snake)
        } else if crate::order::str_eq(value, "kebab-case") {
            Ok(RenameRule::Kebab)
        } else if crate::order::str_eq(value, "SCREAMING_SNAKE_CASE") {
            Ok(RenameRule::ScreamingSnake)
        } else {
            let mut m = "unsupported serde rename_all rule `".to_owned();
            push_str(&mut m, value);
            push_str(&mut m, "`");
            Err(m)
        }
    }
}

/// The name a rule gives to `name`; without a rule, the name itself.
pub open spec fn spec_apply_rename_rule(name: Seq<char>, rule: Option<RenameRule>) -> Seq<char> {
    match rule {
        None => name,
        Some(RenameRule::Camel) => spec_camel_case(name),
        Some(RenameRule::Pascal) => join(spec_split_words(name), Seq::empty()),
        Some(RenameRule::Snake) => spec_lower(join(spec_split_words(name), seq!['_'])),
        Some(RenameRule::Kebab) => spec_lower(join(spec_split_words(name), seq!['-'])),
        Some(RenameRule::ScreamingSnake) => spec_upper(join(spec_split_words(name), seq!['_'])),
    }
}

/// Applies a `rename_all` rule to a field or variant name.
pub fn apply_rename_rule(name: &str, rule: Option<RenameRule>) -> (r: String)
    ensures
        r@ == spec_apply_rename_rule(name@, rule),
{
    match rule {
        None => name.to_owned(),
        Some(RenameRule::Camel) => to_camel_case(name),
        Some(r) => {
            let words = split_words(name);
            assert(words@.map_values(|s: String| s@) =~= strings_view(words@));
            match r {
                RenameRule::Pascal => {
                    proof {
                        reveal_strlit("");
                        assert(""@ =~= Seq::<char>::empty());
                    }
                    join_strings(&words, "")
                },
                RenameRule::Snake => {
                    proof {
                        reveal_strlit("_");
                        assert("_"@ =~= seq!['_']);
                    }
                    to_ascii_lower(join_strings(&words, "_").as_str())
                },
                RenameRule::Kebab => {
                    proof {
                        reveal_strlit("-");
                        assert("-"@ =~= seq!['-']);
                    }
                    to_ascii_lower(join_strings(&words, "-").as_str())
                },
                _ => {
                    proof {
                        reveal_strlit("_");
                        assert("_"@ =~= seq!['_']);
                    }
                    to_ascii_upper(join_strings(&words, "_").as_str())
                },
            }
        },
    }
}

} // verus!

verus! {

/// The first index at or after `i` that holds `}`, or the length of `p`.
pub open spec fn spec_next_close(p: Seq<char>, i: int) -> int
    decreases p.len() - i,
{
    if i >= p.len() {
        p.len() as int
    } else if p[i] == '}' {
        i
    } else {
        spec_next_close(p, i + 1)
    }
}

/// The first index at or after `i` that holds `/`, `{` or `}`, or the
/// length of `p`.
pub open spec fn spec_next_stop(p: Seq<char>, i: int) -> int
    decreases p.len() - i,
{
    if i >= p.len() {
        p.len() as int
    } else if p[i] == '/' || p[i] == '{' || p[i] == '}' {
        i
    } else {
        spec_next_stop(p, i + 1)
    }
}

/// The next `}` at or after `i` lies between `i` and the end.
pub proof fn lemma_next_close_bounds(p: Seq<char>, i: int)
    requires
        0 <= i <= p.len(),
    ensures
        i <= spec_next_close(p, i) <= p.len(),
    decreases p.len() - i,
{
    if i < p.len() && p[i] != '}' {
        lemma_next_close_bounds(p, i + 1);
    }
}

/// The next stop character at or after `i` lies between `i` and the end.
pub proof fn lemma_next_stop_bounds(p: Seq<char>, i: int)
    requires
        0 <= i <= p.len(),
    ensures
        i <= spec_next_stop(p, i) <= p.len(),
    decreases p.len() - i,
{
    if i < p.len() && !(p[i] == '/' || p[i] == '{' || p[i] == '}') {
        lemma_next_stop_bounds(p, i + 1);
    }
}

/// The route parameters of `p` from index `i` on: each `{name}` (an
/// unclosed `{` ends the scan), and after each `:` the text up to the next
/// `/`, `{` or `}`.
pub open spec fn spec_params_from(p: Seq<char>, i: int) -> Seq<Seq<char>>
    decreases p.len() - i,
{
    if i < 0 || i >= p.len() {
        Seq::empty()
    } else if p[i] == '{' {
        let j = spec_next_close(p, i + 1);
        proof {
            lemma_next_close_bounds(p, i + 1);
        }
        if j < p.len() {
            seq![p.subrange(i + 1, j)] + spec_params_from(p, j + 1)
        } else {
            Seq::empty()
        }
    } else if p[i] == ':' {
        proof {
            lemma_next_stop_bounds(p, i + 1);
        }
        seq![p.subrange(i + 1, spec_next_stop(p, i + 1))] + spec_params_from(p, i + 1)
    } else {
        spec_params_from(p, i + 1)
    }
}

/// The route parameters of a path.
pub open spec fn spec_route_params(path: Seq<char>) -> Seq<Seq<char>> {
    spec_params_from(path, 0)
}

fn next_close(chars: &Vec<char>, from: usize) -> (r: usize)
    requires
        from <= chars@.len(),
    ensures
        r == spec_next_close(chars@, from as int),
{
    let mut i = from;
    while i < chars.len()
        invariant
            from <= i <= chars@.len(),
            spec_next_close(chars@, from as int) == spec_next_close(chars@, i as int),
        decreases chars@.len() - i,
    {
        if chars[i] == '}' {
            return i;
        }
        i = i + 1;
    }
    i
}

fn next_stop(chars: &Vec<char>, from: usize) -> (r: usize)
    requires
        from <= chars@.len(),
    ensures
        r == spec_next_stop(chars@, from as int),
{
    let mut i = from;
    while i < chars.len()
        invariant
            from <= i <= chars@.len(),
            spec_next_stop(chars@, from as int) == spec_next_stop(chars@, i as int),
        decreases chars@.len() - i,
    {
        if chars[i] == '/' || chars[i] == '{' || chars[i] == '}' {
            return i;
        }
        i = i + 1;
    }
    i
}

/// The names of a route's path parameters, `{name}` and `:name` alike, in
/// order.
pub fn route_params(path: &str) -> (r: Vec<String>)
    ensures
        strings_view(r@) == spec_route_params(path@),
{
    let chars = chars_of(path);
    let mut out: Vec<String> = Vec::new();
    let mut i: usize = 0;
    assert(strings_view(out@) + spec_params_from(path@, 0) =~= spec_params_from(path@, 0));
    while i < chars.len()
        invariant
            chars@ == path@,
            i <= chars@.len(),
            strings_view(out@) + spec_params_from(path@, i as int) == spec_params_from(path@, 0),
        decreases chars@.len() - i,
    {
        let ghost before = strings_view(out@);
        let c = chars[i];
        if c == '{' {
            let j = next_close(&chars, i + 1);
            proof {
                lemma_next_close_bounds(path@, i + 1);
            }
            if j < chars.len() {
                let name = crate::scan::collect_range(&chars, i + 1, j);
                out.push(name);
                assert(strings_view(out@) =~= before.push(name@));
                assert(before + spec_params_from(path@, i as int) =~= strings_view(out@) + spec_params_from(
                    path@,
                    j + 1,
                ));
                i = j + 1;
            } else {
                assert(strings_view(out@) + spec_params_from(path@, chars@.len() as int) =~= before
                    + spec_params_from(path@, i as int));
                i = chars.len();
            }
        } else if c == ':' {
            let e = next_stop(&chars, i + 1);
            proof {
                lemma_next_stop_bounds(path@, i + 1);
            }
            let name = crate::scan::collect_range(&chars, i + 1, e);
            out.push(name);
            assert(strings_view(out@) =~= before.push(name@));
            assert(before + spec_params_from(path@, i as int) =~= strings_view(out@) + spec_params_from(
                path@,
                i + 1,
            ));
            i = i + 1;
        } else {
            i = i + 1;
        }
    }
    assert(strings_view(out@) + spec_params_from(path@, i as int) =~= strings_view(out@));
    out
}

/// Whether a trimmed path segment can name an endpoint's namespace: not
/// empty, not a parameter, and holding no `}`.
pub open spec fn spec_namespace_segment(t: Seq<char>) -> bool {
    t.len() > 0 && t[0] != '{' && t[0] != ':' && !t.contains('}')
}

/// The camel-case form of the first path segment that can name a
/// namespace.
pub open spec fn spec_first_namespace(segments: Seq<Seq<char>>) -> Option<Seq<char>>
    decreases segments.len(),
{
    if segments.len() == 0 {
        None
    } else if spec_namespace_segment(spec_trim(segments[0])) {
        Some(spec_camel_case(spec_trim(segments[0])))
    } else {
        spec_first_namespace(segments.drop_first())
    }
}

/// The default TypeScript path of an endpoint: the namespace from its
/// route (`api` when none, or when it is empty in camel case) and the
/// camel-case function name.
pub open spec fn spec_default_ts_path(path: Seq<char>, fn_name: Seq<char>) -> (Seq<char>, Seq<char>) {
    let namespace = match spec_first_namespace(spec_split(path, '/')) {
        Some(n) => if n.len() > 0 {
            n
        } else {
            "api"@
        },
        None => "api"@,
    };
    (namespace, spec_camel_case(fn_name))
}

fn namespace_segment(t: &str) -> (r: bool)
    ensures
        r == spec_namespace_segment(t@),
{
    let chars = chars_of(t);
    if chars.len() == 0 || chars[0] == '{' || chars[0] == ':' {
        return false;
    }
    for i in 0..chars.len()
        invariant
            chars@ == t@,
            forall|j: int| 0 <= j < i ==> chars@[j] != '}',
    {
        if chars[i] == '}' {
            return false;
        }
    }
    true
}

fn first_namespace(segments: &Vec<String>) -> (r: Option<String>)
    ensures
        match r {
            Some(n) => spec_first_namespace(strings_view(segments@)) == Some(n@),
            None => spec_first_namespace(strings_view(segments@)) is None,
        },
{
    let ghost sv = strings_view(segments@);
    assert(sv.subrange(0, sv.len() as int) =~= sv);
    for k in 0..segments.len()
        invariant
            sv == strings_view(segments@),
            spec_first_namespace(sv) == spec_first_namespace(sv.subrange(k as int, sv.len() as int)),
    {
        let ghost rest = sv.subrange(k as int, sv.len() as int);
        assert(rest[0] == segments@[k as int]@);
        let t = trim(segments[k].as_str());
        if namespace_segment(t.as_str()) {
            return Some(to_camel_case(t.as_str()));
        }
        assert(rest.drop_first() =~= sv.subrange(k + 1, sv.len() as int));
    }
    assert(sv.subrange(sv.len() as int, sv.len() as int) =~= Seq::<Seq<char>>::empty());
    None
}

/// The default TypeScript namespace and function name of an endpoint
/// routed at `path` and implemented by `fn_name`.
pub fn default_ts_path(path: &str, fn_name: &str) -> (r: (String, String))
    ensures
        (r.0@, r.1@) == spec_default_ts_path(path@, fn_name@),
{
    let segments = split_char(path, '/');
    let namespace = match first_namespace(&segments) {
        Some(n) => {
            if n.as_str().unicode_len() > 0 {
                n
            } else {
                "api".to_owned()
            }
        },
        None => "api".to_owned(),
    };
    (namespace, to_camel_case(fn_name))
}

} // verus!
