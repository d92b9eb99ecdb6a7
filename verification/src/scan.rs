//! Scanning text: lines, whitespace trimming, prefixes, substring search
//! and splitting, each with the meaning that Rust's `str` methods give it.

use vstd::prelude::*;
use vstd::string::StringSliceAdditionalSpecFns;
use crate::text::{chars_of, push_char};

verus! {

/// Unicode `White_Space` characters, as `char::is_whitespace` tests them.
pub open spec fn spec_is_whitespace(c: char) -> bool {
    ('\u{9}' <= c && c <= '\u{d}') || c == ' ' || c == '\u{85}' || c == '\u{a0}' || c == '\u{1680}'
        || ('\u{2000}' <= c && c <= '\u{200a}') || c == '\u{2028}' || c == '\u{2029}' || c
        == '\u{202f}' || c == '\u{205f}' || c == '\u{3000}'
}

/// Whether `c` is white space.
pub fn is_whitespace(c: char) -> (r: bool)
    ensures
        r == spec_is_whitespace(c),
{
    ('\u{9}' <= c && c <= '\u{d}') || c == ' ' || c == '\u{85}' || c == '\u{a0}' || c == '\u{1680}'
        || ('\u{2000}' <= c && c <= '\u{200a}') || c == '\u{2028}' || c == '\u{2029}' || c
        == '\u{202f}' || c == '\u{205f}' || c == '\u{3000}'
}

/// The number of leading white space characters of `s`.
pub open spec fn spec_leading_ws(s: Seq<char>) -> nat
    decreases s.len(),
{
    if s.len() > 0 && spec_is_whitespace(s[0]) {
        1 + spec_leading_ws(s.drop_first())
    } else {
        0
    }
}

/// The number of trailing white space characters of `s`.
pub open spec fn spec_trailing_ws(s: Seq<char>) -> nat
    decreases s.len(),
{
    if s.len() > 0 && spec_is_whitespace(s.last()) {
        1 + spec_trailing_ws(s.drop_last())
    } else {
        0
    }
}

/// `s` without leading white space.
pub open spec fn spec_trim_start(s: Seq<char>) -> Seq<char> {
    s.skip(spec_leading_ws(s) as int)
}

/// `s` without trailing white space.
pub open spec fn spec_trim_end(s: Seq<char>) -> Seq<char> {
    s.take(s.len() - spec_trailing_ws(s))
}

/// `s` without leading or trailing white space.
pub open spec fn spec_trim(s: Seq<char>) -> Seq<char> {
    spec_trim_end(spec_trim_start(s))
}

proof fn lemma_leading_ws(s: Seq<char>, i: int)
    requires
        0 <= i <= s.len(),
        forall|j: int| 0 <= j < i ==> spec_is_whitespace(#[trigger] s[j]),
    ensures
        spec_leading_ws(s) == i + spec_leading_ws(s.skip(i)),
        spec_leading_ws(s) <= s.len(),
    decreases i,
{
    if i > 0 {
        assert(s.drop_first().skip(i - 1) =~= s.skip(i));
        lemma_leading_ws(s.drop_first(), i - 1);
    } else {
        assert(s.skip(0) =~= s);
        lemma_leading_ws_bound(s);
    }
}

proof fn lemma_leading_ws_bound(s: Seq<char>)
    ensures
        spec_leading_ws(s) <= s.len(),
    decreases s.len(),
{
    if s.len() > 0 {
        lemma_leading_ws_bound(s.drop_first());
    }
}

proof fn lemma_trailing_ws(s: Seq<char>, i: int)
    requires
        0 <= i <= s.len(),
        forall|j: int| s.len() - i <= j < s.len() ==> spec_is_whitespace(#[trigger] s[j]),
    ensures
        spec_trailing_ws(s) == i + spec_trailing_ws(s.take(s.len() - i)),
        spec_trailing_ws(s) <= s.len(),
    decreases i,
{
    if i > 0 {
        assert(s.drop_last().take(s.len() - i) =~= s.take(s.len() - i));
        lemma_trailing_ws(s.drop_last(), i - 1);
    } else {
        assert(s.take(s.len() as int) =~= s);
        lemma_trailing_ws_bound(s);
    }
}

proof fn lemma_trailing_ws_bound(s: Seq<char>)
    ensures
        spec_trailing_ws(s) <= s.len(),
    decreases s.len(),
{
    if s.len() > 0 {
        lemma_trailing_ws_bound(s.drop_last());
    }
}

/// The characters of `chars` from `from` to `to`, as a string.
pub fn collect_range(chars: &Vec<char>, from: usize, to: usize) -> (r: String)
    requires
        from <= to <= chars@.len(),
    ensures
        r@ == chars@.subrange(from as int, to as int),
{
    let mut out = String::new();
    for i in from..to
        invariant
            to <= chars@.len(),
            out@ == chars@.subrange(from as int, i as int),
    {
        push_char(&mut out, chars[i]);
        assert(out@ =~= chars@.subrange(from as int, i + 1));
    }
    out
}

/// `s` without leading white space.
pub fn trim_start(s: &str) -> (r: String)
    ensures
        r@ == spec_trim_start(s@),
{
    let chars = chars_of(s);
    let mut i: usize = 0;
    while i < chars.len() && is_whitespace(chars[i])
        invariant
            chars@ == s@,
            i <= chars@.len(),
            forall|j: int| 0 <= j < i ==> spec_is_whitespace(#[trigger] s@[j]),
        decreases chars.len() - i,
    {
        i += 1;
    }
    proof {
        lemma_leading_ws(s@, i as int);
        if i < chars@.len() {
            assert(s@.skip(i as int)[0] == s@[i as int]);
        }
    }
    collect_range(&chars, i, chars.len())
}

/// `s` without trailing white space.
pub fn trim_end(s: &str) -> (r: String)
    ensures
        r@ == spec_trim_end(s@),
{
    let chars = chars_of(s);
    let mut n = chars.len();
    while n > 0 && is_whitespace(chars[n - 1])
        invariant
            chars@ == s@,
            n <= chars@.len(),
            forall|j: int| n <= j < s@.len() ==> spec_is_whitespace(#[trigger] s@[j]),
        decreases n,
    {
        n -= 1;
    }
    proof {
        lemma_trailing_ws(s@, s@.len() - n);
        if n > 0 {
            assert(s@.take(n as int).last() == s@[n - 1]);
        }
    }
    collect_range(&chars, 0, n)
}

/// `s` without leading or trailing white space.
pub fn trim(s: &str) -> (r: String)
    ensures
        r@ == spec_trim(s@),
{
    let start = trim_start(s);
    trim_end(start.as_str())
}

/// Whether `s` begins with `prefix`.
pub open spec fn spec_starts_with(s: Seq<char>, prefix: Seq<char>) -> bool {
    prefix.len() <= s.len() && s.take(prefix.len() as int) == prefix
}

/// Whether `s` begins with `prefix`.
pub fn starts_with(s: &str, prefix: &str) -> (r: bool)
    ensures
        r == spec_starts_with(s@, prefix@),
{
    let a = chars_of(s);
    let b = chars_of(prefix);
    if b.len() > a.len() {
        return false;
    }
    for i in 0..b.len()
        invariant
            a@ == s@,
            b@ == prefix@,
            b@.len() <= a@.len(),
            forall|j: int| 0 <= j < i ==> a@[j] == b@[j],
    {
        if a[i] != b[i] {
            assert(s@.take(prefix@.len() as int)[i as int] != prefix@[i as int]);
            return false;
        }
    }
    assert(s@.take(prefix@.len() as int) =~= prefix@);
    true
}

/// The first position at or after `from` where `needle` occurs in `hay`.
pub open spec fn spec_find_from<T>(hay: Seq<T>, needle: Seq<T>, from: int) -> Option<int>
    decreases hay.len() - from,
{
    if from < 0 || from + needle.len() > hay.len() {
        None
    } else if needle.len() == 0 || hay.subrange(from, from + needle.len()) == needle {
        Some(from)
    } else {
        spec_find_from(hay, needle, from + 1)
    }
}

/// The first position where `needle` occurs in `hay`.
pub open spec fn spec_find<T>(hay: Seq<T>, needle: Seq<T>) -> Option<int> {
    spec_find_from(hay, needle, 0)
}

fn matches_at_chars(hay: &Vec<char>, needle: &Vec<char>, at: usize) -> (r: bool)
    requires
        at + needle@.len() <= hay.len(),
    ensures
        r == (hay@.subrange(at as int, at + needle@.len()) == needle@),
{
    let mut j: usize = 0;
    while j < needle.len()
        invariant
            at + needle@.len() <= hay.len(),
            j <= needle@.len(),
            forall|k: int| 0 <= k < j ==> hay@[at + k] == needle@[k],
        decreases needle@.len() - j,
    {
        if hay[at + j] != needle[j] {
            assert(hay@.subrange(at as int, at + needle@.len())[j as int] != needle@[j as int]);
            return false;
        }
        j += 1;
    }
    assert(hay@.subrange(at as int, at + needle@.len()) =~= needle@);
    true
}

/// The first character position where `needle` occurs in `hay`.
pub fn find_chars(hay: &Vec<char>, needle: &Vec<char>) -> (r: Option<usize>)
    ensures
        match spec_find(hay@, needle@) {
            Some(i) => r == Some(i as usize),
            None => r is None,
        },
{
    if needle.len() > hay.len() {
        return None;
    }
    if needle.len() == 0 {
        return Some(0);
    }
    let last = hay.len() - needle.len();
    let mut i: usize = 0;
    while i <= last
        invariant
            last + needle@.len() == hay.len(),
            needle@.len() > 0,
            i <= last + 1,
            spec_find(hay@, needle@) == spec_find_from(hay@, needle@, i as int),
        decreases last + 1 - i,
    {
        if matches_at_chars(hay, needle, i) {
            return Some(i);
        }
        assert(spec_find_from(hay@, needle@, i as int) == spec_find_from(hay@, needle@, i + 1));
        i += 1;
    }
    None
}

fn matches_at_bytes(hay: &[u8], needle: &[u8], at: usize) -> (r: bool)
    requires
        at + needle@.len() <= hay.len(),
    ensures
        r == (hay@.subrange(at as int, at + needle@.len()) == needle@),
{
    let mut j: usize = 0;
    while j < needle.len()
        invariant
            at + needle@.len() <= hay.len(),
            j <= needle@.len(),
            forall|k: int| 0 <= k < j ==> hay@[at + k] == needle@[k],
        decreases needle@.len() - j,
    {
        if hay[at + j] != needle[j] {
            assert(hay@.subrange(at as int, at + needle@.len())[j as int] != needle@[j as int]);
            return false;
        }
        j += 1;
    }
    assert(hay@.subrange(at as int, at + needle@.len()) =~= needle@);
    true
}

/// The first byte offset where `needle` occurs in `hay`, as `str::find`
/// reports it.
pub fn find_str(hay: &str, needle: &str) -> (r: Option<usize>)
    ensures
        match spec_find(hay.spec_bytes(), needle.spec_bytes()) {
            Some(i) => r == Some(i as usize),
            None => r is None,
        },
{
    let h = hay.as_bytes();
    let n = needle.as_bytes();
    if n.len() > h.len() {
        return None;
    }
    if n.len() == 0 {
        return Some(0);
    }
    let last = h.len() - n.len();
    let mut i: usize = 0;
    while i <= last
        invariant
            h@ == hay.spec_bytes(),
            n@ == needle.spec_bytes(),
            last + n@.len() == h.len(),
            n@.len() > 0,
            i <= last + 1,
            spec_find(h@, n@) == spec_find_from(h@, n@, i as int),
        decreases last + 1 - i,
    {
        if matches_at_bytes(h, n, i) {
            return Some(i);
        }
        assert(spec_find_from(h@, n@, i as int) == spec_find_from(h@, n@, i + 1));
        i += 1;
    }
    None
}

/// Whether `needle` occurs in `s`.
pub fn contains_str(s: &str, needle: &str) -> (r: bool)
    ensures
        r == spec_find(s@, needle@) is Some,
{
    let a = chars_of(s);
    let b = chars_of(needle);
    find_chars(&a, &b).is_some()
}

/// The pieces of `s` between occurrences of `sep`.
pub open spec fn spec_split_state(s: Seq<char>, sep: char) -> (Seq<Seq<char>>, Seq<char>)
    decreases s.len(),
{
    if s.len() == 0 {
        (Seq::empty(), Seq::empty())
    } else {
        let (done, cur) = spec_split_state(s.drop_last(), sep);
        if s.last() == sep {
            (done.push(cur), Seq::empty())
        } else {
            (done, cur.push(s.last()))
        }
    }
}

/// The pieces of `s` separated by `sep`, as `str::split` yields them.
pub open spec fn spec_split(s: Seq<char>, sep: char) -> Seq<Seq<char>> {
    spec_split_state(s, sep).0.push(spec_split_state(s, sep).1)
}

/// Splits `s` at every `sep`.
pub fn split_char(s: &str, sep: char) -> (r: Vec<String>)
    ensures
        crate::ir::strings_view(r@) == spec_split(s@, sep),
{
    let chars = chars_of(s);
    let mut done: Vec<String> = Vec::new();
    let mut cur = String::new();
    for i in 0..chars.len()
        invariant
            chars@ == s@,
            (crate::ir::strings_view(done@), cur@) == spec_split_state(s@.take(i as int), sep),
    {
        assert(s@.take(i + 1).drop_last() =~= s@.take(i as int));
        if chars[i] == sep {
            let ghost before = crate::ir::strings_view(done@);
            let mut piece = String::new();
            std::mem::swap(&mut piece, &mut cur);
            done.push(piece);
            assert(crate::ir::strings_view(done@) =~= before.push(piece@));
        } else {
            push_char(&mut cur, chars[i]);
        }
    }
    assert(s@.take(chars@.len() as int) =~= s@);
    let ghost before = crate::ir::strings_view(done@);
    done.push(cur);
    assert(crate::ir::strings_view(done@) =~= before.push(spec_split_state(s@, sep).1));
    done
}

/// The text before and after the first occurrence of `needle`, if any.
pub open spec fn spec_split_once(s: Seq<char>, needle: Seq<char>) -> Option<(Seq<char>, Seq<char>)> {
    match spec_find(s, needle) {
        Some(i) => Some((s.take(i), s.skip(i + needle.len()))),
        None => None,
    }
}

proof fn lemma_find_from_bounds<T>(hay: Seq<T>, needle: Seq<T>, from: int)
    ensures
        spec_find_from(hay, needle, from) matches Some(i) ==> from <= i && i + needle.len() <= hay.len(),
    decreases hay.len() - from,
{
    if !(from < 0 || from + needle.len() > hay.len()) && needle.len() > 0 && hay.subrange(
        from,
        from + needle.len(),
    ) != needle {
        lemma_find_from_bounds(hay, needle, from + 1);
    }
}

/// A found occurrence lies within the text.
pub proof fn lemma_find_bounds<T>(hay: Seq<T>, needle: Seq<T>)
    ensures
        spec_find(hay, needle) matches Some(i) ==> 0 <= i && i + needle.len() <= hay.len(),
{
    lemma_find_from_bounds(hay, needle, 0);
}

/// Splits `s` at the first occurrence of `needle`.
pub fn split_once(s: &str, needle: &str) -> (r: Option<(String, String)>)
    ensures
        match spec_split_once(s@, needle@) {
            Some((a, b)) => r matches Some(p) && p.0@ == a && p.1@ == b,
            None => r is None,
        },
{
    let a = chars_of(s);
    let b = chars_of(needle);
    proof {
        lemma_find_from_bounds(s@, needle@, 0);
    }
    let found = find_chars(&a, &b);
    assert(spec_find(a@, b@) == spec_find_from(s@, needle@, 0));
    match found {
        None => None,
        Some(i) => {
            let total = a.len();
            let width = b.len();
            assert(i + width <= total);
            let before = collect_range(&a, 0, i);
            let after = collect_range(&a, i + width, total);
            assert(s@.take(i as int) =~= a@.subrange(0, i as int));
            assert(s@.skip(i + needle@.len()) =~= a@.subrange(i + b@.len(), a@.len() as int));
            Some((before, after))
        },
    }
}

/// A line without one trailing carriage return.
pub open spec fn spec_strip_cr(line: Seq<char>) -> Seq<char> {
    if line.len() > 0 && line.last() == '\r' {
        line.drop_last()
    } else {
        line
    }
}

/// The finished lines and the unfinished line after the characters of `s`.
pub open spec fn spec_lines_state(s: Seq<char>) -> (Seq<Seq<char>>, Seq<char>)
    decreases s.len(),
{
    if s.len() == 0 {
        (Seq::empty(), Seq::empty())
    } else {
        let (done, cur) = spec_lines_state(s.drop_last());
        if s.last() == '\n' {
            (done.push(spec_strip_cr(cur)), Seq::empty())
        } else {
            (done, cur.push(s.last()))
        }
    }
}

/// The lines of `s`, as `str::lines` yields them: split after each `\n`,
/// without the `\n` or a `\r` before it; a final empty line is not one.
pub open spec fn spec_lines(s: Seq<char>) -> Seq<Seq<char>> {
    let (done, cur) = spec_lines_state(s);
    if cur.len() > 0 {
        done.push(cur)
    } else {
        done
    }
}

/// The lines of `s`.
pub fn lines(s: &str) -> (r: Vec<String>)
    ensures
        crate::ir::strings_view(r@) == spec_lines(s@),
{
    let chars = chars_of(s);
    let mut done: Vec<String> = Vec::new();
    let mut cur: Vec<char> = Vec::new();
    for i in 0..chars.len()
        invariant
            chars@ == s@,
            (crate::ir::strings_view(done@), cur@) == spec_lines_state(s@.take(i as int)),
    {
        assert(s@.take(i + 1).drop_last() =~= s@.take(i as int));
        if chars[i] == '\n' {
            let n = if cur.len() > 0 && cur[cur.len() - 1] == '\r' {
                cur.len() - 1
            } else {
                cur.len()
            };
            let line = collect_range(&cur, 0, n);
            assert(line@ =~= spec_strip_cr(cur@));
            let ghost before = crate::ir::strings_view(done@);
            done.push(line);
            assert(crate::ir::strings_view(done@) =~= before.push(spec_strip_cr(cur@)));
            cur = Vec::new();
            assert(cur@ =~= Seq::<char>::empty());
        } else {
            cur.push(chars[i]);
        }
    }
    assert(s@.take(chars@.len() as int) =~= s@);
    if cur.len() > 0 {
        let line = collect_range(&cur, 0, cur.len());
        assert(line@ =~= cur@);
        let ghost before = crate::ir::strings_view(done@);
        done.push(line);
        assert(crate::ir::strings_view(done@) =~= before.push(cur@));
    }
    done
}

} // verus!
