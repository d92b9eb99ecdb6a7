//! TypeScript lexical helpers: string literals, identifiers, property keys,
//! indentation and name casing.

use vstd::prelude::*;
use crate::text::{chars_of, push_char, push_str};

verus! {

/// The escaped form of one character inside a double-quoted literal.
pub open spec fn spec_escape_char(c: char) -> Seq<char> {
    if c == '"' {
        seq!['\\', '"']
    } else if c == '\\' {
        seq!['\\', '\\']
    } else if c == '\n' {
        seq!['\\', 'n']
    } else if c == '\r' {
        seq!['\\', 'r']
    } else if c == '\t' {
        seq!['\\', 't']
    } else {
        seq![c]
    }
}

/// The escaped body of a double-quoted literal.
pub open spec fn spec_escape(s: Seq<char>) -> Seq<char>
    decreases s.len(),
{
    if s.len() == 0 {
        Seq::empty()
    } else {
        spec_escape(s.drop_last()) + spec_escape_char(s.last())
    }
}

/// A double-quoted TypeScript string literal.
pub open spec fn spec_ts_string(s: Seq<char>) -> Seq<char> {
    seq!['"'] + spec_escape(s) + seq!['"']
}

/// Appends the escaped form of one character.
pub fn push_escaped_char(out: &mut String, c: char)
    ensures
        final(out)@ == old(out)@ + spec_escape_char(c),
{
    if c == '"' {
        push_char(out, '\\');
        push_char(out, '"');
    } else if c == '\\' {
        push_char(out, '\\');
        push_char(out, '\\');
    } else if c == '\n' {
        push_char(out, '\\');
        push_char(out, 'n');
    } else if c == '\r' {
        push_char(out, '\\');
        push_char(out, 'r');
    } else if c == '\t' {
        push_char(out, '\\');
        push_char(out, 't');
    } else {
        push_char(out, c);
    }
}

/// Renders a double-quoted TypeScript string literal.
pub fn ts_string(value: &str) -> (r: String)
    ensures
        r@ == spec_ts_string(value@),
{
    let chars = chars_of(value);
    let mut out = String::new();
    push_char(&mut out, '"');
    for i in 0..chars.len()
        invariant
            chars@ == value@,
            out@ == seq!['"'] + spec_escape(value@.take(i as int)),
    {
        assert(value@.take(i + 1).drop_last() =~= value@.take(i as int));
        push_escaped_char(&mut out, chars[i]);
        assert(out@ =~= seq!['"'] + spec_escape(value@.take(i + 1)));
    }
    assert(value@.take(chars@.len() as int) =~= value@);
    push_char(&mut out, '"');
    out
}

pub open spec fn is_ascii_alpha(c: char) -> bool {
    ('a' <= c && c <= 'z') || ('A' <= c && c <= 'Z')
}

pub open spec fn is_ascii_digit(c: char) -> bool {
    '0' <= c && c <= '9'
}

/// Whether `s` is a plain TypeScript identifier (ASCII letters, digits, `_`, `$`).
pub open spec fn spec_is_ts_identifier(s: Seq<char>) -> bool {
    &&& s.len() > 0
    &&& (s[0] == '_' || s[0] == '$' || is_ascii_alpha(s[0]))
    &&& forall|i: int|
        1 <= i < s.len() ==> (#[trigger] s[i] == '_' || s[i] == '$' || is_ascii_alpha(s[i])
            || is_ascii_digit(s[i]))
}

/// Whether `value` can be written as a bare TypeScript property key.
pub fn is_identifier(value: &str) -> (r: bool)
    ensures
        r == spec_is_ts_identifier(value@),
{
    let chars = chars_of(value);
    if chars.len() == 0 {
        return false;
    }
    let first = chars[0];
    if !(first == '_' || first == '$' || ('a' <= first && first <= 'z') || ('A' <= first && first
        <= 'Z')) {
        return false;
    }
    for i in 1..chars.len()
        invariant
            chars@ == value@,
            forall|j: int|
                1 <= j < i ==> (#[trigger] chars@[j] == '_' || chars@[j] == '$' || is_ascii_alpha(
                    chars@[j],
                ) || is_ascii_digit(chars@[j])),
    {
        let c = chars[i];
        if !(c == '_' || c == '$' || ('a' <= c && c <= 'z') || ('A' <= c && c <= 'Z') || ('0' <= c
            && c <= '9')) {
            return false;
        }
    }
    true
}

/// A property key: bare when it is an identifier, quoted otherwise.
pub open spec fn spec_property_key(key: Seq<char>) -> Seq<char> {
    if spec_is_ts_identifier(key) {
        key
    } else {
        spec_ts_string(key)
    }
}

/// Renders a TypeScript object property key.
pub fn render_property_key(key: &str) -> (r: String)
    ensures
        r@ == spec_property_key(key@),
{
    if is_identifier(key) {
        key.to_owned()
    } else {
        ts_string(key)
    }
}

/// `n` spaces.
pub open spec fn spaces(n: nat) -> Seq<char>
    decreases n,
{
    if n == 0 {
        Seq::empty()
    } else {
        spaces((n - 1) as nat).push(' ')
    }
}

/// Renders `width` spaces of indentation.
pub fn render_indent(width: usize) -> (r: String)
    ensures
        r@ == spaces(width as nat),
{
    let mut out = String::new();
    let mut i: usize = 0;
    while i < width
        invariant
            i <= width,
            out@ == spaces(i as nat),
        decreases width - i,
    {
        push_char(&mut out, ' ');
        i += 1;
    }
    out
}

/// The upper-case mapping of a character, as `char::to_uppercase` yields it.
pub uninterp spec fn spec_char_uppercase(c: char) -> Seq<char>;

/// Upper-cases one character.
///
/// Trusted: collects `char::to_uppercase`, whose result depends on the
/// character alone; for ASCII lower-case letters the standard library
/// documents the single corresponding upper-case letter, and other ASCII
/// characters map to themselves.
#[verifier::external_body]
pub fn char_uppercase(c: char) -> (r: String)
    ensures
        r@ == spec_char_uppercase(c),
        ('a' <= c && c <= 'z') ==> r@ == seq![((c as u32) - 32) as char],
        ((c as u32) < 128 && !('a' <= c && c <= 'z')) ==> r@ == seq![c],
{
    let mut out = String::new();
    out.extend(c.to_uppercase());
    out
}

/// Characters that separate words in a name.
pub open spec fn is_word_break(c: char) -> bool {
    c == '_' || c == '-' || c == ' '
}

/// The Pascal-case rendering of `s`, with whether the next character starts a word.
pub open spec fn spec_pascal_state(s: Seq<char>) -> (Seq<char>, bool)
    decreases s.len(),
{
    if s.len() == 0 {
        (Seq::empty(), true)
    } else {
        let (out, upper) = spec_pascal_state(s.drop_last());
        let c = s.last();
        if is_word_break(c) {
            (out, true)
        } else if upper {
            (out + spec_char_uppercase(c), false)
        } else {
            (out.push(c), false)
        }
    }
}

/// Pascal case: word breaks are dropped and each word starts upper-case.
pub open spec fn spec_pascal_case(s: Seq<char>) -> Seq<char> {
    spec_pascal_state(s).0
}

/// Converts a name to Pascal case.
pub fn to_pascal_case(value: &str) -> (r: String)
    ensures
        r@ == spec_pascal_case(value@),
{
    let chars = chars_of(value);
    let mut output = String::new();
    let mut uppercase_next = true;
    for i in 0..chars.len()
        invariant
            chars@ == value@,
            (output@, uppercase_next) == spec_pascal_state(value@.take(i as int)),
    {
        assert(value@.take(i + 1).drop_last() =~= value@.take(i as int));
        let c = chars[i];
        if c == '_' || c == '-' || c == ' ' {
            uppercase_next = true;
        } else if uppercase_next {
            let u = char_uppercase(c);
            push_str(&mut output, u.as_str());
            uppercase_next = false;
        } else {
            push_char(&mut output, c);
        }
    }
    assert(value@.take(chars@.len() as int) =~= value@);
    output
}

/// Removes trailing blank lines: the text never ends with two newlines.
pub open spec fn spec_trim_blank_lines(s: Seq<char>) -> Seq<char>
    decreases s.len(),
{
    if s.len() >= 2 && s[s.len() - 1] == '\n' && s[s.len() - 2] == '\n' {
        spec_trim_blank_lines(s.drop_last())
    } else {
        s
    }
}

/// Drops newlines from the end until the text no longer ends with a blank line.
pub fn trim_trailing_blank_lines(output: String) -> (r: String)
    ensures
        r@ == spec_trim_blank_lines(output@),
{
    let chars = chars_of(output.as_str());
    let mut n = chars.len();
    assert(output@.take(n as int) =~= output@);
    while n >= 2 && chars[n - 1] == '\n' && chars[n - 2] == '\n'
        invariant
            chars@ == output@,
            n <= chars@.len(),
            spec_trim_blank_lines(output@) == spec_trim_blank_lines(output@.take(n as int)),
        decreases n,
    {
        assert(output@.take(n as int).drop_last() =~= output@.take(n - 1));
        n -= 1;
    }
    let mut out = String::new();
    for i in 0..n
        invariant
            n <= chars@.len(),
            chars@ == output@,
            out@ == output@.take(i as int),
    {
        push_char(&mut out, chars[i]);
        assert(out@ =~= output@.take(i + 1));
    }
    assert(output@.take(chars@.len() as int) =~= output@);
    out
}

} // verus!
