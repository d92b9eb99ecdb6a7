//! Character-level helpers shared by the generators and parsers.

use vstd::prelude::*;
use vstd::string::StringExecFns;

verus! {

/// Appends one character to a string.
///
/// Trusted: calls `String::push`, which the standard library documents as
/// appending the given `char` to the end of the string.
#[verifier::external_body]
pub fn push_char(s: &mut String, c: char)
    ensures
        final(s)@ == old(s)@.push(c),
{
    s.push(c);
}

/// Appends a string slice.
pub fn push_str(s: &mut String, t: &str)
    ensures
        final(s)@ == old(s)@ + t@,
{
    s.append(t);
}

/// The characters of a string slice, collected into a vector.
pub fn chars_of(s: &str) -> (r: Vec<char>)
    ensures
        r@ == s@,
{
    let mut out: Vec<char> = Vec::new();
    for c in it: s.chars()
        invariant
            out@ == it.seq().take(it.index() as int),
            it.seq() == s@,
    {
        out.push(c);
    }
    out
}

} // verus!

verus! {

/// The lower-case hexadecimal digit for a value below sixteen.
pub open spec fn hex_digit(d: nat) -> char {
    if d < 10 {
        ((48 + d) as u8) as char
    } else {
        ((87 + d) as u8) as char
    }
}

/// The `n` least significant hexadecimal digits of `x`, most significant first.
pub open spec fn hex_fixed(x: nat, n: nat) -> Seq<char>
    decreases n,
{
    if n == 0 {
        Seq::empty()
    } else {
        hex_fixed(x / 16, (n - 1) as nat).push(hex_digit(x % 16))
    }
}

/// The decimal rendering of a natural number, without leading zeros.
pub open spec fn decimal(x: nat) -> Seq<char>
    decreases x,
{
    if x < 10 {
        seq![((48 + x) as u8) as char]
    } else {
        decimal(x / 10).push(((48 + x % 10) as u8) as char)
    }
}

fn digit_char(d: u64) -> (c: char)
    requires
        d < 16,
    ensures
        c == hex_digit(d as nat),
{
    if d < 10 {
        ((48 + d) as u8) as char
    } else {
        ((87 + d) as u8) as char
    }
}

/// Appends the `n` least significant lower-case hexadecimal digits of `x`.
pub fn push_hex(out: &mut String, x: u64, n: usize)
    ensures
        final(out)@ == old(out)@ + hex_fixed(x as nat, n as nat),
    decreases n,
{
    if n > 0 {
        push_hex(out, x / 16, n - 1);
        let c = digit_char(x % 16);
        push_char(out, c);
    }
}

/// The decimal rendering of `x`.
pub fn decimal_string(x: u64) -> (r: String)
    ensures
        r@ == decimal(x as nat),
{
    let mut out = String::new();
    push_decimal(&mut out, x);
    out
}

/// Appends the decimal rendering of `x`.
pub fn push_decimal(out: &mut String, x: u64)
    ensures
        final(out)@ == old(out)@ + decimal(x as nat),
    decreases x,
{
    if x < 10 {
        push_char(out, ((48 + x) as u8) as char);
    } else {
        push_decimal(out, x / 10);
        push_char(out, ((48 + x % 10) as u8) as char);
    }
}

} // verus!

verus! {

/// The items joined by a separator.
pub open spec fn join(items: Seq<Seq<char>>, sep: Seq<char>) -> Seq<char>
    decreases items.len(),
{
    if items.len() == 0 {
        Seq::empty()
    } else if items.len() == 1 {
        items[0]
    } else {
        join(items.drop_last(), sep) + sep + items.last()
    }
}

/// Joins strings with a separator.
pub fn join_strings(items: &Vec<String>, sep: &str) -> (r: String)
    ensures
        r@ == join(items@.map_values(|s: String| s@), sep@),
{
    let ghost views = items@.map_values(|s: String| s@);
    let mut out = String::new();
    for i in 0..items.len()
        invariant
            views == items@.map_values(|s: String| s@),
            out@ == join(views.take(i as int), sep@),
    {
        assert(views.take(i + 1).drop_last() =~= views.take(i as int));
        if i > 0 {
            push_str(&mut out, sep);
        }
        push_str(&mut out, items[i].as_str());
        assert(out@ =~= join(views.take(i + 1), sep@));
    }
    assert(views.take(items@.len() as int) =~= views);
    out
}

/// The concatenation of `f(x)` over the items of `s`, in order.
pub open spec fn concat_map<T>(s: Seq<T>, f: spec_fn(T) -> Seq<char>) -> Seq<char>
    decreases s.len(),
{
    if s.len() == 0 {
        Seq::empty()
    } else {
        concat_map(s.drop_last(), f) + f(s.last())
    }
}

/// One more item of a prefix adds its text at the end.
pub proof fn lemma_concat_map_step<T>(s: Seq<T>, f: spec_fn(T) -> Seq<char>, i: int)
    requires
        0 <= i < s.len(),
    ensures
        concat_map(s.take(i + 1), f) == concat_map(s.take(i), f) + f(s[i]),
{
    assert(s.take(i + 1).drop_last() =~= s.take(i));
}

/// The whole sequence is its longest prefix.
pub proof fn lemma_take_all<T>(s: Seq<T>)
    ensures
        s.take(s.len() as int) == s,
{
    assert(s.take(s.len() as int) =~= s);
}

} // verus!

verus! {

/// The lowercase hexadecimal digit of `n`, for `0 <= n < 16`.
pub open spec fn spec_hex_digit(n: int) -> char {
    if n < 10 {
        (48 + n) as char
    } else {
        (87 + n) as char
    }
}

/// One character inside a JSON string literal: `"` and `\` escaped with a
/// backslash, backspace, tab, line feed, form feed and carriage return by
/// their short escapes, other control characters as `\u00` and two
/// lowercase hex digits, everything else as it is.
pub open spec fn spec_json_char(c: char) -> Seq<char> {
    if c == '"' {
        seq!['\\', '"']
    } else if c == '\\' {
        seq!['\\', '\\']
    } else if c == '\u{8}' {
        seq!['\\', 'b']
    } else if c == '\t' {
        seq!['\\', 't']
    } else if c == '\n' {
        seq!['\\', 'n']
    } else if c == '\u{c}' {
        seq!['\\', 'f']
    } else if c == '\r' {
        seq!['\\', 'r']
    } else if (c as u32) < 0x20 {
        seq!['\\', 'u', '0', '0', spec_hex_digit((c as int) / 16), spec_hex_digit((c as int) % 16)]
    } else {
        seq![c]
    }
}

/// The characters of `s`, each as it stands inside a JSON string literal.
pub open spec fn spec_json_chars(s: Seq<char>) -> Seq<char>
    decreases s.len(),
{
    if s.len() == 0 {
        Seq::empty()
    } else {
        spec_json_chars(s.drop_last()) + spec_json_char(s.last())
    }
}

/// What `serde_json::to_string` gives for a string: the string as a JSON
/// string literal, between double quotes.
pub open spec fn spec_json_string(value: Seq<char>) -> Seq<char> {
    seq!['"'] + spec_json_chars(value) + seq!['"']
}

/// Quotes a string as a JSON string literal, which also reads as a TOML
/// basic string of the same text.
///
/// Trusted: calls `serde_json::to_string` on a `&str`; the contract states
/// the escaping that serde_json's string serializer applies. Serializing a
/// string into serde_json's in-memory writer cannot fail, so the error arm
/// is never taken.
#[verifier::external_body]
pub(crate) fn json_string(value: &str) -> (r: String)
    ensures
        r@ == spec_json_string(value@),
{
    match serde_json::to_string(value) {
        Ok(quoted) => quoted,
        Err(_) => String::new(),
    }
}

} // verus!
