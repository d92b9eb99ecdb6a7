//! File URIs and Unix paths as the gateway compares them: percent decoding
//! byte by byte, path components, prefixes and equality by components.

use vstd::prelude::*;
use vstd::string::StringSliceAdditionalSpecFns;
use vstd::utf8::encode_utf8;
use crate::order::str_eq;
use crate::text::{chars_of, push_char, push_str};

verus! {

/// The character a byte stands for on its own (the code point of the same
/// number).
pub fn byte_char(b: u8) -> (c: char)
    ensures
        c == b as char,
{
    b as char
}

/// Whether a byte is an ASCII hexadecimal digit.
pub open spec fn is_hex_byte(b: u8) -> bool {
    (0x30 <= b && b <= 0x39) || (0x41 <= b && b <= 0x46) || (0x61 <= b && b <= 0x66)
}

/// The value of an ASCII hexadecimal digit.
pub open spec fn hex_byte_value(b: u8) -> int {
    if 0x30 <= b && b <= 0x39 {
        b - 0x30
    } else if 0x41 <= b && b <= 0x46 {
        b - 0x41 + 10
    } else {
        b - 0x61 + 10
    }
}

/// Whether two bytes read as a base-16 byte the way `u8::from_str_radix`
/// reads them: two digits, or a plus sign and one digit.
pub open spec fn is_hex_pair(a: u8, b: u8) -> bool {
    is_hex_byte(b) && (is_hex_byte(a) || a == 0x2B)
}

/// The byte two such bytes read as.
pub open spec fn hex_pair_value(a: u8, b: u8) -> int {
    if a == 0x2B {
        hex_byte_value(b)
    } else {
        hex_byte_value(a) * 16 + hex_byte_value(b)
    }
}

/// Percent decoding of a byte string: `%` and two hexadecimal digits
/// (with at least one byte after them, or the end) become the byte they
/// spell; every other byte stands for the character of its own number.
pub open spec fn spec_percent_decode(b: Seq<u8>) -> Seq<char>
    decreases b.len(),
{
    if b.len() == 0 {
        seq![]
    } else if b[0] == 0x25 && 2 < b.len() && is_hex_pair(b[1], b[2]) {
        seq![(hex_pair_value(b[1], b[2]) as u8) as char] + spec_percent_decode(b.skip(3))
    } else {
        seq![b[0] as char] + spec_percent_decode(b.skip(1))
    }
}

/// Whether a byte continues a multi-byte UTF-8 sequence.
pub open spec fn is_continuation_byte(b: u8) -> bool {
    0x80 <= b && b < 0xC0
}

/// Whether percent decoding reads every escape on character boundaries:
/// the two bytes after each `%` never end inside a multi-byte character.
pub open spec fn percent_decode_safe(b: Seq<u8>) -> bool {
    forall|i: int| 0 <= i && i + 3 < b.len() && b[i] == 0x25 ==> !is_continuation_byte(#[trigger] b[i + 3])
}

/// The byte two hexadecimal bytes spell, if they spell one.
pub fn hex_pair(a: u8, b: u8) -> (r: Option<u8>)
    ensures
        r == (if is_hex_pair(a, b) {
            Some(hex_pair_value(a, b) as u8)
        } else {
            None::<u8>
        }),
{
    let low = if 0x30 <= b && b <= 0x39 {
        b - 0x30
    } else if 0x41 <= b && b <= 0x46 {
        b - 0x41 + 10
    } else if 0x61 <= b && b <= 0x66 {
        b - 0x61 + 10
    } else {
        return None;
    };
    if a == 0x2B {
        return Some(low);
    }
    let high = if 0x30 <= a && a <= 0x39 {
        a - 0x30
    } else if 0x41 <= a && a <= 0x46 {
        a - 0x41 + 10
    } else if 0x61 <= a && a <= 0x66 {
        a - 0x61 + 10
    } else {
        return None;
    };
    Some(high * 16 + low)
}

/// Percent-decodes the bytes of `bytes` from `start` on.
pub fn percent_decode_bytes(bytes: &[u8], start: usize) -> (r: String)
    requires
        start <= bytes@.len(),
    ensures
        r@ == spec_percent_decode(bytes@.skip(start as int)),
{
    let mut out = String::new();
    let mut i: usize = start;
    while i < bytes.len()
        invariant
            start <= i <= bytes@.len(),
            out@ + spec_percent_decode(bytes@.skip(i as int)) == spec_percent_decode(bytes@.skip(start as int)),
        decreases bytes@.len() - i,
    {
        let ghost rest = bytes@.skip(i as int);
        if bytes[i] == 0x25 && 2 < bytes.len() - i {
            match hex_pair(bytes[i + 1], bytes[i + 2]) {
                Some(v) => {
                    proof {
                        assert(rest.skip(3) =~= bytes@.skip(i + 3));
                        assert(out@.push(v as char) + spec_percent_decode(rest.skip(3)) =~= out@ + spec_percent_decode(rest));
                    }
                    push_char(&mut out, byte_char(v));
                    i = i + 3;
                    continue;
                },
                None => {},
            }
        }
        proof {
            assert(rest.skip(1) =~= bytes@.skip(i + 1));
            assert(out@.push(bytes@[i as int] as char) + spec_percent_decode(rest.skip(1)) =~= out@ + spec_percent_decode(rest));
        }
        push_char(&mut out, byte_char(bytes[i]));
        i = i + 1;
    }
    proof {
        assert(bytes@.skip(i as int) =~= Seq::<u8>::empty());
    }
    out
}

/// Percent-decodes a string, byte by byte.
pub fn percent_decode(value: &str) -> (r: String)
    requires
        percent_decode_safe(value.spec_bytes()),
    ensures
        r@ == spec_percent_decode(value.spec_bytes()),
{
    let bytes = value.as_bytes();
    proof {
        assert(bytes@.skip(0) =~= bytes@);
    }
    percent_decode_bytes(bytes, 0)
}

/// The bytes of `file://`.
pub open spec fn file_scheme() -> Seq<u8> {
    seq![0x66u8, 0x69u8, 0x6cu8, 0x65u8, 0x3au8, 0x2fu8, 0x2fu8]
}

/// Whether a byte string starts with `file://`.
pub open spec fn has_file_scheme(b: Seq<u8>) -> bool {
    b.len() >= 7 && b.take(7) == file_scheme()
}

/// Whether decoding the path of a `file://` URI reads every escape on
/// character boundaries (other URIs are not decoded).
pub open spec fn file_uri_decodable(b: Seq<u8>) -> bool {
    has_file_scheme(b) ==> percent_decode_safe(b.skip(7))
}

/// The path of a `file://` URI: its percent-decoded remainder.
pub open spec fn spec_file_uri_path(b: Seq<u8>) -> Option<Seq<char>> {
    if has_file_scheme(b) {
        Some(spec_percent_decode(b.skip(7)))
    } else {
        None
    }
}

/// The path a `file://` URI names, or `None` for another URI.
pub fn file_uri_to_path(uri: &str) -> (r: Option<String>)
    requires
        file_uri_decodable(uri.spec_bytes()),
    ensures
        opt_chars(r) == spec_file_uri_path(uri.spec_bytes()),
{
    let bytes = uri.as_bytes();
    if bytes.len() >= 7 && bytes[0] == 0x66 && bytes[1] == 0x69 && bytes[2] == 0x6c && bytes[3] == 0x65
        && bytes[4] == 0x3a && bytes[5] == 0x2f && bytes[6] == 0x2f {
        proof {
            assert(bytes@.take(7) =~= file_scheme());
        }
        Some(percent_decode_bytes(bytes, 7))
    } else {
        proof {
            if bytes@.len() >= 7 && bytes@.take(7) == file_scheme() {
                assert(bytes@[0] == bytes@.take(7)[0]);
                assert(bytes@[1] == bytes@.take(7)[1]);
                assert(bytes@[2] == bytes@.take(7)[2]);
                assert(bytes@[3] == bytes@.take(7)[3]);
                assert(bytes@[4] == bytes@.take(7)[4]);
                assert(bytes@[5] == bytes@.take(7)[5]);
                assert(bytes@[6] == bytes@.take(7)[6]);
            }
        }
        None
    }
}

/// The view of an optional string.
pub open spec fn opt_chars(o: Option<String>) -> Option<Seq<char>> {
    match o {
        Some(s) => Some(s@),
        None => None,
    }
}

/// The `file://` URI of a path.
pub open spec fn spec_file_uri(path: Seq<char>) -> Seq<char> {
    "file://"@ + path
}

/// The `file://` URI of a path.
pub fn path_to_file_uri(path: &str) -> (r: String)
    ensures
        r@ == spec_file_uri(path@),
{
    let mut out = String::new();
    push_str(&mut out, "file://");
    push_str(&mut out, path);
    out
}

/// Closes the piece read so far: empty and `.` pieces are dropped.
pub open spec fn close_piece(done: Seq<Seq<char>>, cur: Seq<char>) -> Seq<Seq<char>> {
    if cur.len() == 0 || cur == seq!['.'] {
        done
    } else {
        done.push(cur)
    }
}

/// The closed pieces of a path and the piece being read, after reading it
/// up to its end.
pub open spec fn piece_state(s: Seq<char>) -> (Seq<Seq<char>>, Seq<char>)
    decreases s.len(),
{
    if s.len() == 0 {
        (seq![], seq![])
    } else {
        let (done, cur) = piece_state(s.drop_last());
        if s.last() == '/' {
            (close_piece(done, cur), seq![])
        } else {
            (done, cur.push(s.last()))
        }
    }
}

/// Whether a Unix path is absolute.
pub open spec fn has_root(s: Seq<char>) -> bool {
    s.len() > 0 && s[0] == '/'
}

/// Whether a relative path starts with the current directory `.`.
pub open spec fn has_cur_dir(s: Seq<char>) -> bool {
    !has_root(s) && s.len() > 0 && s[0] == '.' && (s.len() == 1 || s[1] == '/')
}

/// The components of a Unix path, as `Path::components` yields them: the
/// root as `/`, a leading current directory as `.`, then each non-empty
/// piece between separators other than `.`.
pub open spec fn spec_components(s: Seq<char>) -> Seq<Seq<char>> {
    let lead: Seq<Seq<char>> = if has_root(s) {
        seq![seq!['/']]
    } else if has_cur_dir(s) {
        seq![seq!['.']]
    } else {
        seq![]
    };
    lead + close_piece(piece_state(s).0, piece_state(s).1)
}

/// Whether two paths are equal, component by component.
pub open spec fn spec_same_path(a: Seq<char>, b: Seq<char>) -> bool {
    spec_components(a) == spec_components(b)
}

/// Whether a path starts with a base path, component by component.
pub open spec fn spec_path_starts_with(path: Seq<char>, base: Seq<char>) -> bool {
    let p = spec_components(path);
    let b = spec_components(base);
    b.len() <= p.len() && p.take(b.len() as int) == b
}

/// The components of a Unix path.
pub fn components(path: &str) -> (r: Vec<String>)
    ensures
        r@.map_values(|c: String| c@) == spec_components(path@),
{
    let chars = chars_of(path);
    let n = chars.len();
    let mut out: Vec<String> = Vec::new();
    if n > 0 && chars[0] == '/' {
        let mut root = String::new();
        push_char(&mut root, '/');
        out.push(root);
    } else if n > 0 && chars[0] == '.' && (n == 1 || chars[1] == '/') {
        let mut dot = String::new();
        push_char(&mut dot, '.');
        out.push(dot);
    }
    let ghost lead = out@.map_values(|c: String| c@);
    proof {
        assert(lead =~= (if has_root(path@) {
            seq![seq!['/']]
        } else if has_cur_dir(path@) {
            seq![seq!['.']]
        } else {
            Seq::<Seq<char>>::empty()
        }));
        assert(path@.take(0) =~= Seq::<char>::empty());
        assert(out@.map_values(|c: String| c@) =~= lead + piece_state(path@.take(0)).0);
    }
    let mut cur = String::new();
    let mut cur_len: usize = 0;
    let mut cur_dot = false;
    let mut i: usize = 0;
    while i < n
        invariant
            n == chars@.len(),
            chars@ == path@,
            i <= n,
            lead == (if has_root(path@) {
                seq![seq!['/']]
            } else if has_cur_dir(path@) {
                seq![seq!['.']]
            } else {
                Seq::<Seq<char>>::empty()
            }),
            out@.map_values(|c: String| c@) == lead + piece_state(path@.take(i as int)).0,
            cur@ == piece_state(path@.take(i as int)).1,
            cur_len == cur@.len(),
            cur_len <= i,
            cur_dot == (cur@ == seq!['.']),
        decreases n - i,
    {
        let c = chars[i];
        let ghost done = piece_state(path@.take(i as int)).0;
        let ghost prev = piece_state(path@.take(i as int)).1;
        proof {
            assert(path@.take(i + 1).drop_last() =~= path@.take(i as int));
            assert(path@.take(i + 1).last() == c);
            assert(piece_state(path@.take(i + 1)) == (if c == '/' {
                (close_piece(done, prev), Seq::<char>::empty())
            } else {
                (done, prev.push(c))
            }));
        }
        if c == '/' {
            if !(cur_len == 0 || cur_dot) {
                let ghost before = out@;
                let ghost piece = cur@;
                out.push(cur);
                proof {
                    assert(out@.map_values(|c: String| c@) =~= before.map_values(|c: String| c@).push(piece));
                    assert(out@.map_values(|c: String| c@) =~= lead + piece_state(path@.take(i + 1)).0);
                }
            } else {
                proof {
                    assert(cur@.len() == 0 || cur@ == seq!['.']);
                }
            }
            cur = String::new();
            cur_len = 0;
            cur_dot = false;
        } else {
            let was_empty = cur_len == 0;
            push_char(&mut cur, c);
            cur_len = cur_len + 1;
            cur_dot = was_empty && c == '.';
            proof {
                if cur@ == seq!['.'] {
                    assert(cur@[0] == '.');
                    assert(cur@.len() == 1);
                }
                if was_empty && c == '.' {
                    assert(cur@ =~= seq!['.']);
                }
            }
        }
        i = i + 1;
    }
    proof {
        assert(path@.take(n as int) =~= path@);
    }
    let ghost before = out@;
    let ghost piece = cur@;
    if !(cur_len == 0 || cur_dot) {
        out.push(cur);
        proof {
            assert(out@.map_values(|c: String| c@) =~= before.map_values(|c: String| c@).push(piece));
        }
    }
    proof {
        assert(out@.map_values(|c: String| c@) =~= spec_components(path@));
    }
    out
}

/// Whether `base`'s pieces start `pieces`.
pub fn pieces_start_with(pieces: &Vec<String>, base: &Vec<String>) -> (r: bool)
    ensures
        r == (base@.len() <= pieces@.len() && pieces@.map_values(|c: String| c@).take(base@.len() as int)
            == base@.map_values(|c: String| c@)),
{
    if base.len() > pieces.len() {
        return false;
    }
    let mut i: usize = 0;
    while i < base.len()
        invariant
            base@.len() <= pieces@.len(),
            i <= base@.len(),
            forall|j: int| 0 <= j < i ==> #[trigger] pieces@[j]@ == base@[j]@,
        decreases base@.len() - i,
    {
        if !str_eq(pieces[i].as_str(), base[i].as_str()) {
            proof {
                assert(pieces@.map_values(|c: String| c@).take(base@.len() as int)[i as int] != base@.map_values(|c: String| c@)[i as int]);
            }
            return false;
        }
        i = i + 1;
    }
    proof {
        assert(pieces@.map_values(|c: String| c@).take(base@.len() as int) =~= base@.map_values(|c: String| c@));
    }
    true
}

/// Whether a path starts with a base path, component by component.
pub fn path_starts_with(path: &str, base: &str) -> (r: bool)
    ensures
        r == spec_path_starts_with(path@, base@),
{
    let p = components(path);
    let b = components(base);
    pieces_start_with(&p, &b)
}

/// Whether two paths are equal, component by component.
pub fn same_path(a: &str, b: &str) -> (r: bool)
    ensures
        r == spec_same_path(a@, b@),
{
    let pa = components(a);
    let pb = components(b);
    let r = pa.len() == pb.len() && pieces_start_with(&pa, &pb);
    proof {
        assert(pa@.map_values(|c: String| c@).len() == pa@.len());
        assert(pb@.map_values(|c: String| c@).len() == pb@.len());
        if pa@.len() == pb@.len() {
            assert(pa@.map_values(|c: String| c@).take(pb@.len() as int) =~= pa@.map_values(|c: String| c@));
        }
    }
    r
}

/// The path a URI names when it is a `file://` URI.
pub open spec fn uri_path(uri: Seq<char>) -> Option<Seq<char>> {
    spec_file_uri_path(encode_utf8(uri))
}

/// Whether a URI's path can be decoded (see [`file_uri_decodable`]).
pub open spec fn uri_decodable(uri: Seq<char>) -> bool {
    file_uri_decodable(encode_utf8(uri))
}

/// Two URIs name the same document: the same path when both are `file://`
/// URIs, else the same text.
pub open spec fn spec_same_uri(left: Seq<char>, right: Seq<char>) -> bool {
    match (uri_path(left), uri_path(right)) {
        (Some(l), Some(r)) => spec_same_path(l, r),
        _ => left == right,
    }
}

/// Whether two URIs name the same document.
pub fn same_uri(left: &str, right: &str) -> (r: bool)
    requires
        uri_decodable(left@),
        uri_decodable(right@),
    ensures
        r == spec_same_uri(left@, right@),
{
    match (file_uri_to_path(left), file_uri_to_path(right)) {
        (Some(l), Some(r)) => same_path(l.as_str(), r.as_str()),
        _ => str_eq(left, right),
    }
}

/// Whether a URI is a `file://` URI whose path ends with `suffix`.
pub open spec fn file_uri_ends_with(uri: Seq<char>, suffix: Seq<char>) -> bool {
    uri.len() >= 7 && uri.take(7) == "file://"@ && uri.skip(7).len() >= suffix.len()
        && uri.skip(7).skip(uri.skip(7).len() - suffix.len()) == suffix
}

/// The extensions of TypeScript and JavaScript sources.
pub open spec fn typescript_extensions() -> Seq<Seq<char>> {
    seq![".ts"@, ".tsx"@, ".mts"@, ".cts"@, ".js"@, ".jsx"@, ".mjs"@, ".cjs"@]
}

/// Whether a URI names a TypeScript or JavaScript source file.
pub open spec fn spec_is_typescript_uri(uri: Seq<char>) -> bool {
    exists|k: int| 0 <= k < typescript_extensions().len() && file_uri_ends_with(uri, #[trigger] typescript_extensions()[k])
}

/// Whether `chars` is a `file://` URI ending with `suffix`.
fn ends_with_in_file_uri(chars: &Vec<char>, suffix: &str) -> (r: bool)
    ensures
        r == file_uri_ends_with(chars@, suffix@),
{
    proof {
        reveal_strlit("file://");
    }
    let n = chars.len();
    if n < 7 || chars[0] != 'f' || chars[1] != 'i' || chars[2] != 'l' || chars[3] != 'e' || chars[4] != ':'
        || chars[5] != '/' || chars[6] != '/' {
        proof {
            if n >= 7 && chars@.take(7) == "file://"@ {
                assert(chars@.take(7)[0] == 'f');
                assert(chars@.take(7)[1] == 'i');
                assert(chars@.take(7)[2] == 'l');
                assert(chars@.take(7)[3] == 'e');
                assert(chars@.take(7)[4] == ':');
                assert(chars@.take(7)[5] == '/');
                assert(chars@.take(7)[6] == '/');
            }
        }
        return false;
    }
    proof {
        assert(chars@.take(7) =~= "file://"@);
    }
    let s = chars_of(suffix);
    let m = s.len();
    if n - 7 < m {
        return false;
    }
    let mut j: usize = 0;
    while j < m
        invariant
            n == chars@.len(),
            m == s@.len(),
            s@ == suffix@,
            n >= 7,
            n - 7 >= m,
            j <= m,
            forall|k: int| 0 <= k < j ==> chars@[n - m + k] == s@[k],
        decreases m - j,
    {
        if chars[n - m + j] != s[j] {
            proof {
                assert(chars@.skip(7).skip(chars@.skip(7).len() - suffix@.len())[j as int] == chars@[n - m + j]);
            }
            return false;
        }
        j = j + 1;
    }
    proof {
        assert(chars@.skip(7).skip(chars@.skip(7).len() - suffix@.len()) =~= suffix@);
    }
    true
}

/// Whether a URI names a TypeScript or JavaScript source file.
pub fn is_typescript_uri(uri: &str) -> (r: bool)
    ensures
        r == spec_is_typescript_uri(uri@),
{
    proof {
        reveal_strlit(".ts");
        reveal_strlit(".tsx");
        reveal_strlit(".mts");
        reveal_strlit(".cts");
        reveal_strlit(".js");
        reveal_strlit(".jsx");
        reveal_strlit(".mjs");
        reveal_strlit(".cjs");
    }
    let chars = chars_of(uri);
    let exts = typescript_extension_list();
    let mut k: usize = 0;
    while k < exts.len()
        invariant
            chars@ == uri@,
            exts@.map_values(|e: &str| e@) == typescript_extensions(),
            k <= exts@.len(),
            forall|j: int| 0 <= j < k ==> !file_uri_ends_with(uri@, #[trigger] typescript_extensions()[j]),
        decreases exts@.len() - k,
    {
        if ends_with_in_file_uri(&chars, exts[k]) {
            proof {
                assert(exts@.map_values(|e: &str| e@)[k as int] == exts@[k as int]@);
            }
            return true;
        }
        proof {
            assert(exts@.map_values(|e: &str| e@)[k as int] == exts@[k as int]@);
        }
        k = k + 1;
    }
    false
}

/// The extensions of TypeScript and JavaScript sources.
fn typescript_extension_list() -> (r: Vec<&'static str>)
    ensures
        r@.map_values(|e: &str| e@) == typescript_extensions(),
{
    let r = vec![".ts", ".tsx", ".mts", ".cts", ".js", ".jsx", ".mjs", ".cjs"];
    proof {
        assert(r@.map_values(|e: &str| e@) =~= typescript_extensions());
    }
    r
}

/// Whether a URI names a Rust source file.
pub open spec fn spec_is_rust_uri(uri: Seq<char>) -> bool {
    file_uri_ends_with(uri, ".rs"@)
}

/// Whether a URI names a Rust source file.
pub fn is_rust_uri(uri: &str) -> (r: bool)
    ensures
        r == spec_is_rust_uri(uri@),
{
    let chars = chars_of(uri);
    ends_with_in_file_uri(&chars, ".rs")
}

/// Naming the same document is an equivalence on URIs.
pub proof fn lemma_same_uri_equivalence(a: Seq<char>, b: Seq<char>, c: Seq<char>)
    ensures
        spec_same_uri(a, a),
        spec_same_uri(a, b) == spec_same_uri(b, a),
        spec_same_uri(a, b) && spec_same_uri(b, c) ==> spec_same_uri(a, c),
{
}

/// Text without `%` decodes to the characters of its bytes.
pub proof fn lemma_decode_without_escapes(b: Seq<u8>)
    requires
        forall|i: int| 0 <= i < b.len() ==> b[i] != 0x25,
    ensures
        spec_percent_decode(b) == b.map_values(|x: u8| x as char),
    decreases b.len(),
{
    if b.len() > 0 {
        assert forall|i: int| 0 <= i < b.skip(1).len() implies b.skip(1)[i] != 0x25 by {
            assert(b.skip(1)[i] == b[i + 1]);
        }
        lemma_decode_without_escapes(b.skip(1));
        assert(seq![b[0] as char] + b.skip(1).map_values(|x: u8| x as char) =~= b.map_values(|x: u8| x as char));
    }
}

/// Every path starts with itself, component by component.
pub proof fn lemma_path_starts_with_itself(p: Seq<char>)
    ensures
        spec_path_starts_with(p, p),
{
    assert(spec_components(p).take(spec_components(p).len() as int) =~= spec_components(p));
}

} // verus!
