//! Framework-facing response and extractor wrappers, route path
//! normalization and the status contract of typed domain errors.

use vstd::prelude::*;
use core::marker::PhantomData;
use crate::text::{chars_of, join, push_char};

verus! {

/// JSON success response with a `200 OK` status.
#[derive(Clone, Copy, Debug, Default, PartialEq, Eq, PartialOrd, Ord, Hash)]
pub struct Json<T>(pub T);

/// JSON success response with a `201 Created` status.
#[derive(Clone, Copy, Debug, Default, PartialEq, Eq, PartialOrd, Ord, Hash)]
pub struct Created<T>(pub T);

/// Empty success response with a `204 No Content` status.
#[derive(Clone, Copy, Debug, Default, PartialEq, Eq, PartialOrd, Ord, Hash)]
pub struct NoContent;

/// Server-sent event stream response.
#[derive(Debug)]
pub struct Sse<T, S> {
    stream: S,
    item: PhantomData<T>,
}

/// Route path extractor for endpoint handlers.
#[derive(Clone, Copy, Debug, Default, PartialEq, Eq, PartialOrd, Ord, Hash)]
pub struct Path<T>(pub T);

/// Query string extractor for endpoint handlers.
#[derive(Clone, Copy, Debug, Default, PartialEq, Eq, PartialOrd, Ord, Hash)]
pub struct Query<T>(pub T);

/// JSON request body extractor for endpoint handlers.
#[derive(Clone, Copy, Debug, Default, PartialEq, Eq, PartialOrd, Ord, Hash)]
pub struct Body<T>(pub T);

/// Wrapper for typed API domain errors.
#[derive(Clone, Copy, Debug, PartialEq, Eq, PartialOrd, Ord, Hash)]
pub struct DomainError<E>(pub E);

impl<T> Json<T> {
    /// The wrapped value.
    pub fn into_inner(self) -> (r: T)
        ensures
            r == self.0,
    {
        self.0
    }
}

impl<T> From<T> for Json<T> {
    /// Wraps `value`.
    fn from(value: T) -> (r: Self) {
        Json(value)
    }
}

impl<T> vstd::std_specs::convert::FromSpecImpl<T> for Json<T> {
    open spec fn obeys_from_spec() -> bool {
        true
    }

    open spec fn from_spec(v: T) -> Self {
        Json(v)
    }
}

impl<T> core::ops::Deref for Json<T> {
    type Target = T;

    /// The wrapped value, borrowed.
    fn deref(&self) -> (r: &T)
        ensures
            *r == self.0,
    {
        &self.0
    }
}

impl<T> Created<T> {
    /// The wrapped value.
    pub fn into_inner(self) -> (r: T)
        ensures
            r == self.0,
    {
        self.0
    }
}

impl<T, S> Sse<T, S> {
    /// Wraps a stream of items.
    pub fn new(stream: S) -> (r: Self)
        ensures
            r.stream() == stream,
    {
        Sse { stream, item: PhantomData }
    }

    /// The wrapped stream.
    pub closed spec fn stream(self) -> S {
        self.stream
    }

    /// The wrapped stream.
    pub fn into_inner(self) -> (r: S)
        ensures
            r == self.stream(),
    {
        self.stream
    }
}

impl<T> Path<T> {
    /// The wrapped value.
    pub fn into_inner(self) -> (r: T)
        ensures
            r == self.0,
    {
        self.0
    }
}

impl<T> Query<T> {
    /// The wrapped value.
    pub fn into_inner(self) -> (r: T)
        ensures
            r == self.0,
    {
        self.0
    }
}

impl<T> Body<T> {
    /// The wrapped value.
    pub fn into_inner(self) -> (r: T)
        ensures
            r == self.0,
    {
        self.0
    }
}

/// Marker for types that may cross the API boundary.
pub trait ApiBound {}

impl ApiBound for bool {}
impl ApiBound for i8 {}
impl ApiBound for u8 {}
impl ApiBound for i16 {}
impl ApiBound for u16 {}
impl ApiBound for i32 {}
impl ApiBound for u32 {}
impl ApiBound for i64 {}
impl ApiBound for u64 {}
impl ApiBound for i128 {}
impl ApiBound for u128 {}
impl ApiBound for usize {}
impl ApiBound for isize {}
impl ApiBound for String {}
impl<T: ApiBound> ApiBound for Option<T> {}
impl<T: ApiBound> ApiBound for Vec<T> {}
impl<T: ApiBound> ApiBound for Box<T> {}
impl<T: ApiBound> ApiBound for std::collections::HashMap<String, T> {}
impl<T: ApiBound> ApiBound for std::collections::BTreeMap<String, T> {}
impl ApiBound for uuid::Uuid {}
impl ApiBound for rust_decimal::Decimal {}
impl ApiBound for serde_json::Value {}

/// HTTP status access for API error enums.
pub trait ApiStatus {
    /// The HTTP status of this error value.
    fn status(&self) -> u16;
}

/// HTTP methods supported by mounted endpoints.
#[derive(Clone, Copy, Debug, PartialEq, Eq, Structural)]
pub enum HttpMethod {
    Delete,
    Get,
    Patch,
    Post,
    Put,
}

/// One path segment with a leading `:` parameter rewritten to `{name}`.
pub open spec fn spec_normalize_segment(seg: Seq<char>) -> Seq<char> {
    if seg.len() > 0 && seg[0] == ':' {
        seq!['{'] + seg.drop_first() + seq!['}']
    } else {
        seg
    }
}

/// Splitting state after the characters of `s`: the emitted text and the
/// current segment.
pub open spec fn spec_route_state(s: Seq<char>) -> (Seq<char>, Seq<char>)
    decreases s.len(),
{
    if s.len() == 0 {
        (Seq::empty(), Seq::empty())
    } else {
        let (done, seg) = spec_route_state(s.drop_last());
        if s.last() == '/' {
            (done + spec_normalize_segment(seg) + seq!['/'], Seq::empty())
        } else {
            (done, seg.push(s.last()))
        }
    }
}

/// A route path with every `:param` segment written as `{param}`.
pub open spec fn spec_normalize_route(s: Seq<char>) -> Seq<char> {
    spec_route_state(s).0 + spec_normalize_segment(spec_route_state(s).1)
}

proof fn lemma_route_state_after_slash(a: Seq<char>, b: Seq<char>)
    ensures
        spec_route_state(a + seq!['/'] + b) == (
            spec_normalize_route(a) + seq!['/'] + spec_route_state(b).0,
            spec_route_state(b).1,
        ),
    decreases b.len(),
{
    if b.len() == 0 {
        assert(a + seq!['/'] + b =~= a.push('/'));
        assert(a.push('/').drop_last() =~= a);
    } else {
        let b2 = b.drop_last();
        lemma_route_state_after_slash(a, b2);
        assert((a + seq!['/'] + b).drop_last() =~= a + seq!['/'] + b2);
        assert((a + seq!['/'] + b).last() == b.last());
        let (d, g) = spec_route_state(b2);
        if b.last() == '/' {
            assert(spec_normalize_route(a) + seq!['/'] + d + spec_normalize_segment(g) + seq!['/']
                =~= spec_normalize_route(a) + seq!['/'] + (d + spec_normalize_segment(g) + seq!['/']));
        }
    }
}

/// Segments are rewritten one by one: normalizing a path joined at a `/`
/// gives the two sides normalized and joined at that `/`.
pub proof fn lemma_normalize_route_segments(a: Seq<char>, b: Seq<char>)
    ensures
        spec_normalize_route(a + seq!['/'] + b) == spec_normalize_route(a) + seq!['/'] + spec_normalize_route(b),
{
    lemma_route_state_after_slash(a, b);
    let (d, g) = spec_route_state(b);
    assert(spec_normalize_route(a) + seq!['/'] + d + spec_normalize_segment(g)
        =~= spec_normalize_route(a) + seq!['/'] + (d + spec_normalize_segment(g)));
}

proof fn lemma_route_state_no_slash(s: Seq<char>)
    requires
        !s.contains('/'),
    ensures
        spec_route_state(s) == (Seq::<char>::empty(), s),
    decreases s.len(),
{
    if s.len() > 0 {
        assert(!s.drop_last().contains('/')) by {
            if s.drop_last().contains('/') {
                let k = choose|k: int| 0 <= k < s.drop_last().len() && s.drop_last()[k] == '/';
                assert(s[k] == '/');
            }
        }
        lemma_route_state_no_slash(s.drop_last());
        assert(s[s.len() - 1] != '/');
        assert(s.drop_last().push(s.last()) =~= s);
    }
}

proof fn lemma_segment_no_slash(seg: Seq<char>)
    requires
        !seg.contains('/'),
    ensures
        !spec_normalize_segment(seg).contains('/'),
        spec_normalize_segment(spec_normalize_segment(seg)) == spec_normalize_segment(seg),
{
    let n = spec_normalize_segment(seg);
    if seg.len() > 0 && seg[0] == ':' {
        assert forall|k: int| 0 <= k < n.len() implies n[k] != '/' by {
            if 0 < k < n.len() - 1 {
                assert(n[k] == seg[k]);
            }
        }
        assert(n[0] == '{');
    }
}

proof fn lemma_last_slash(s: Seq<char>) -> (k: int)
    requires
        s.contains('/'),
    ensures
        0 <= k < s.len(),
        s[k] == '/',
        forall|j: int| k < j < s.len() ==> s[j] != '/',
    decreases s.len(),
{
    if s.last() == '/' {
        s.len() - 1
    } else {
        let d = s.drop_last();
        assert(d.contains('/')) by {
            let j = choose|j: int| 0 <= j < s.len() && s[j] == '/';
            assert(d[j] == '/');
        }
        let k = lemma_last_slash(d);
        assert forall|j: int| k < j < s.len() implies s[j] != '/' by {
            if j < d.len() {
                assert(s[j] == d[j]);
            }
        }
        k
    }
}

/// Normalizing is idempotent: a normalized path has no `:param` segment
/// left to rewrite.
pub proof fn lemma_normalize_route_idempotent(s: Seq<char>)
    ensures
        spec_normalize_route(spec_normalize_route(s)) == spec_normalize_route(s),
    decreases s.len(),
{
    if s.contains('/') {
        let k = lemma_last_slash(s);
        let a = s.take(k);
        let b = s.skip(k + 1);
        assert(s =~= a + seq!['/'] + b);
        assert(!b.contains('/')) by {
            if b.contains('/') {
                let j = choose|j: int| 0 <= j < b.len() && b[j] == '/';
                assert(s[k + 1 + j] == '/');
            }
        }
        lemma_normalize_route_segments(a, b);
        lemma_route_state_no_slash(b);
        lemma_segment_no_slash(b);
        let nb = spec_normalize_segment(b);
        assert(spec_normalize_route(b) =~= nb);
        lemma_normalize_route_idempotent(a);
        lemma_normalize_route_segments(spec_normalize_route(a), nb);
        lemma_route_state_no_slash(nb);
        assert(spec_normalize_route(nb) =~= spec_normalize_segment(nb));
    } else {
        lemma_route_state_no_slash(s);
        lemma_segment_no_slash(s);
        let n = spec_normalize_segment(s);
        assert(spec_normalize_route(s) =~= n);
        lemma_route_state_no_slash(n);
        assert(spec_normalize_route(n) =~= spec_normalize_segment(n));
    }
}

/// The `/`-separated segments of a path, in order; a path without `/` is
/// one segment, and an empty path one empty segment.
pub open spec fn spec_segments(s: Seq<char>) -> Seq<Seq<char>>
    decreases s.len(),
{
    if s.len() == 0 {
        seq![Seq::empty()]
    } else {
        let p = spec_segments(s.drop_last());
        if s.last() == '/' {
            p.push(Seq::empty())
        } else {
            p.update(p.len() - 1, p.last().push(s.last()))
        }
    }
}

proof fn lemma_route_state_segments(s: Seq<char>)
    ensures
        spec_segments(s).len() >= 1,
        spec_route_state(s).1 == spec_segments(s).last(),
        spec_route_state(s).0 == if spec_segments(s).len() == 1 {
            Seq::<char>::empty()
        } else {
            join(spec_segments(s).drop_last().map_values(|g: Seq<char>| spec_normalize_segment(g)), "/"@)
                + seq!['/']
        },
    decreases s.len(), 0int,
{
    let f = |g: Seq<char>| spec_normalize_segment(g);
    if s.len() > 0 {
        let p = s.drop_last();
        lemma_route_state_segments(p);
        let ps = spec_segments(p);
        let (d, g) = spec_route_state(p);
        if s.last() == '/' {
            lemma_segments_join(p);
            assert(spec_segments(s).drop_last() =~= ps);
            assert(d + spec_normalize_segment(g) == join(ps.map_values(f), "/"@));
        } else {
            assert(spec_segments(s).drop_last() =~= ps.drop_last());
        }
    }
}

proof fn lemma_segments_join(s: Seq<char>)
    ensures
        spec_normalize_route(s) == join(spec_segments(s).map_values(|g: Seq<char>| spec_normalize_segment(g)), "/"@),
    decreases s.len(), 1int,
{
    let f = |g: Seq<char>| spec_normalize_segment(g);
    reveal_strlit("/");
    assert("/"@ =~= seq!['/']);
    lemma_route_state_segments(s);
    let segs = spec_segments(s);
    let m = segs.map_values(f);
    if segs.len() == 1 {
        assert(spec_route_state(s).0 =~= Seq::<char>::empty());
        assert(spec_normalize_route(s) =~= m[0]);
    } else {
        assert(m.drop_last() =~= segs.drop_last().map_values(f));
        assert(m.last() == spec_normalize_segment(segs.last()));
        assert(spec_normalize_route(s) =~= join(m.drop_last(), "/"@) + seq!['/'] + m.last());
    }
}

/// Normalizing a route rewrites it segment by segment: the path split at
/// every `/`, each segment that starts with `:` written as `{name}`, the
/// segments joined with `/` again.
pub proof fn lemma_normalize_route_formula(s: Seq<char>)
    ensures
        spec_normalize_route(s) == join(spec_segments(s).map_values(|g: Seq<char>| spec_normalize_segment(g)), "/"@),
{
    lemma_segments_join(s);
}

fn push_segment(out: &mut String, seg: &Vec<char>)
    ensures
        final(out)@ == old(out)@ + spec_normalize_segment(seg@),
{
    let mut start: usize = 0;
    if seg.len() > 0 && seg[0] == ':' {
        push_char(out, '{');
        start = 1;
    }
    let ghost base = out@;
    for i in start..seg.len()
        invariant
            start <= seg@.len(),
            out@ == base + seg@.subrange(start as int, i as int),
    {
        push_char(out, seg[i]);
        assert(out@ =~= base + seg@.subrange(start as int, i + 1));
    }
    if start == 1 {
        push_char(out, '}');
        assert(seg@.drop_first() =~= seg@.subrange(1, seg@.len() as int));
    } else {
        assert(seg@ =~= seg@.subrange(0, seg@.len() as int));
    }
}

/// Rewrites legacy `:param` route segments to `{param}`.
pub fn normalize_route_path(path: &str) -> (r: String)
    ensures
        r@ == spec_normalize_route(path@),
{
    let chars = chars_of(path);
    let mut out = String::new();
    let mut seg: Vec<char> = Vec::new();
    for i in 0..chars.len()
        invariant
            chars@ == path@,
            (out@, seg@) == spec_route_state(path@.take(i as int)),
    {
        assert(path@.take(i + 1).drop_last() =~= path@.take(i as int));
        if chars[i] == '/' {
            push_segment(&mut out, &seg);
            push_char(&mut out, '/');
            seg = Vec::new();
        } else {
            seg.push(chars[i]);
        }
    }
    assert(path@.take(chars@.len() as int) =~= path@);
    push_segment(&mut out, &seg);
    out
}

} // verus!
