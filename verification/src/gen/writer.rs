//! A text writer that records the UTF-16 ranges of marked symbol names.

use vstd::prelude::*;
use crate::gen::text::{spec_trim_blank_lines, trim_trailing_blank_lines};
use crate::ir::SymbolId;
use crate::text::{chars_of, push_str};

verus! {

/// Zero-based UTF-16 position in a generated TypeScript file.
#[derive(Clone, Copy, Debug, PartialEq, Eq, Structural)]
pub struct GeneratedPosition {
    pub line: u32,
    pub character: u32,
}

/// Zero-based UTF-16 range in a generated TypeScript file.
#[derive(Clone, Copy, Debug, PartialEq, Eq, Structural)]
pub struct GeneratedRange {
    pub start: GeneratedPosition,
    pub end: GeneratedPosition,
}

/// A generated file path relative to the package directory.
#[derive(Debug, PartialEq, Eq)]
pub struct GeneratedFile {
    pub path: String,
    pub contents: String,
}

/// A generated TypeScript range associated with a Rust API symbol.
#[derive(Debug, PartialEq, Eq)]
pub struct GeneratedMark {
    pub path: String,
    pub symbol_id: String,
    pub kind: String,
    pub range: GeneratedRange,
}

/// Model of a [`GeneratedMark`].
pub struct MarkModel {
    pub path: Seq<char>,
    pub symbol_id: Seq<char>,
    pub kind: Seq<char>,
    pub range: GeneratedRange,
}

impl View for GeneratedMark {
    type V = MarkModel;

    open spec fn view(&self) -> MarkModel {
        MarkModel {
            path: self.path@,
            symbol_id: self.symbol_id@,
            kind: self.kind@,
            range: self.range,
        }
    }
}

impl Clone for GeneratedMark {
    fn clone(&self) -> (r: Self)
        ensures
            r@ == self@,
    {
        GeneratedMark {
            path: self.path.clone(),
            symbol_id: self.symbol_id.clone(),
            kind: self.kind.clone(),
            range: self.range,
        }
    }
}

/// The models of a list of marks.
pub open spec fn marks_view(v: Seq<GeneratedMark>) -> Seq<MarkModel> {
    v.map_values(|m: GeneratedMark| m@)
}

/// Number of UTF-16 code units that encode `c`.
pub open spec fn utf16_len(c: char) -> u32 {
    if (c as u32) >= 0x10000 {
        2
    } else {
        1
    }
}

/// The position after one more character (saturating at `u32::MAX`).
pub open spec fn spec_step(p: GeneratedPosition, c: char) -> GeneratedPosition {
    if c == '\n' {
        GeneratedPosition {
            line: if p.line == u32::MAX { u32::MAX } else { (p.line + 1) as u32 },
            character: 0,
        }
    } else {
        GeneratedPosition {
            line: p.line,
            character: if p.character + utf16_len(c) > u32::MAX {
                u32::MAX
            } else {
                (p.character + utf16_len(c)) as u32
            },
        }
    }
}

/// The position reached from `p` after the characters of `s`.
pub open spec fn spec_advance(p: GeneratedPosition, s: Seq<char>) -> GeneratedPosition
    decreases s.len(),
{
    if s.len() == 0 {
        p
    } else {
        spec_step(spec_advance(p, s.drop_last()), s.last())
    }
}

/// The start of a file.
pub open spec fn origin() -> GeneratedPosition {
    GeneratedPosition { line: 0, character: 0 }
}

/// The position at the end of `s`.
pub open spec fn spec_position(s: Seq<char>) -> GeneratedPosition {
    spec_advance(origin(), s)
}

pub proof fn lemma_advance_concat(p: GeneratedPosition, a: Seq<char>, b: Seq<char>)
    ensures
        spec_advance(p, a + b) == spec_advance(spec_advance(p, a), b),
    decreases b.len(),
{
    if b.len() == 0 {
        assert(a + b =~= a);
    } else {
        assert((a + b).drop_last() =~= a + b.drop_last());
        lemma_advance_concat(p, a, b.drop_last());
    }
}

/// A mark a renderer makes: the symbol, the kind of mark and the marked
/// name.
pub struct MarkSpec {
    pub symbol_id: Seq<char>,
    pub kind: Seq<char>,
    pub name: Seq<char>,
}

/// The mark of `name` for `symbol_id` and `kind`.
pub open spec fn mark_spec(symbol_id: Seq<char>, kind: Seq<char>, name: Seq<char>) -> MarkSpec {
    MarkSpec { symbol_id, kind, name }
}

/// Whether `m` is the mark `sp` in the file `path` whose text is
/// `contents`, over the occurrence of the marked name that starts at offset
/// `k`: its symbol and kind, and the range of that occurrence.
pub open spec fn mark_at(m: MarkModel, path: Seq<char>, contents: Seq<char>, k: int, sp: MarkSpec) -> bool {
    &&& m.path == path
    &&& m.symbol_id == sp.symbol_id
    &&& m.kind == sp.kind
    &&& 0 <= k
    &&& k + sp.name.len() <= contents.len()
    &&& contents.subrange(k, k + sp.name.len()) == sp.name
    &&& m.range.start == spec_position(contents.take(k))
    &&& m.range.end == spec_position(contents.take(k + sp.name.len()))
}

/// Whether the offsets `offs` of the marks `specs` lie at or after `from`,
/// in order, each marked name ending before the next one starts.
pub open spec fn in_order(offs: Seq<int>, specs: Seq<MarkSpec>, from: int) -> bool {
    &&& offs.len() == specs.len()
    &&& forall|i: int| 0 <= i < offs.len() ==> from <= #[trigger] offs[i]
    &&& forall|i: int, j: int|
        0 <= i < j < offs.len() ==> #[trigger] offs[i] + specs[i].name.len() <= #[trigger] offs[j]
}

/// A mark stays where it is when text is appended to the file.
pub proof fn lemma_at_extend(m: MarkModel, path: Seq<char>, c1: Seq<char>, c2: Seq<char>, k: int, sp: MarkSpec)
    requires
        mark_at(m, path, c1, k, sp),
        c1.len() <= c2.len(),
        c2.take(c1.len() as int) == c1,
    ensures
        mark_at(m, path, c2, k, sp),
{
    assert forall|j: int| 0 <= j < c1.len() implies c2[j] == c1[j] by {
        assert(c2.take(c1.len() as int)[j] == c2[j]);
    }
    assert(c2.subrange(k, k + sp.name.len()) =~= c1.subrange(k, k + sp.name.len()));
    assert(c2.take(k) =~= c1.take(k));
    assert(c2.take(k + sp.name.len()) =~= c1.take(k + sp.name.len()));
}

/// Whether `name` ends in a character other than a newline, so that
/// dropping trailing blank lines cannot reach it.
pub open spec fn ends_in_text(name: Seq<char>) -> bool {
    name.len() > 0 && name.last() != '\n'
}

proof fn lemma_trim_take(c: Seq<char>) -> (j: int)
    ensures
        0 <= j <= c.len(),
        spec_trim_blank_lines(c) == c.take(j),
        forall|i: int| j <= i < c.len() ==> c[i] == '\n',
    decreases c.len(),
{
    if c.len() >= 2 && c[c.len() - 1] == '\n' && c[c.len() - 2] == '\n' {
        let j = lemma_trim_take(c.drop_last());
        assert(c.drop_last().take(j) =~= c.take(j));
        assert forall|i: int| j <= i < c.len() implies c[i] == '\n' by {
            if i < c.len() - 1 {
                assert(c.drop_last()[i] == c[i]);
            }
        }
        j
    } else {
        assert(c.take(c.len() as int) =~= c);
        c.len() as int
    }
}

/// A mark whose name ends in text stays where it is once trailing blank
/// lines are dropped.
pub proof fn lemma_at_trim(m: MarkModel, path: Seq<char>, c: Seq<char>, k: int, sp: MarkSpec)
    requires
        mark_at(m, path, c, k, sp),
        ends_in_text(sp.name),
    ensures
        mark_at(m, path, spec_trim_blank_lines(c), k, sp),
{
    let j = lemma_trim_take(c);
    let n = sp.name.len();
    assert(c[k + n - 1] == c.subrange(k, k + n)[n - 1]);
    assert(k + n <= j);
    let t = c.take(j);
    assert(t.subrange(k, k + n) =~= c.subrange(k, k + n));
    assert(t.take(k) =~= c.take(k));
    assert(t.take(k + n) =~= c.take(k + n));
}

/// Whether the marks `ms` are the marks `specs`, in order, in the file
/// `path` whose text is `contents`: their symbols and kinds, and, for the
/// names that end in text, the ranges of occurrences of the names that come
/// in the order of the marks, each ending before the next one starts.
pub open spec fn file_marks(ms: Seq<MarkModel>, path: Seq<char>, contents: Seq<char>, specs: Seq<MarkSpec>) -> bool {
    &&& ms.len() == specs.len()
    &&& forall|i: int|
        0 <= i < ms.len() ==> #[trigger] ms[i].path == path && ms[i].symbol_id == specs[i].symbol_id
            && ms[i].kind == specs[i].kind
    &&& exists|offs: Seq<int>|
        #[trigger] in_order(offs, specs, 0) && forall|i: int|
            0 <= i < ms.len() && ends_in_text(specs[i].name) ==> mark_at(
                #[trigger] ms[i],
                path,
                contents,
                offs[i],
                specs[i],
            )
}

fn step(p: GeneratedPosition, c: char) -> (r: GeneratedPosition)
    ensures
        r == spec_step(p, c),
{
    if c == '\n' {
        GeneratedPosition { line: p.line.saturating_add(1), character: 0 }
    } else {
        let width: u32 = if (c as u32) >= 0x10000 { 2 } else { 1 };
        GeneratedPosition { line: p.line, character: p.character.saturating_add(width) }
    }
}

/// A file under construction, with the symbol ranges marked so far.
pub struct TrackedWriter {
    pub path: String,
    pub contents: String,
    pub marks: Vec<GeneratedMark>,
    pub position: GeneratedPosition,
}

/// A finished file and its marks.
pub struct TrackedFile {
    pub file: GeneratedFile,
    pub marks: Vec<GeneratedMark>,
}

impl TrackedWriter {
    /// The writer's position is the end of its contents.
    pub open spec fn wf(&self) -> bool {
        self.position == spec_position(self.contents@)
    }

    /// The writer differs from `old` only by appended text (no new marks).
    pub open spec fn appended(&self, old: &TrackedWriter, text: Seq<char>) -> bool {
        &&& self.wf()
        &&& self.path@ == old.path@
        &&& self.contents@ == old.contents@ + text
        &&& marks_view(self.marks@) == marks_view(old.marks@)
    }

    /// The writer differs from `old` by appended text and appended marks.
    pub open spec fn extended(&self, old: &TrackedWriter, text: Seq<char>) -> bool {
        &&& self.wf()
        &&& self.path@ == old.path@
        &&& self.contents@ == old.contents@ + text
        &&& marks_view(self.marks@).len() >= marks_view(old.marks@).len()
        &&& marks_view(self.marks@).take(old.marks@.len() as int) == marks_view(old.marks@)
    }

    /// The writer differs from `old` by appended text; its marks may have grown.
    pub open spec fn grew(&self, old: &TrackedWriter, text: Seq<char>) -> bool {
        &&& self.wf()
        &&& self.path@ == old.path@
        &&& self.contents@ == old.contents@ + text
    }

    /// The writer holds `base`'s text and marks, then more text and the
    /// marks `specs`, in order, each over an occurrence of its name after
    /// `base`'s text and after the name of the mark before it.
    pub closed spec fn marked(&self, base: TrackedWriter, specs: Seq<MarkSpec>) -> bool {
        &&& self.wf()
        &&& self.path@ == base.path@
        &&& base.contents@.len() <= self.contents@.len()
        &&& self.contents@.take(base.contents@.len() as int) == base.contents@
        &&& self.marks@.len() == base.marks@.len() + specs.len()
        &&& forall|i: int| 0 <= i < base.marks@.len() ==> #[trigger] self.marks@[i]@ == base.marks@[i]@
        &&& exists|offs: Seq<int>|
            #[trigger] in_order(offs, specs, base.contents@.len() as int) && forall|i: int|
                0 <= i < specs.len() ==> mark_at(
                    self.marks@[base.marks@.len() + i]@,
                    self.path@,
                    self.contents@,
                    offs[i],
                    #[trigger] specs[i],
                )
    }

    /// An empty writer for the file at `path`.
    pub fn new(path: &str) -> (r: TrackedWriter)
        ensures
            r.wf(),
            r.path@ == path@,
            r.contents@ == Seq::<char>::empty(),
            r.marks@.len() == 0,
    {
        TrackedWriter {
            path: path.to_owned(),
            contents: String::new(),
            marks: Vec::new(),
            position: GeneratedPosition { line: 0, character: 0 },
        }
    }

    /// Appends unmarked text.
    pub fn push(&mut self, text: &str)
        requires
            old(self).wf(),
        ensures
            final(self).appended(old(self), text@),
    {
        let ghost before = self.contents@;
        push_str(&mut self.contents, text);
        let chars = chars_of(text);
        let mut p = self.position;
        for i in 0..chars.len()
            invariant
                chars@ == text@,
                p == spec_advance(spec_position(before), text@.take(i as int)),
        {
            assert(text@.take(i + 1).drop_last() =~= text@.take(i as int));
            p = step(p, chars[i]);
        }
        assert(text@.take(chars@.len() as int) =~= text@);
        proof {
            lemma_advance_concat(origin(), before, text@);
        }
        self.position = p;
    }

    /// Appends `text` and records its range for `symbol_id` and `kind`.
    pub fn mark_synthetic(&mut self, symbol_id: String, kind: &str, text: &str)
        requires
            old(self).wf(),
        ensures
            final(self).wf(),
            final(self).path@ == old(self).path@,
            final(self).contents@ == old(self).contents@ + text@,
            marks_view(final(self).marks@) == marks_view(old(self).marks@).push(
                MarkModel {
                    path: old(self).path@,
                    symbol_id: symbol_id@,
                    kind: kind@,
                    range: GeneratedRange {
                        start: spec_position(old(self).contents@),
                        end: spec_position(old(self).contents@ + text@),
                    },
                },
            ),
            final(self).marked(*old(self), seq![mark_spec(symbol_id@, kind@, text@)]),
    {
        let ghost sid = symbol_id@;
        let start = self.position;
        self.push(text);
        let end = self.position;
        let mark = GeneratedMark {
            path: self.path.clone(),
            symbol_id,
            kind: kind.to_owned(),
            range: GeneratedRange { start, end },
        };
        self.marks.push(mark);
        assert(marks_view(self.marks@) =~= marks_view(old(self).marks@).push(mark@));
        proof {
            let o = old(self).contents@;
            let c = self.contents@;
            let sp = mark_spec(sid, kind@, text@);
            assert(c.take(o.len() as int) =~= o);
            assert(self.marks@.len() == marks_view(self.marks@).len());
            assert(c.subrange(o.len() as int, o.len() as int + text@.len()) =~= text@);
            assert(c.take((o.len() + text@.len()) as int) =~= c);
            assert(self.marks@[old(self).marks@.len() as int]@ == marks_view(self.marks@)[old(self).marks@.len() as int]);
            let mm = self.marks@[(old(self).marks@.len() + 0) as int]@;
            assert(mm == mark@);
            assert(mm.path == self.path@);
            assert(mm.symbol_id == sp.symbol_id);
            assert(mm.kind == sp.kind);
            assert(mm.range.start == spec_position(c.take(o.len() as int)));
            assert(mm.range.end == spec_position(c.take(o.len() as int + text@.len())));
            let k = o.len() as int;
            assert(sp.name == text@);
            assert(c.subrange(k, k + sp.name.len()) == sp.name);
            assert(mm.range.end == spec_position(c.take(k + sp.name.len())));
            assert(mark_at(mm, self.path@, c, k, sp));
            let offs = seq![k];
            assert(in_order(offs, seq![sp], o.len() as int));
            assert(seq![sp][0] == sp);
            assert(self.marks@[(old(self).marks@.len() + 0) as int]@ == mm);
            assert forall|i: int| 0 <= i < old(self).marks@.len() implies #[trigger] self.marks@[i]@ == old(self).marks@[i]@ by {
                assert(marks_view(self.marks@)[i] == marks_view(old(self).marks@)[i]);
            }
        }
    }

    /// Appends `text` and records its range for the symbol `symbol_id`.
    pub fn mark(&mut self, symbol_id: &SymbolId, kind: &str, text: &str)
        requires
            old(self).wf(),
        ensures
            final(self).wf(),
            final(self).path@ == old(self).path@,
            final(self).contents@ == old(self).contents@ + text@,
            marks_view(final(self).marks@) == marks_view(old(self).marks@).push(
                MarkModel {
                    path: old(self).path@,
                    symbol_id: symbol_id@,
                    kind: kind@,
                    range: GeneratedRange {
                        start: spec_position(old(self).contents@),
                        end: spec_position(old(self).contents@ + text@),
                    },
                },
            ),
            final(self).marked(*old(self), seq![mark_spec(symbol_id@, kind@, text@)]),
    {
        let id = symbol_id.as_str().to_owned();
        self.mark_synthetic(id, kind, text);
    }

    /// Appends `text`, marked for `symbol_id` and `kind`; states only how the
    /// text grows.
    pub fn push_marked(&mut self, symbol_id: &SymbolId, kind: &str, text: &str)
        requires
            old(self).wf(),
        ensures
            final(self).grew(old(self), text@),
            final(self).marked(*old(self), seq![mark_spec(symbol_id@, kind@, text@)]),
    {
        self.mark(symbol_id, kind, text);
    }

    /// Appends `text`, marked for the synthetic id `symbol_id`; states only
    /// how the text grows.
    pub fn push_marked_synthetic(&mut self, symbol_id: String, kind: &str, text: &str)
        requires
            old(self).wf(),
        ensures
            final(self).grew(old(self), text@),
            final(self).marked(*old(self), seq![mark_spec(symbol_id@, kind@, text@)]),
    {
        self.mark_synthetic(symbol_id, kind, text);
    }

    /// Finishes the file, dropping trailing blank lines.
    pub fn into_tracked_file(self) -> (r: TrackedFile)
        ensures
            r.file.path@ == self.path@,
            r.file.contents@ == spec_trim_blank_lines(self.contents@),
            marks_view(r.marks@) == marks_view(self.marks@),
    {
        let TrackedWriter { path, contents, marks, position: _ } = self;
        TrackedFile {
            file: GeneratedFile { path, contents: trim_trailing_blank_lines(contents) },
            marks,
        }
    }
}

/// A writer holds itself with no further marks.
pub proof fn lemma_marked_refl(w: TrackedWriter)
    requires
        w.wf(),
    ensures
        w.marked(w, Seq::empty()),
{
    assert(w.contents@.take(w.contents@.len() as int) =~= w.contents@);
    assert(in_order(Seq::<int>::empty(), Seq::<MarkSpec>::empty(), w.contents@.len() as int));
}

/// Appending unmarked text keeps the marks made so far where they are.
pub broadcast proof fn lemma_marked_push(b: TrackedWriter, s: Seq<MarkSpec>, w0: TrackedWriter, w1: TrackedWriter, text: Seq<char>)
    requires
        #[trigger] w0.marked(b, s),
        #[trigger] w1.appended(&w0, text),
    ensures
        w1.marked(b, s),
{
    assert(w1.contents@.take(b.contents@.len() as int) =~= b.contents@) by {
        assert(w0.contents@.take(b.contents@.len() as int) == b.contents@);
    }
    assert(marks_view(w1.marks@).len() == w1.marks@.len());
    assert(marks_view(w0.marks@).len() == w0.marks@.len());
    assert(w1.marks@.len() == w0.marks@.len());
    assert forall|i: int| 0 <= i < b.marks@.len() implies #[trigger] w1.marks@[i]@ == b.marks@[i]@ by {
        assert(marks_view(w1.marks@)[i] == marks_view(w0.marks@)[i]);
        assert(w0.marks@[i]@ == b.marks@[i]@);
    }
    assert(w1.contents@.take(w0.contents@.len() as int) =~= w0.contents@);
    let offs = choose|offs: Seq<int>|
        #[trigger] in_order(offs, s, b.contents@.len() as int) && forall|i: int|
            0 <= i < s.len() ==> mark_at(
                w0.marks@[b.marks@.len() + i]@,
                w0.path@,
                w0.contents@,
                offs[i],
                #[trigger] s[i],
            );
    assert forall|i: int| 0 <= i < s.len() implies mark_at(
        w1.marks@[b.marks@.len() + i]@,
        w1.path@,
        w1.contents@,
        offs[i],
        #[trigger] s[i],
    ) by {
        assert(marks_view(w1.marks@)[b.marks@.len() + i] == marks_view(w0.marks@)[b.marks@.len() + i]);
        lemma_at_extend(w0.marks@[b.marks@.len() + i]@, w0.path@, w0.contents@, w1.contents@, offs[i], s[i]);
    }
    assert(in_order(offs, s, b.contents@.len() as int));
}

/// Marks made in turn add up: `s1` after `b`, then `s2` after that.
pub proof fn lemma_marked_trans(b: TrackedWriter, s1: Seq<MarkSpec>, w1: TrackedWriter, s2: Seq<MarkSpec>, w2: TrackedWriter)
    requires
        w1.marked(b, s1),
        w2.marked(w1, s2),
    ensures
        w2.marked(b, s1 + s2),
{
    let bl = b.contents@.len() as int;
    let w1l = w1.contents@.len() as int;
    assert(w2.contents@.take(bl) =~= b.contents@) by {
        assert(w2.contents@.take(w1l).take(bl) =~= w2.contents@.take(bl));
    }
    assert forall|i: int| 0 <= i < b.marks@.len() implies #[trigger] w2.marks@[i]@ == b.marks@[i]@ by {
        assert(w2.marks@[i]@ == w1.marks@[i]@);
        assert(w1.marks@[i]@ == b.marks@[i]@);
    }
    let o1 = choose|offs: Seq<int>|
        #[trigger] in_order(offs, s1, bl) && forall|i: int|
            0 <= i < s1.len() ==> mark_at(
                w1.marks@[b.marks@.len() + i]@,
                w1.path@,
                w1.contents@,
                offs[i],
                #[trigger] s1[i],
            );
    let o2 = choose|offs: Seq<int>|
        #[trigger] in_order(offs, s2, w1l) && forall|i: int|
            0 <= i < s2.len() ==> mark_at(
                w2.marks@[w1.marks@.len() + i]@,
                w2.path@,
                w2.contents@,
                offs[i],
                #[trigger] s2[i],
            );
    let offs = o1 + o2;
    let s = s1 + s2;
    assert forall|i: int| 0 <= i < s.len() implies mark_at(
        w2.marks@[b.marks@.len() + i]@,
        w2.path@,
        w2.contents@,
        offs[i],
        #[trigger] s[i],
    ) by {
        if i < s1.len() {
            assert(s[i] == s1[i]);
            assert(offs[i] == o1[i]);
            assert(w2.marks@[b.marks@.len() + i]@ == w1.marks@[b.marks@.len() + i]@);
            lemma_at_extend(w1.marks@[b.marks@.len() + i]@, w1.path@, w1.contents@, w2.contents@, o1[i], s1[i]);
        } else {
            let j = i - s1.len();
            assert(s[i] == s2[j]);
            assert(offs[i] == o2[j]);
            assert(w1.marks@.len() + j == b.marks@.len() + i);
        }
    }
    assert forall|i: int| 0 <= i < offs.len() implies bl <= #[trigger] offs[i] by {
        if i < o1.len() {
            assert(offs[i] == o1[i]);
        } else {
            assert(offs[i] == o2[i - o1.len()]);
        }
    }
    assert forall|i: int, j: int| 0 <= i < j < offs.len() implies #[trigger] offs[i] + s[i].name.len() <= #[trigger] offs[j] by {
        if j < o1.len() {
            assert(offs[i] == o1[i] && offs[j] == o1[j] && s[i] == s1[i]);
        } else if i >= o1.len() {
            assert(offs[i] == o2[i - o1.len()] && offs[j] == o2[j - o1.len()] && s[i] == s2[i - s1.len()]);
        } else {
            assert(offs[i] == o1[i] && s[i] == s1[i]);
            assert(offs[j] == o2[j - o1.len()]);
            assert(mark_at(w1.marks@[b.marks@.len() + i]@, w1.path@, w1.contents@, o1[i], s1[i]));
        }
    }
    assert(in_order(offs, s, bl));
}

/// The marks of a finished file: the writer's, in the file's text.
pub proof fn lemma_file_marks(w: TrackedWriter, base: TrackedWriter, specs: Seq<MarkSpec>, f: TrackedFile)
    requires
        w.marked(base, specs),
        base.contents@.len() == 0,
        base.marks@.len() == 0,
        f.file.path@ == w.path@,
        f.file.contents@ == spec_trim_blank_lines(w.contents@),
        marks_view(f.marks@) == marks_view(w.marks@),
    ensures
        file_marks(marks_view(f.marks@), f.file.path@, f.file.contents@, specs),
{
    let ms = marks_view(f.marks@);
    let offs = choose|offs: Seq<int>|
        #[trigger] in_order(offs, specs, 0) && forall|i: int|
            0 <= i < specs.len() ==> mark_at(
                w.marks@[0 + i]@,
                w.path@,
                w.contents@,
                offs[i],
                #[trigger] specs[i],
            );
    assert forall|i: int| 0 <= i < ms.len() implies #[trigger] ms[i].path == f.file.path@ && ms[i].symbol_id
        == specs[i].symbol_id && ms[i].kind == specs[i].kind by {
        assert(ms[i] == w.marks@[0 + i]@);
        assert(mark_at(w.marks@[0 + i]@, w.path@, w.contents@, offs[i], specs[i]));
    }
    assert forall|i: int| 0 <= i < ms.len() && ends_in_text(specs[i].name) implies mark_at(
        #[trigger] ms[i],
        f.file.path@,
        f.file.contents@,
        offs[i],
        specs[i],
    ) by {
        assert(ms[i] == w.marks@[0 + i]@);
        assert(mark_at(w.marks@[0 + i]@, w.path@, w.contents@, offs[i], specs[i]));
        lemma_at_trim(ms[i], w.path@, w.contents@, offs[i], specs[i]);
    }
    assert(in_order(offs, specs, 0));
}

} // verus!
