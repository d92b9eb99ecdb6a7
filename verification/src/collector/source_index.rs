//! Rust source ranges for contract symbols: an index of the functions,
//! parameters, types, fields and variants that a crate's sources declare,
//! and the refinement of a collected contract's ranges from it.

use vstd::prelude::*;
use crate::gen::writer::utf16_len;
use crate::ir::{SourceRange, SourceRangeModel, SourceSpan, strings_view};
use crate::scan::{lines, spec_lines};
use crate::text::chars_of;

verus! {

/// The number of UTF-8 bytes that encode `c`.
pub open spec fn utf8_len(c: char) -> nat {
    if (c as u32) < 0x80 {
        1
    } else if (c as u32) < 0x800 {
        2
    } else if (c as u32) < 0x10000 {
        3
    } else {
        4
    }
}

/// The number of characters of `line` whose UTF-8 encoding takes exactly
/// `bytes` bytes, when `bytes` falls on a character boundary.
pub open spec fn spec_chars_at_byte(line: Seq<char>, bytes: int) -> Option<int>
    decreases line.len(),
{
    if bytes == 0 {
        Some(0)
    } else if line.len() == 0 || bytes < utf8_len(line[0]) {
        None
    } else {
        match spec_chars_at_byte(line.drop_first(), bytes - utf8_len(line[0])) {
            Some(k) => Some(k + 1),
            None => None,
        }
    }
}

/// The UTF-16 length of a text, saturating at `u32::MAX`.
pub open spec fn spec_utf16_units(s: Seq<char>) -> u32
    decreases s.len(),
{
    if s.len() == 0 {
        0
    } else {
        let prev = spec_utf16_units(s.drop_last());
        if prev + utf16_len(s.last()) > u32::MAX {
            u32::MAX
        } else {
            (prev + utf16_len(s.last())) as u32
        }
    }
}

/// The one-based UTF-16 column of a byte column on a one-based line: the
/// UTF-16 length of the line before the byte column (of the whole line when
/// the column is past its end or inside a character), plus one.
pub open spec fn spec_utf16_column(contents: Seq<char>, line_number: int, byte_column: int) -> Option<u32> {
    let ls = spec_lines(contents);
    if line_number < 1 || line_number > ls.len() {
        None
    } else {
        let line = ls[line_number - 1];
        let prefix = match spec_chars_at_byte(line, byte_column) {
            Some(k) => line.take(k),
            None => line,
        };
        let units = spec_utf16_units(prefix);
        Some(if units == u32::MAX { u32::MAX } else { (units + 1) as u32 })
    }
}

fn char_utf8_len(c: char) -> (r: usize)
    ensures
        r == utf8_len(c),
{
    let v = c as u32;
    if v < 0x80 {
        1
    } else if v < 0x800 {
        2
    } else if v < 0x10000 {
        3
    } else {
        4
    }
}

fn char_utf16_len(c: char) -> (r: u32)
    ensures
        r == utf16_len(c),
{
    let v = c as u32;
    if v >= 0x10000 {
        2
    } else {
        1
    }
}

/// The number of characters before a byte column of a line, when the
/// column falls on a character boundary.
fn chars_at_byte(line: &Vec<char>, bytes: usize) -> (r: Option<usize>)
    ensures
        match spec_chars_at_byte(line@, bytes as int) {
            Some(k) => r == Some(k as usize),
            None => r is None,
        },
{
    let mut i: usize = 0;
    let mut left: usize = bytes;
    assert(line@.skip(0) =~= line@);
    while i < line.len()
        invariant
            i <= line@.len(),
            left <= bytes,
            spec_chars_at_byte(line@, bytes as int) == match spec_chars_at_byte(line@.skip(i as int), left as int) {
                Some(k) => Some(k + i),
                None => None::<int>,
            },
        decreases line@.len() - i,
    {
        let ghost rest = line@.skip(i as int);
        assert(rest[0] == line@[i as int]);
        assert(rest.drop_first() =~= line@.skip(i + 1));
        if left == 0 {
            return Some(i);
        }
        let w = char_utf8_len(line[i]);
        if left < w {
            return None;
        }
        left = left - w;
        i = i + 1;
    }
    assert(line@.skip(i as int) =~= Seq::<char>::empty());
    if left == 0 {
        Some(i)
    } else {
        None
    }
}

fn utf16_units(s: &Vec<char>, n: usize) -> (r: u32)
    requires
        n <= s@.len(),
    ensures
        r == spec_utf16_units(s@.take(n as int)),
{
    let mut units: u32 = 0;
    for i in 0..n
        invariant
            n <= s@.len(),
            units == spec_utf16_units(s@.take(i as int)),
    {
        assert(s@.take(i + 1).drop_last() =~= s@.take(i as int));
        let w = char_utf16_len(s[i]);
        if units > u32::MAX - w {
            units = u32::MAX;
        } else {
            units = units + w;
        }
    }
    units
}

/// The one-based UTF-16 column of a byte column on a line of `contents`.
pub fn utf16_column(contents: &str, line_number: usize, byte_column: usize) -> (r: Option<u32>)
    ensures
        r == spec_utf16_column(contents@, line_number as int, byte_column as int),
{
    let ls = lines(contents);
    if line_number < 1 || line_number > ls.len() {
        return None;
    }
    let line = chars_of(ls[line_number - 1].as_str());
    assert(strings_view(ls@)[line_number - 1] == ls@[line_number - 1]@);
    let n = match chars_at_byte(&line, byte_column) {
        Some(k) => k,
        None => line.len(),
    };
    proof {
        if spec_chars_at_byte(line@, byte_column as int) is Some {
            lemma_chars_at_byte_bound(line@, byte_column as int);
        }
    }
    assert(line@.take(line@.len() as int) =~= line@);
    let units = utf16_units(&line, n);
    Some(if units == u32::MAX { u32::MAX } else { units + 1 })
}

/// A character count found at a byte column lies within the line.
pub proof fn lemma_chars_at_byte_bound(line: Seq<char>, bytes: int)
    ensures
        spec_chars_at_byte(line, bytes) matches Some(k) ==> 0 <= k <= line.len(),
    decreases line.len(),
{
    if bytes != 0 && line.len() > 0 && bytes >= utf8_len(line[0]) {
        lemma_chars_at_byte_bound(line.drop_first(), bytes - utf8_len(line[0]));
    }
}

} // verus!

verus! {

/// A point of a span as the Rust parser reports it: a one-based line and
/// a zero-based byte column.
#[derive(Clone, Copy, Debug, PartialEq, Eq, Structural)]
pub struct LineColumn {
    pub line: usize,
    pub column: usize,
}

/// The start and end of a parsed syntax node.
#[derive(Clone, Copy, Debug, PartialEq, Eq, Structural)]
pub struct ParsedSpan {
    pub start: LineColumn,
    pub end: LineColumn,
}

/// A named declaration: its name, the span of the name, and the span of
/// the whole declaration.
#[derive(Debug, PartialEq, Eq)]
pub struct NamedSpan {
    pub name: String,
    pub name_span: ParsedSpan,
    pub span: ParsedSpan,
}

/// An enum variant and its named fields.
#[derive(Debug, PartialEq, Eq)]
pub struct ParsedVariant {
    pub variant: NamedSpan,
    pub fields: Vec<NamedSpan>,
}

/// An item of a Rust source file, reduced to what the index reads.
#[derive(Debug, PartialEq, Eq)]
pub enum ParsedItem {
    /// A function and its parameters bound to plain identifiers.
    Fn { item: NamedSpan, params: Vec<NamedSpan> },
    /// A struct and its named fields.
    Struct { item: NamedSpan, fields: Vec<NamedSpan> },
    /// An enum and its variants.
    Enum { item: NamedSpan, variants: Vec<ParsedVariant> },
    /// A module, with its items when they were found.
    Mod { name: String, content: ModuleContent },
    /// Any other item.
    Other,
}

/// Where a module's items are.
#[derive(Debug, PartialEq, Eq)]
pub enum ModuleContent {
    /// Inside the braces of the declaration.
    Inline(Vec<ParsedItem>),
    /// In a file of their own, read for the first time.
    File(Box<ParsedFile>),
    /// Nowhere the index looks, or in a file already indexed.
    Absent,
}

/// A parsed Rust source file: its label in source ranges, its contents and
/// its items.
#[derive(Debug, PartialEq, Eq)]
pub struct ParsedFile {
    pub label: String,
    pub contents: String,
    pub items: Vec<ParsedItem>,
}

/// The source span of a parsed span, when both lines are known and fit.
pub open spec fn spec_source_span(contents: Seq<char>, s: ParsedSpan) -> Option<SourceSpan> {
    if s.start.line == 0 || s.end.line == 0 || s.start.line > u32::MAX || s.end.line > u32::MAX {
        None
    } else {
        match (
            spec_utf16_column(contents, s.start.line as int, s.start.column as int),
            spec_utf16_column(contents, s.end.line as int, s.end.column as int),
        ) {
            (Some(a), Some(b)) => Some(
                SourceSpan {
                    start_line: s.start.line as u32,
                    start_column: a,
                    end_line: s.end.line as u32,
                    end_column: b,
                },
            ),
            _ => None,
        }
    }
}

/// The source range of a declaration: its name's span, with the whole
/// declaration's span (or the name's, when unknown) as the full range.
pub open spec fn spec_declaration_range(label: Seq<char>, contents: Seq<char>, n: NamedSpan) -> Option<SourceRangeModel> {
    match spec_source_span(contents, n.name_span) {
        None => None,
        Some(name) => Some(
            SourceRangeModel {
                file: label,
                start_line: name.start_line,
                start_column: name.start_column,
                end_line: name.end_line,
                end_column: name.end_column,
                full_range: Some(
                    match spec_source_span(contents, n.span) {
                        Some(full) => full,
                        None => name,
                    },
                ),
            },
        ),
    }
}

fn source_span(contents: &str, s: ParsedSpan) -> (r: Option<SourceSpan>)
    ensures
        r == spec_source_span(contents@, s),
{
    if s.start.line == 0 || s.end.line == 0 || s.start.line > 4294967295usize || s.end.line > 4294967295usize {
        return None;
    }
    let a = utf16_column(contents, s.start.line, s.start.column);
    let b = utf16_column(contents, s.end.line, s.end.column);
    match (a, b) {
        (Some(a), Some(b)) => Some(
            SourceSpan {
                start_line: s.start.line as u32,
                start_column: a,
                end_line: s.end.line as u32,
                end_column: b,
            },
        ),
        _ => None,
    }
}

/// The source range of a declaration in a file.
pub fn declaration_range(label: &str, contents: &str, n: &NamedSpan) -> (r: Option<SourceRange>)
    ensures
        match spec_declaration_range(label@, contents@, *n) {
            Some(m) => r matches Some(x) && x@ == m,
            None => r is None,
        },
{
    match source_span(contents, n.name_span) {
        None => None,
        Some(name) => {
            let full = match source_span(contents, n.span) {
                Some(full) => full,
                None => name,
            };
            Some(
                SourceRange {
                    file: label.to_owned(),
                    start_line: name.start_line,
                    start_column: name.start_column,
                    end_line: name.end_line,
                    end_column: name.end_column,
                    full_range: Some(full),
                },
            )
        },
    }
}

} // verus!

verus! {

/// An entry of the index: a Rust path and its source range.
pub type IndexEntry = (Seq<Seq<char>>, SourceRangeModel);

/// Model of a [`RustSourceIndex`]: its entries by kind, in the order they
/// were recorded.
pub struct IndexModel {
    pub functions: Seq<IndexEntry>,
    pub endpoint_params: Seq<IndexEntry>,
    pub types: Seq<IndexEntry>,
    pub fields: Seq<IndexEntry>,
    pub variants: Seq<IndexEntry>,
}

/// The source ranges that Rust sources declare, by path. A path recorded
/// twice keeps its last range.
#[derive(Debug, PartialEq, Eq)]
pub struct RustSourceIndex {
    pub functions: Vec<(Vec<String>, SourceRange)>,
    pub endpoint_params: Vec<(Vec<String>, SourceRange)>,
    pub types: Vec<(Vec<String>, SourceRange)>,
    pub fields: Vec<(Vec<String>, SourceRange)>,
    pub variants: Vec<(Vec<String>, SourceRange)>,
}

/// The models of recorded entries.
pub open spec fn entries_view(v: Seq<(Vec<String>, SourceRange)>) -> Seq<IndexEntry> {
    v.map_values(|e: (Vec<String>, SourceRange)| (strings_view(e.0@), e.1@))
}

impl View for RustSourceIndex {
    type V = IndexModel;

    open spec fn view(&self) -> IndexModel {
        IndexModel {
            functions: entries_view(self.functions@),
            endpoint_params: entries_view(self.endpoint_params@),
            types: entries_view(self.types@),
            fields: entries_view(self.fields@),
            variants: entries_view(self.variants@),
        }
    }
}

/// The entry of a declaration at `path`, if its range is known.
pub open spec fn spec_entry(path: Seq<Seq<char>>, range: Option<SourceRangeModel>) -> Seq<IndexEntry> {
    match range {
        Some(r) => seq![(path, r)],
        None => Seq::empty(),
    }
}

/// The entries of declarations under `base`, each at `base` and its name.
pub open spec fn spec_member_entries(
    members: Seq<NamedSpan>,
    base: Seq<Seq<char>>,
    label: Seq<char>,
    contents: Seq<char>,
) -> Seq<IndexEntry>
    decreases members.len(),
{
    if members.len() == 0 {
        Seq::empty()
    } else {
        let m = members.last();
        spec_member_entries(members.drop_last(), base, label, contents) + spec_entry(
            base.push(m.name@),
            spec_declaration_range(label, contents, m),
        )
    }
}

/// The index after recording the items of a file from a module path.
pub open spec fn spec_add_items(
    acc: IndexModel,
    items: Seq<ParsedItem>,
    path: Seq<Seq<char>>,
    label: Seq<char>,
    contents: Seq<char>,
) -> IndexModel
    decreases items,
{
    if items.len() == 0 {
        acc
    } else {
        let prefix = items.subrange(0, items.len() - 1);
        spec_add_item(spec_add_items(acc, prefix, path, label, contents), items[items.len() - 1], path, label, contents)
    }
}

/// The index after recording one item: a function and its parameters, a
/// struct and its fields, an enum and its variants and their fields, or
/// the items of a module under the module's path.
pub open spec fn spec_add_item(
    acc: IndexModel,
    item: ParsedItem,
    path: Seq<Seq<char>>,
    label: Seq<char>,
    contents: Seq<char>,
) -> IndexModel
    decreases item,
{
    match item {
        ParsedItem::Fn { item: f, params } => {
            let fpath = path.push(f.name@);
            IndexModel {
                functions: acc.functions + spec_entry(fpath, spec_declaration_range(label, contents, f)),
                endpoint_params: acc.endpoint_params + spec_member_entries(params@, fpath, label, contents),
                ..acc
            }
        },
        ParsedItem::Struct { item: s, fields } => {
            let tpath = path.push(s.name@);
            IndexModel {
                types: acc.types + spec_entry(tpath, spec_declaration_range(label, contents, s)),
                fields: acc.fields + spec_member_entries(fields@, tpath, label, contents),
                ..acc
            }
        },
        ParsedItem::Enum { item: e, variants } => {
            let tpath = path.push(e.name@);
            spec_add_variants(
                IndexModel {
                    types: acc.types + spec_entry(tpath, spec_declaration_range(label, contents, e)),
                    ..acc
                },
                variants@,
                tpath,
                label,
                contents,
            )
        },
        ParsedItem::Mod { name, content } => match content {
            ModuleContent::Inline(items) => spec_add_items(acc, items@, path.push(name@), label, contents),
            ModuleContent::File(file) => spec_add_items(
                acc,
                file.items@,
                path.push(name@),
                file.label@,
                file.contents@,
            ),
            ModuleContent::Absent => acc,
        },
        ParsedItem::Other => acc,
    }
}

/// The index after recording an enum's variants and their fields.
pub open spec fn spec_add_variants(
    acc: IndexModel,
    variants: Seq<ParsedVariant>,
    tpath: Seq<Seq<char>>,
    label: Seq<char>,
    contents: Seq<char>,
) -> IndexModel
    decreases variants.len(),
{
    if variants.len() == 0 {
        acc
    } else {
        let prev = spec_add_variants(acc, variants.drop_last(), tpath, label, contents);
        let v = variants.last();
        let vpath = tpath.push(v.variant.name@);
        IndexModel {
            variants: prev.variants + spec_entry(vpath, spec_declaration_range(label, contents, v.variant)),
            fields: prev.fields + spec_member_entries(v.fields@, vpath, label, contents),
            ..prev
        }
    }
}

} // verus!

verus! {

/// The model of an optional range.
pub open spec fn opt_range_view(o: Option<SourceRange>) -> Option<SourceRangeModel> {
    match o {
        Some(r) => Some(r@),
        None => None,
    }
}

fn path_with(base: &Vec<String>, name: &str) -> (r: Vec<String>)
    ensures
        strings_view(r@) == strings_view(base@).push(name@),
{
    let mut out = crate::ir::clone_strings(base);
    out.push(name.to_owned());
    assert(strings_view(out@) =~= strings_view(base@).push(name@));
    out
}

fn push_entry(v: &mut Vec<(Vec<String>, SourceRange)>, path: Vec<String>, range: Option<SourceRange>)
    ensures
        entries_view(final(v)@) == entries_view(old(v)@) + spec_entry(strings_view(path@), opt_range_view(range)),
{
    let ghost before = entries_view(v@);
    match range {
        Some(r) => {
            let ghost e = (strings_view(path@), r@);
            v.push((path, r));
            assert(entries_view(v@) =~= before + seq![e]);
        },
        None => {
            assert(entries_view(v@) =~= before + Seq::<IndexEntry>::empty());
        },
    }
}

fn push_member_entries(
    v: &mut Vec<(Vec<String>, SourceRange)>,
    members: &Vec<NamedSpan>,
    base: &Vec<String>,
    label: &str,
    contents: &str,
)
    ensures
        entries_view(final(v)@) == entries_view(old(v)@) + spec_member_entries(
            members@,
            strings_view(base@),
            label@,
            contents@,
        ),
{
    let ghost start = entries_view(v@);
    for i in 0..members.len()
        invariant
            entries_view(v@) == start + spec_member_entries(members@.take(i as int), strings_view(base@), label@, contents@),
    {
        assert(members@.take(i + 1).drop_last() =~= members@.take(i as int));
        let m = &members[i];
        let range = declaration_range(label, contents, m);
        assert(opt_range_view(range) == spec_declaration_range(label@, contents@, *m));
        let ghost before = entries_view(v@);
        push_entry(v, path_with(base, m.name.as_str()), range);
        assert(entries_view(v@) =~= start + spec_member_entries(members@.take(i + 1), strings_view(base@), label@, contents@));
    }
    assert(members@.take(members@.len() as int) =~= members@);
}

fn add_variants(
    index: &mut RustSourceIndex,
    variants: &Vec<ParsedVariant>,
    tpath: &Vec<String>,
    label: &str,
    contents: &str,
)
    ensures
        final(index)@ == spec_add_variants(old(index)@, variants@, strings_view(tpath@), label@, contents@),
{
    let ghost start = index@;
    for i in 0..variants.len()
        invariant
            index@ == spec_add_variants(start, variants@.take(i as int), strings_view(tpath@), label@, contents@),
    {
        assert(variants@.take(i + 1).drop_last() =~= variants@.take(i as int));
        let v = &variants[i];
        let vpath = path_with(tpath, v.variant.name.as_str());
        let range = declaration_range(label, contents, &v.variant);
        assert(opt_range_view(range) == spec_declaration_range(label@, contents@, v.variant));
        push_entry(&mut index.variants, crate::ir::clone_strings(&vpath), range);
        push_member_entries(&mut index.fields, &v.fields, &vpath, label, contents);
    }
    assert(variants@.take(variants@.len() as int) =~= variants@);
}

fn add_item(index: &mut RustSourceIndex, item: &ParsedItem, path: &Vec<String>, label: &str, contents: &str)
    ensures
        final(index)@ == spec_add_item(old(index)@, *item, strings_view(path@), label@, contents@),
    decreases item,
{
    match item {
        ParsedItem::Fn { item: f, params } => {
            let fpath = path_with(path, f.name.as_str());
            let range = declaration_range(label, contents, f);
            assert(opt_range_view(range) == spec_declaration_range(label@, contents@, *f));
            push_entry(&mut index.functions, crate::ir::clone_strings(&fpath), range);
            push_member_entries(&mut index.endpoint_params, params, &fpath, label, contents);
        },
        ParsedItem::Struct { item: s, fields } => {
            let tpath = path_with(path, s.name.as_str());
            let range = declaration_range(label, contents, s);
            assert(opt_range_view(range) == spec_declaration_range(label@, contents@, *s));
            push_entry(&mut index.types, crate::ir::clone_strings(&tpath), range);
            push_member_entries(&mut index.fields, fields, &tpath, label, contents);
        },
        ParsedItem::Enum { item: e, variants } => {
            let tpath = path_with(path, e.name.as_str());
            let range = declaration_range(label, contents, e);
            assert(opt_range_view(range) == spec_declaration_range(label@, contents@, *e));
            push_entry(&mut index.types, crate::ir::clone_strings(&tpath), range);
            add_variants(index, variants, &tpath, label, contents);
        },
        ParsedItem::Mod { name, content } => {
            let child = path_with(path, name.as_str());
            match content {
                ModuleContent::Inline(items) => {
                    add_items(index, items, &child, label, contents);
                },
                ModuleContent::File(file) => {
                    add_items(index, &file.items, &child, file.label.as_str(), file.contents.as_str());
                },
                ModuleContent::Absent => {},
            }
        },
        ParsedItem::Other => {},
    }
}

fn add_items(index: &mut RustSourceIndex, items: &Vec<ParsedItem>, path: &Vec<String>, label: &str, contents: &str)
    ensures
        final(index)@ == spec_add_items(old(index)@, items@, strings_view(path@), label@, contents@),
    decreases items@,
{
    let ghost start = index@;
    assert(items@.take(0) =~= Seq::<ParsedItem>::empty());
    for i in 0..items.len()
        invariant
            index@ == spec_add_items(start, items@.take(i as int), strings_view(path@), label@, contents@),
    {
        assert(items@.take(i + 1).subrange(0, i as int) =~= items@.take(i as int));
        assert(items@.take(i + 1)[i as int] == items@[i as int]);
        add_item(index, &items[i], path, label, contents);
    }
    assert(items@.take(items@.len() as int) =~= items@);
}

impl RustSourceIndex {
    /// The index of a crate whose library root is `root`: its items and
    /// those of its modules, under paths that start with the crate's name.
    pub fn for_root(root: &ParsedFile, lib_crate_name: &str) -> (r: Self)
        ensures
            r@ == spec_add_items(
                IndexModel {
                    functions: Seq::empty(),
                    endpoint_params: Seq::empty(),
                    types: Seq::empty(),
                    fields: Seq::empty(),
                    variants: Seq::empty(),
                },
                root.items@,
                seq![lib_crate_name@],
                root.label@,
                root.contents@,
            ),
    {
        let mut index = RustSourceIndex {
            functions: Vec::new(),
            endpoint_params: Vec::new(),
            types: Vec::new(),
            fields: Vec::new(),
            variants: Vec::new(),
        };
        assert(entries_view(index.functions@) =~= Seq::<IndexEntry>::empty());
        assert(entries_view(index.endpoint_params@) =~= Seq::<IndexEntry>::empty());
        assert(entries_view(index.types@) =~= Seq::<IndexEntry>::empty());
        assert(entries_view(index.fields@) =~= Seq::<IndexEntry>::empty());
        assert(entries_view(index.variants@) =~= Seq::<IndexEntry>::empty());
        let mut path: Vec<String> = Vec::new();
        path.push(lib_crate_name.to_owned());
        assert(strings_view(path@) =~= seq![lib_crate_name@]);
        add_items(&mut index, &root.items, &path, root.label.as_str(), root.contents.as_str());
        index
    }
}

} // verus!

verus! {

/// The range last recorded for a path.
pub open spec fn spec_lookup(entries: Seq<IndexEntry>, path: Seq<Seq<char>>) -> Option<SourceRangeModel>
    decreases entries.len(),
{
    if entries.len() == 0 {
        None
    } else if entries.last().0 == path {
        Some(entries.last().1)
    } else {
        spec_lookup(entries.drop_last(), path)
    }
}

/// A range replaced by the one recorded for a path, if any.
pub open spec fn spec_refined_range(
    entries: Seq<IndexEntry>,
    path: Seq<Seq<char>>,
    current: SourceRangeModel,
) -> SourceRangeModel {
    match spec_lookup(entries, path) {
        Some(r) => r,
        None => current,
    }
}

/// A field with the range of the field, or else of the parameter, at its path.
pub open spec fn spec_refine_field(f: crate::ir::FieldModel, path: Seq<Seq<char>>, idx: IndexModel) -> crate::ir::FieldModel {
    match spec_lookup(idx.fields, path) {
        Some(r) => crate::ir::FieldModel { source: r, ..f },
        None => crate::ir::FieldModel { source: spec_refined_range(idx.endpoint_params, path, f.source), ..f },
    }
}

/// Fields refined under a base path.
pub open spec fn spec_refine_fields(
    fields: Seq<crate::ir::FieldModel>,
    base: Seq<Seq<char>>,
    idx: IndexModel,
) -> Seq<crate::ir::FieldModel> {
    fields.map_values(|f: crate::ir::FieldModel| spec_refine_field(f, base.push(f.rust_name), idx))
}

/// An endpoint with the ranges of its function and parameters.
pub open spec fn spec_refine_endpoint(e: crate::ir::EndpointModel, idx: IndexModel) -> crate::ir::EndpointModel {
    crate::ir::EndpointModel {
        source: spec_refined_range(idx.functions, e.rust_path, e.source),
        request: crate::ir::RequestShapeModel {
            path_params: spec_refine_fields(e.request.path_params, e.rust_path, idx),
            query_params: spec_refine_fields(e.request.query_params, e.rust_path, idx),
            ..e.request
        },
        ..e
    }
}

/// An enum variant with the ranges of the variant and its fields.
pub open spec fn spec_refine_enum_variant(
    v: crate::ir::EnumVariantModel,
    type_path: Seq<Seq<char>>,
    idx: IndexModel,
) -> crate::ir::EnumVariantModel {
    let vpath = type_path.push(v.rust_name);
    crate::ir::EnumVariantModel {
        source: spec_refined_range(idx.variants, vpath, v.source),
        fields: spec_refine_fields(v.fields, vpath, idx),
        ..v
    }
}

/// A type with the ranges of the type and of its fields and variants.
pub open spec fn spec_refine_type(t: crate::ir::TypeDefModel, idx: IndexModel) -> crate::ir::TypeDefModel {
    crate::ir::TypeDefModel {
        source: spec_refined_range(idx.types, t.rust_path, t.source),
        shape: match t.shape {
            crate::ir::TypeShapeModel::Struct(fields) => crate::ir::TypeShapeModel::Struct(
                spec_refine_fields(fields, t.rust_path, idx),
            ),
            crate::ir::TypeShapeModel::Enum(variants) => crate::ir::TypeShapeModel::Enum(
                variants.map_values(|v: crate::ir::EnumVariantModel| spec_refine_enum_variant(v, t.rust_path, idx)),
            ),
            other => other,
        },
        ..t
    }
}

/// An error variant with the ranges of the variant and its fields.
pub open spec fn spec_refine_error_variant(
    v: crate::ir::ErrorVariantModel,
    error_path: Seq<Seq<char>>,
    idx: IndexModel,
) -> crate::ir::ErrorVariantModel {
    let vpath = error_path.push(v.rust_name);
    crate::ir::ErrorVariantModel {
        source: spec_refined_range(idx.variants, vpath, v.source),
        fields: spec_refine_fields(v.fields, vpath, idx),
        ..v
    }
}

/// An error with the ranges of the error and of its variants and fields.
pub open spec fn spec_refine_error(e: crate::ir::ErrorDefModel, idx: IndexModel) -> crate::ir::ErrorDefModel {
    crate::ir::ErrorDefModel {
        source: spec_refined_range(idx.types, e.rust_path, e.source),
        variants: e.variants.map_values(
            |v: crate::ir::ErrorVariantModel| spec_refine_error_variant(v, e.rust_path, idx),
        ),
        ..e
    }
}

/// A contract with every range the index records for its symbols.
pub open spec fn spec_refine_contract(c: crate::ir::ApiContractModel, idx: IndexModel) -> crate::ir::ApiContractModel {
    crate::ir::ApiContractModel {
        endpoints: c.endpoints.map_values(|e: crate::ir::EndpointModel| spec_refine_endpoint(e, idx)),
        types: c.types.map_values(|t: crate::ir::TypeDefModel| spec_refine_type(t, idx)),
        errors: c.errors.map_values(|e: crate::ir::ErrorDefModel| spec_refine_error(e, idx)),
        ..c
    }
}

fn paths_equal(a: &Vec<String>, b: &Vec<String>) -> (r: bool)
    ensures
        r == (strings_view(a@) == strings_view(b@)),
{
    if a.len() != b.len() {
        assert(strings_view(a@).len() != strings_view(b@).len());
        return false;
    }
    for i in 0..a.len()
        invariant
            a@.len() == b@.len(),
            forall|j: int| 0 <= j < i ==> a@[j]@ == b@[j]@,
    {
        if !crate::order::str_eq(a[i].as_str(), b[i].as_str()) {
            assert(strings_view(a@)[i as int] != strings_view(b@)[i as int]);
            return false;
        }
    }
    assert(strings_view(a@) =~= strings_view(b@));
    true
}

fn lookup(entries: &Vec<(Vec<String>, SourceRange)>, path: &Vec<String>) -> (r: Option<SourceRange>)
    ensures
        opt_range_view(r) == spec_lookup(entries_view(entries@), strings_view(path@)),
{
    let ghost ev = entries_view(entries@);
    let mut found: Option<SourceRange> = None;
    for i in 0..entries.len()
        invariant
            ev == entries_view(entries@),
            opt_range_view(found) == spec_lookup(ev.take(i as int), strings_view(path@)),
    {
        assert(ev.take(i + 1).drop_last() =~= ev.take(i as int));
        assert(ev.take(i + 1).last() == ev[i as int]);
        if paths_equal(&entries[i].0, path) {
            found = Some(entries[i].1.clone());
        }
    }
    assert(ev.take(entries@.len() as int) =~= ev);
    found
}

fn refined_range(entries: &Vec<(Vec<String>, SourceRange)>, path: &Vec<String>, current: &SourceRange) -> (r: SourceRange)
    ensures
        r@ == spec_refined_range(entries_view(entries@), strings_view(path@), current@),
{
    match lookup(entries, path) {
        Some(r) => r,
        None => current.clone(),
    }
}

fn refine_field(f: &crate::ir::Field, base: &Vec<String>, index: &RustSourceIndex) -> (r: crate::ir::Field)
    ensures
        r@ == spec_refine_field(f@, strings_view(base@).push(f@.rust_name), index@),
{
    let path = path_with(base, f.rust_name.as_str());
    let source = match lookup(&index.fields, &path) {
        Some(r) => r,
        None => refined_range(&index.endpoint_params, &path, &f.source),
    };
    let mut out = f.clone();
    out.source = source;
    out
}

fn refine_fields(fields: &Vec<crate::ir::Field>, base: &Vec<String>, index: &RustSourceIndex) -> (r: Vec<crate::ir::Field>)
    ensures
        crate::ir::fields_view(r@) == spec_refine_fields(crate::ir::fields_view(fields@), strings_view(base@), index@),
{
    let mut out: Vec<crate::ir::Field> = Vec::new();
    for i in 0..fields.len()
        invariant
            out@.len() == i,
            forall|j: int| 0 <= j < i ==> #[trigger] out@[j]@ == spec_refine_field(
                fields@[j]@,
                strings_view(base@).push(fields@[j]@.rust_name),
                index@,
            ),
    {
        out.push(refine_field(&fields[i], base, index));
    }
    assert(crate::ir::fields_view(out@) =~= spec_refine_fields(crate::ir::fields_view(fields@), strings_view(base@), index@));
    out
}

} // verus!

verus! {

fn refine_endpoint(e: &crate::ir::Endpoint, index: &RustSourceIndex) -> (r: crate::ir::Endpoint)
    ensures
        r@ == spec_refine_endpoint(e@, index@),
{
    let mut out = e.clone();
    out.source = refined_range(&index.functions, &e.rust_path, &e.source);
    out.request.path_params = refine_fields(&e.request.path_params, &e.rust_path, index);
    out.request.query_params = refine_fields(&e.request.query_params, &e.rust_path, index);
    out
}

fn refine_enum_variant(v: &crate::ir::EnumVariant, type_path: &Vec<String>, index: &RustSourceIndex) -> (r: crate::ir::EnumVariant)
    ensures
        r@ == spec_refine_enum_variant(v@, strings_view(type_path@), index@),
{
    let vpath = path_with(type_path, v.rust_name.as_str());
    let mut out = v.clone();
    out.source = refined_range(&index.variants, &vpath, &v.source);
    out.fields = refine_fields(&v.fields, &vpath, index);
    out
}

fn refine_type(t: &crate::ir::TypeDef, index: &RustSourceIndex) -> (r: crate::ir::TypeDef)
    ensures
        r@ == spec_refine_type(t@, index@),
{
    let mut out = t.clone();
    out.source = refined_range(&index.types, &t.rust_path, &t.source);
    match &t.shape {
        crate::ir::TypeShape::Struct(s) => {
            out.shape = crate::ir::TypeShape::Struct(
                crate::ir::StructShape { fields: refine_fields(&s.fields, &t.rust_path, index) },
            );
        },
        crate::ir::TypeShape::Enum(e) => {
            let mut variants: Vec<crate::ir::EnumVariant> = Vec::new();
            for i in 0..e.variants.len()
                invariant
                    variants@.len() == i,
                    forall|j: int| 0 <= j < i ==> #[trigger] variants@[j]@ == spec_refine_enum_variant(
                        e.variants@[j]@,
                        strings_view(t.rust_path@),
                        index@,
                    ),
            {
                variants.push(refine_enum_variant(&e.variants[i], &t.rust_path, index));
            }
            assert(crate::ir::variants_view(variants@) =~= crate::ir::variants_view(e.variants@).map_values(
                |v: crate::ir::EnumVariantModel| spec_refine_enum_variant(v, strings_view(t.rust_path@), index@),
            ));
            out.shape = crate::ir::TypeShape::Enum(crate::ir::EnumShape { variants });
        },
        _ => {},
    }
    out
}

fn refine_error_variant(v: &crate::ir::ErrorVariant, error_path: &Vec<String>, index: &RustSourceIndex) -> (r: crate::ir::ErrorVariant)
    ensures
        r@ == spec_refine_error_variant(v@, strings_view(error_path@), index@),
{
    let vpath = path_with(error_path, v.rust_name.as_str());
    let mut out = v.clone();
    out.source = refined_range(&index.variants, &vpath, &v.source);
    out.fields = refine_fields(&v.fields, &vpath, index);
    out
}

fn refine_error(e: &crate::ir::ErrorDef, index: &RustSourceIndex) -> (r: crate::ir::ErrorDef)
    ensures
        r@ == spec_refine_error(e@, index@),
{
    let mut variants: Vec<crate::ir::ErrorVariant> = Vec::new();
    for i in 0..e.variants.len()
        invariant
            variants@.len() == i,
            forall|j: int| 0 <= j < i ==> #[trigger] variants@[j]@ == spec_refine_error_variant(
                e.variants@[j]@,
                strings_view(e.rust_path@),
                index@,
            ),
    {
        variants.push(refine_error_variant(&e.variants[i], &e.rust_path, index));
    }
    assert(crate::ir::error_variants_view(variants@) =~= crate::ir::error_variants_view(e.variants@).map_values(
        |v: crate::ir::ErrorVariantModel| spec_refine_error_variant(v, strings_view(e.rust_path@), index@),
    ));
    let mut out = e.clone();
    out.source = refined_range(&index.types, &e.rust_path, &e.source);
    out.variants = variants;
    out
}

/// Replaces the source ranges of a collected contract's endpoints,
/// parameters, types, fields, variants and errors with the ranges that the
/// crate's sources record for their Rust paths.
pub fn refine_contract_source_ranges(contract: &mut crate::ir::ApiContract, index: &RustSourceIndex)
    ensures
        final(contract)@ == spec_refine_contract(old(contract)@, index@),
{
    let mut endpoints: Vec<crate::ir::Endpoint> = Vec::new();
    for i in 0..contract.endpoints.len()
        invariant
            endpoints@.len() == i,
            forall|j: int| 0 <= j < i ==> #[trigger] endpoints@[j]@ == spec_refine_endpoint(contract.endpoints@[j]@, index@),
    {
        endpoints.push(refine_endpoint(&contract.endpoints[i], index));
    }
    let mut types: Vec<crate::ir::TypeDef> = Vec::new();
    for i in 0..contract.types.len()
        invariant
            types@.len() == i,
            forall|j: int| 0 <= j < i ==> #[trigger] types@[j]@ == spec_refine_type(contract.types@[j]@, index@),
    {
        types.push(refine_type(&contract.types[i], index));
    }
    let mut errors: Vec<crate::ir::ErrorDef> = Vec::new();
    for i in 0..contract.errors.len()
        invariant
            errors@.len() == i,
            forall|j: int| 0 <= j < i ==> #[trigger] errors@[j]@ == spec_refine_error(contract.errors@[j]@, index@),
    {
        errors.push(refine_error(&contract.errors[i], index));
    }
    let ghost before = contract@;
    assert(crate::ir::endpoints_view(endpoints@) =~= before.endpoints.map_values(
        |e: crate::ir::EndpointModel| spec_refine_endpoint(e, index@),
    ));
    assert(crate::ir::type_defs_view(types@) =~= before.types.map_values(
        |t: crate::ir::TypeDefModel| spec_refine_type(t, index@),
    ));
    assert(crate::ir::error_defs_view(errors@) =~= before.errors.map_values(
        |e: crate::ir::ErrorDefModel| spec_refine_error(e, index@),
    ));
    contract.endpoints = endpoints;
    contract.types = types;
    contract.errors = errors;
}

} // verus!
