//! Rust source files read with the `syn` parser: what the parser reports of
//! each item, as plain values, and its reduction to the items that the
//! source index reads.

use vstd::prelude::*;
use syn::spanned::Spanned;
use crate::collector::source_index::{LineColumn, ModuleContent, NamedSpan, ParsedItem, ParsedSpan, ParsedVariant};

verus! {

/// `syn::Item`, carried opaquely.
#[verifier::external_type_specification]
#[verifier::external_body]
pub struct ExSynItem(syn::Item);

/// `syn::ItemFn`, carried opaquely.
#[verifier::external_type_specification]
#[verifier::external_body]
pub struct ExSynItemFn(syn::ItemFn);

/// `syn::Fields`, carried opaquely.
#[verifier::external_type_specification]
#[verifier::external_body]
pub struct ExSynFields(syn::Fields);

/// `syn::FnArg`, carried opaquely.
#[verifier::external_type_specification]
#[verifier::external_body]
pub struct ExSynFnArg(syn::FnArg);

/// `syn::Variant`, carried opaquely.
#[verifier::external_type_specification]
#[verifier::external_body]
pub struct ExSynVariant(syn::Variant);

/// `syn::Ident`, carried opaquely.
#[verifier::external_type_specification]
#[verifier::external_body]
pub struct ExSynIdent(syn::Ident);

/// `proc_macro2::Span`, carried opaquely.
#[verifier::external_type_specification]
#[verifier::external_body]
pub struct ExSpan(proc_macro2::Span);

/// A function parameter as the parser reports it.
#[derive(Debug, PartialEq, Eq)]
pub enum SynArg {
    /// A `self` receiver.
    Receiver,
    /// A typed parameter: its identifier and the span of the whole
    /// parameter when its pattern is a plain identifier.
    Typed { binding: Option<NamedSpan> },
}

/// The fields of a struct or variant as the parser reports them.
#[derive(Debug, PartialEq, Eq)]
pub enum SynFields {
    /// Braced fields, each with its identifier when it has one.
    Named(Vec<Option<NamedSpan>>),
    /// Tuple fields.
    Unnamed,
    /// No fields.
    Unit,
}

/// An enum variant as the parser reports it.
#[derive(Debug, PartialEq, Eq)]
pub struct SynVariant {
    pub variant: NamedSpan,
    pub fields: SynFields,
}

/// An item of a Rust source file as the parser reports it.
#[derive(Debug, PartialEq, Eq)]
pub enum SynItem {
    Fn { item: NamedSpan, inputs: Vec<SynArg> },
    Struct { item: NamedSpan, fields: SynFields },
    Enum { item: NamedSpan, variants: Vec<SynVariant> },
    /// A module: its items when they stand inside its braces, `None` when
    /// they are in a file of their own.
    Mod { name: String, inline: Option<Vec<SynItem>> },
    Other,
}

/// The items that `syn::parse_file` reads from `contents`, each reported as
/// plain values (identifiers as text, spans as one-based lines and
/// zero-based columns counted in characters), or `None` where the parser
/// rejects the text.
pub uninterp spec fn rust_syntax_items(contents: Seq<char>) -> Option<Seq<SynItem>>;

/// The start and end that `span` reports.
#[verifier::external_body]
fn syn_span(span: proc_macro2::Span) -> ParsedSpan {
    let (start, end) = (span.start(), span.end());
    ParsedSpan {
        start: LineColumn { line: start.line, column: start.column },
        end: LineColumn { line: end.line, column: end.column },
    }
}

/// An identifier with its own span and the span of its declaration.
#[verifier::external_body]
fn syn_named(ident: &syn::Ident, span: proc_macro2::Span) -> NamedSpan {
    NamedSpan { name: ident.to_string(), name_span: syn_span(ident.span()), span: syn_span(span) }
}

/// A function parameter, one arm per parser variant.
#[verifier::external_body]
fn syn_arg(arg: &syn::FnArg) -> SynArg {
    match arg {
        syn::FnArg::Receiver(_) => SynArg::Receiver,
        syn::FnArg::Typed(typed) => SynArg::Typed {
            binding: match typed.pat.as_ref() {
                syn::Pat::Ident(p) => Some(syn_named(&p.ident, typed.span())),
                _ => None,
            },
        },
    }
}

/// Fields, one arm per parser variant, each field as reported.
#[verifier::external_body]
fn syn_fields(fields: &syn::Fields) -> SynFields {
    match fields {
        syn::Fields::Named(named) => SynFields::Named(
            named.named.iter().map(|f| f.ident.as_ref().map(|i| syn_named(i, f.span()))).collect(),
        ),
        syn::Fields::Unnamed(_) => SynFields::Unnamed,
        syn::Fields::Unit => SynFields::Unit,
    }
}

/// An enum variant and its fields.
#[verifier::external_body]
fn syn_variant(variant: &syn::Variant) -> SynVariant {
    SynVariant { variant: syn_named(&variant.ident, variant.span()), fields: syn_fields(&variant.fields) }
}

/// A function and each of its parameters.
#[verifier::external_body]
fn syn_fn(f: &syn::ItemFn) -> SynItem {
    SynItem::Fn { item: syn_named(&f.sig.ident, f.span()), inputs: f.sig.inputs.iter().map(syn_arg).collect() }
}

/// An item, one arm per parser variant that the index reads.
#[verifier::external_body]
fn syn_item(item: &syn::Item) -> SynItem {
    match item {
        syn::Item::Fn(f) => syn_fn(f),
        syn::Item::Struct(s) => SynItem::Struct { item: syn_named(&s.ident, s.span()), fields: syn_fields(&s.fields) },
        syn::Item::Enum(e) => SynItem::Enum {
            item: syn_named(&e.ident, e.span()),
            variants: e.variants.iter().map(syn_variant).collect(),
        },
        syn::Item::Mod(m) => SynItem::Mod { name: m.ident.to_string(), inline: m.content.as_ref().map(|c| syn_items(&c.1)) },
        _ => SynItem::Other,
    }
}

/// A list of items, each as reported.
#[verifier::external_body]
fn syn_items(items: &[syn::Item]) -> Vec<SynItem> {
    items.iter().map(syn_item).collect()
}

/// Calls `syn::parse_file` on `contents` and reports its items as plain
/// values: what the parser gives is a function of the text alone, named
/// [`rust_syntax_items`]; a rejected text gives the parser's message.
#[verifier::external_body]
fn parse_rust_items(contents: &str) -> (r: Result<Vec<SynItem>, String>)
    ensures
        match rust_syntax_items(contents@) {
            Some(items) => r matches Ok(v) && v@ == items,
            None => r is Err,
        },
{
    match syn::parse_file(contents) {
        Ok(file) => Ok(syn_items(&file.items)),
        Err(error) => Err(error.to_string()),
    }
}

/// The identifiers of the fields that carry one, in order.
pub open spec fn spec_some_fields(fs: Seq<Option<NamedSpan>>) -> Seq<NamedSpan>
    decreases fs.len(),
{
    if fs.len() == 0 {
        Seq::empty()
    } else {
        let rest = spec_some_fields(fs.drop_last());
        match fs.last() {
            Some(n) => rest.push(n),
            None => rest,
        }
    }
}

/// The named fields that the index reads: those of braced fields that
/// carry an identifier; tuple and unit fields give none.
pub open spec fn spec_named_fields(fields: SynFields) -> Seq<NamedSpan> {
    match fields {
        SynFields::Named(v) => spec_some_fields(v@),
        _ => Seq::empty(),
    }
}

/// The parameters that the index reads: typed parameters bound to a plain
/// identifier, in order; receivers and other patterns are left out.
pub open spec fn spec_params(args: Seq<SynArg>) -> Seq<NamedSpan>
    decreases args.len(),
{
    if args.len() == 0 {
        Seq::empty()
    } else {
        let rest = spec_params(args.drop_last());
        match args.last() {
            SynArg::Typed { binding: Some(n) } => rest.push(n),
            _ => rest,
        }
    }
}

/// Whether `p` is the variant that the index reads of `s`.
pub open spec fn variant_from(p: ParsedVariant, s: SynVariant) -> bool {
    p.variant == s.variant && p.fields@ == spec_named_fields(s.fields)
}

/// Whether `ps` are the variants that the index reads of `ss`.
pub open spec fn variants_from(ps: Seq<ParsedVariant>, ss: Seq<SynVariant>) -> bool {
    ps.len() == ss.len() && forall|i: int| 0 <= i < ss.len() ==> variant_from(#[trigger] ps[i], ss[i])
}

/// Whether `p` is the item that the index reads of the parsed item `s`:
/// the same names and spans, parameters and fields reduced as above, and
/// a module whose items are in a file of their own left for the caller to
/// read.
pub open spec fn item_from(p: ParsedItem, s: SynItem) -> bool
    decreases s, 1int,
{
    match s {
        SynItem::Fn { item, inputs } => p matches ParsedItem::Fn { item: pi, params }
            && pi == item && params@ == spec_params(inputs@),
        SynItem::Struct { item, fields } => p matches ParsedItem::Struct { item: pi, fields: pf }
            && pi == item && pf@ == spec_named_fields(fields),
        SynItem::Enum { item, variants } => p matches ParsedItem::Enum { item: pi, variants: pv }
            && pi == item && variants_from(pv@, variants@),
        SynItem::Mod { name, inline } => p matches ParsedItem::Mod { name: pn, content }
            && pn == name && match inline {
                Some(v) => content matches ModuleContent::Inline(pi) && items_from(pi@, v@),
                None => content is Absent,
            },
        SynItem::Other => p is Other,
    }
}

/// Whether `ps` are the items that the index reads of `ss`, in order.
pub open spec fn items_from(ps: Seq<ParsedItem>, ss: Seq<SynItem>) -> bool
    decreases ss, 0int,
{
    if ss.len() == 0 {
        ps.len() == 0
    } else {
        ps.len() == ss.len() && items_from(ps.drop_last(), ss.drop_last()) && item_from(ps.last(), ss.last())
    }
}

/// The identifiers of the fields that carry one, in order.
fn some_fields(fields: Vec<Option<NamedSpan>>) -> (r: Vec<NamedSpan>)
    ensures
        r@ == spec_some_fields(fields@),
{
    let ghost orig = fields@;
    let ghost mut k: int = 0;
    let mut rest = fields;
    let mut out: Vec<NamedSpan> = Vec::new();
    while rest.len() > 0
        invariant
            0 <= k <= orig.len(),
            rest@ == orig.skip(k),
            out@ == spec_some_fields(orig.take(k)),
        decreases rest.len(),
    {
        let f = rest.remove(0);
        proof {
            assert(orig.take(k + 1).drop_last() =~= orig.take(k));
            assert(orig.skip(k + 1) =~= orig.skip(k).remove(0));
        }
        match f {
            Some(n) => out.push(n),
            None => {},
        }
        proof {
            k = k + 1;
        }
    }
    assert(orig.take(k) =~= orig);
    out
}

/// The named fields that the index reads of `fields`.
fn named_fields(fields: SynFields) -> (r: Vec<NamedSpan>)
    ensures
        r@ == spec_named_fields(fields),
{
    match fields {
        SynFields::Named(v) => some_fields(v),
        _ => Vec::new(),
    }
}

/// The parameters that the index reads of `inputs`.
fn params_of(inputs: Vec<SynArg>) -> (r: Vec<NamedSpan>)
    ensures
        r@ == spec_params(inputs@),
{
    let ghost orig = inputs@;
    let ghost mut k: int = 0;
    let mut rest = inputs;
    let mut out: Vec<NamedSpan> = Vec::new();
    while rest.len() > 0
        invariant
            0 <= k <= orig.len(),
            rest@ == orig.skip(k),
            out@ == spec_params(orig.take(k)),
        decreases rest.len(),
    {
        let a = rest.remove(0);
        proof {
            assert(orig.take(k + 1).drop_last() =~= orig.take(k));
            assert(orig.skip(k + 1) =~= orig.skip(k).remove(0));
        }
        match a {
            SynArg::Typed { binding: Some(n) } => out.push(n),
            _ => {},
        }
        proof {
            k = k + 1;
        }
    }
    assert(orig.take(k) =~= orig);
    out
}

/// The variants that the index reads of `variants`.
fn variants_of(variants: Vec<SynVariant>) -> (r: Vec<ParsedVariant>)
    ensures
        variants_from(r@, variants@),
{
    let ghost orig = variants@;
    let ghost mut k: int = 0;
    let mut rest = variants;
    let mut out: Vec<ParsedVariant> = Vec::new();
    while rest.len() > 0
        invariant
            0 <= k <= orig.len(),
            rest@ == orig.skip(k),
            variants_from(out@, orig.take(k)),
        decreases rest.len(),
    {
        let v = rest.remove(0);
        proof {
            assert(orig.skip(k + 1) =~= orig.skip(k).remove(0));
        }
        let SynVariant { variant, fields } = v;
        out.push(ParsedVariant { variant, fields: named_fields(fields) });
        proof {
            k = k + 1;
        }
    }
    assert(orig.take(k) =~= orig);
    out
}

/// The item that the index reads of the parsed item `item`.
fn item_of(item: SynItem) -> (r: ParsedItem)
    ensures
        item_from(r, item),
    decreases item,
{
    match item {
        SynItem::Fn { item, inputs } => ParsedItem::Fn { item, params: params_of(inputs) },
        SynItem::Struct { item, fields } => ParsedItem::Struct { item, fields: named_fields(fields) },
        SynItem::Enum { item, variants } => ParsedItem::Enum { item, variants: variants_of(variants) },
        SynItem::Mod { name, inline } => match inline {
            Some(v) => ParsedItem::Mod { name, content: ModuleContent::Inline(source_items(v)) },
            None => ParsedItem::Mod { name, content: ModuleContent::Absent },
        },
        SynItem::Other => ParsedItem::Other,
    }
}

/// The items that the source index reads of the items the parser
/// reported, in order: each function with its parameters bound to plain
/// identifiers, each struct and variant with its identified braced fields,
/// inline modules with their items, and modules in files of their own with
/// no content, for the caller to read.
pub fn source_items(items: Vec<SynItem>) -> (r: Vec<ParsedItem>)
    ensures
        items_from(r@, items@),
    decreases items,
{
    let ghost orig = items@;
    let ghost whole = items;
    let ghost mut k: int = 0;
    let mut rest = items;
    let mut out: Vec<ParsedItem> = Vec::new();
    #[verifier::loop_isolation(false)]
    while rest.len() > 0
        invariant
            0 <= k <= orig.len(),
            orig == whole@,
            rest@ == orig.skip(k),
            items_from(out@, orig.take(k)),
        decreases rest.len(),
    {
        let s = rest.remove(0);
        proof {
            assert(orig.skip(k + 1) =~= orig.skip(k).remove(0));
            assert(s == orig[k]);
            assert(decreases_to!(whole => s));
        }
        let p = item_of(s);
        let ghost before = out@;
        out.push(p);
        proof {
            assert(orig.take(k + 1).drop_last() =~= orig.take(k));
            assert(out@.drop_last() =~= before);
            assert(orig.take(k + 1).last() == orig[k]);
            k = k + 1;
        }
    }
    assert(orig.take(k) =~= orig);
    out
}

/// The items that the source index reads of the Rust source `contents`,
/// as [`source_items`] reduces what the parser reports; the parser's
/// message where it rejects the text.
pub fn parse_source_items(contents: &str) -> (r: Result<Vec<ParsedItem>, String>)
    ensures
        match rust_syntax_items(contents@) {
            Some(items) => r matches Ok(v) && items_from(v@, items),
            None => r is Err,
        },
{
    match parse_rust_items(contents) {
        Ok(items) => Ok(source_items(items)),
        Err(error) => Err(error),
    }
}

} // verus!
