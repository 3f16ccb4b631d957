//! Scanning Rust source: `#[dataflow]` functions and their accesses, bundles, gate statics and
//! imports.

use quote::ToTokens;
use vstd::prelude::*;
use vstd::string::*;

use crate::ast::{strip, stripped};
use crate::list::{put, Dup};
use crate::lists::{is_cfg, is_cfg_list};
use crate::parse::at_open;
use crate::rust::{attr_of, path_of, Attr, AttrV};
use crate::text::{contains, has, same, text};
use crate::token::{
    close_of, group_end, lex, lexed, ranges, render_tokens, source_text, split_top, top_ranges,
    Delim, Tok, TokV,
};
use crate::verbs::{
    builtin_table, parse_table_text, table_of_text, walk_body, walk_of, Reply, ReplyV, VerbCall,
    VerbCallV, VerbTable, VerbTableV,
};

verus! {

/// A parameter of a function.
#[derive(Debug)]
pub struct Param {
    /// Its name, where its pattern is one.
    pub name: Option<String>,
    /// Its type, as tokens; empty for a receiver.
    pub ty: String,
}

/// What a [`Param`] means.
pub struct ParamV {
    pub name: Option<Seq<char>>,
    pub ty: Seq<char>,
}

impl DeepView for Param {
    type V = ParamV;

    open spec fn deep_view(&self) -> ParamV {
        ParamV {
            name: self.name.deep_view(),
            ty: self.ty.deep_view(),
        }
    }
}

impl Dup for Param {
    fn dup(&self) -> (r: Self) {
        Param {
            name: self.name.dup(),
            ty: self.ty.dup(),
        }
    }
}

/// A function of a source file.
#[derive(Debug)]
pub struct SrcFn {
    /// Its attributes.
    pub attrs: Vec<Attr>,
    /// Its name.
    pub name: String,
    /// Its parameters.
    pub params: Vec<Param>,
    /// Its body, as tokens.
    pub body: String,
}

/// What a [`SrcFn`] means.
pub struct SrcFnV {
    pub attrs: Seq<AttrV>,
    pub name: Seq<char>,
    pub params: Seq<ParamV>,
    pub body: Seq<char>,
}

impl DeepView for SrcFn {
    type V = SrcFnV;

    open spec fn deep_view(&self) -> SrcFnV {
        SrcFnV {
            attrs: self.attrs.deep_view(),
            name: self.name.deep_view(),
            params: self.params.deep_view(),
            body: self.body.deep_view(),
        }
    }
}

impl Dup for SrcFn {
    fn dup(&self) -> (r: Self) {
        SrcFn {
            attrs: self.attrs.dup(),
            name: self.name.dup(),
            params: self.params.dup(),
            body: self.body.dup(),
        }
    }
}

/// A module of a source file.
#[derive(Debug)]
pub struct SrcMod {
    /// Its attributes.
    pub attrs: Vec<Attr>,
    /// Its name.
    pub name: String,
}

/// What a [`SrcMod`] means.
pub struct SrcModV {
    pub attrs: Seq<AttrV>,
    pub name: Seq<char>,
}

impl DeepView for SrcMod {
    type V = SrcModV;

    open spec fn deep_view(&self) -> SrcModV {
        SrcModV {
            attrs: self.attrs.deep_view(),
            name: self.name.deep_view(),
        }
    }
}

impl Dup for SrcMod {
    fn dup(&self) -> (r: Self) {
        SrcMod {
            attrs: self.attrs.dup(),
            name: self.name.dup(),
        }
    }
}

/// A static of a source file.
#[derive(Debug)]
pub struct SrcStatic {
    /// Its name.
    pub name: String,
    /// The line of its name.
    pub line: usize,
    /// The segments of its type, where that is a path.
    pub ty: Option<Vec<String>>,
    /// It has any visibility but the private one.
    pub public: bool,
}

/// What a [`SrcStatic`] means.
pub struct SrcStaticV {
    pub name: Seq<char>,
    pub line: usize,
    pub ty: Option<Seq<Seq<char>>>,
    pub public: bool,
}

impl DeepView for SrcStatic {
    type V = SrcStaticV;

    open spec fn deep_view(&self) -> SrcStaticV {
        SrcStaticV {
            name: self.name.deep_view(),
            line: self.line.deep_view(),
            ty: self.ty.deep_view(),
            public: self.public.deep_view(),
        }
    }
}

impl Dup for SrcStatic {
    fn dup(&self) -> (r: Self) {
        SrcStatic {
            name: self.name.dup(),
            line: self.line.dup(),
            ty: self.ty.dup(),
            public: self.public.dup(),
        }
    }
}

/// A step through an import tree.
#[derive(Debug)]
pub enum UseStep {
    /// Down into `name::`.
    Enter(String),
    /// Back up.
    Leave,
    /// A name is imported.
    Name(String),
    /// A name is imported under another one.
    Rename((String, String)),
    /// Everything is imported.
    Glob,
}

/// What a [`UseStep`] means.
pub enum UseStepV {
    Enter(Seq<char>),
    Leave,
    Name(Seq<char>),
    Rename((Seq<char>, Seq<char>)),
    Glob,
}

impl DeepView for UseStep {
    type V = UseStepV;

    open spec fn deep_view(&self) -> UseStepV {
        match self {
            UseStep::Enter(x) => UseStepV::Enter(x.deep_view()),
            UseStep::Leave => UseStepV::Leave,
            UseStep::Name(x) => UseStepV::Name(x.deep_view()),
            UseStep::Rename(x) => UseStepV::Rename(x.deep_view()),
            UseStep::Glob => UseStepV::Glob,
        }
    }
}

impl Dup for UseStep {
    fn dup(&self) -> (r: Self) {
        match self {
            UseStep::Enter(x) => UseStep::Enter(x.dup()),
            UseStep::Leave => UseStep::Leave,
            UseStep::Name(x) => UseStep::Name(x.dup()),
            UseStep::Rename(x) => UseStep::Rename(x.dup()),
            UseStep::Glob => UseStep::Glob,
        }
    }
}

/// An item of a source file. What an inline module holds follows its `ModOpen`, up to its `ModClose`.
#[derive(Debug)]
pub enum SrcItem {
    /// A function.
    Fn(SrcFn),
    /// A function of an impl block.
    Method(SrcFn),
    /// An inline module begins.
    ModOpen(SrcMod),
    /// The innermost inline module ends.
    ModClose,
    /// A module in a file of its own.
    ModFile(SrcMod),
    /// A static.
    Static(SrcStatic),
    /// An import.
    Use(Vec<UseStep>),
    /// Anything else.
    Other,
}

/// What a [`SrcItem`] means.
pub enum SrcItemV {
    Fn(SrcFnV),
    Method(SrcFnV),
    ModOpen(SrcModV),
    ModClose,
    ModFile(SrcModV),
    Static(SrcStaticV),
    Use(Seq<UseStepV>),
    Other,
}

impl DeepView for SrcItem {
    type V = SrcItemV;

    open spec fn deep_view(&self) -> SrcItemV {
        match self {
            SrcItem::Fn(x) => SrcItemV::Fn(x.deep_view()),
            SrcItem::Method(x) => SrcItemV::Method(x.deep_view()),
            SrcItem::ModOpen(x) => SrcItemV::ModOpen(x.deep_view()),
            SrcItem::ModClose => SrcItemV::ModClose,
            SrcItem::ModFile(x) => SrcItemV::ModFile(x.deep_view()),
            SrcItem::Static(x) => SrcItemV::Static(x.deep_view()),
            SrcItem::Use(x) => SrcItemV::Use(x.deep_view()),
            SrcItem::Other => SrcItemV::Other,
        }
    }
}

impl Dup for SrcItem {
    fn dup(&self) -> (r: Self) {
        match self {
            SrcItem::Fn(x) => SrcItem::Fn(x.dup()),
            SrcItem::Method(x) => SrcItem::Method(x.dup()),
            SrcItem::ModOpen(x) => SrcItem::ModOpen(x.dup()),
            SrcItem::ModClose => SrcItem::ModClose,
            SrcItem::ModFile(x) => SrcItem::ModFile(x.dup()),
            SrcItem::Static(x) => SrcItem::Static(x.dup()),
            SrcItem::Use(x) => SrcItem::Use(x.dup()),
            SrcItem::Other => SrcItem::Other,
        }
    }
}

/// The type `syn::ItemMod`, opaque here.
#[verifier::external_type_specification]
#[verifier::external_body]
pub struct ExSynItemMod(syn::ItemMod);

/// The type `syn::File`, opaque here.
#[verifier::external_type_specification]
#[verifier::external_body]
pub struct ExSynFile(syn::File);

/// The type `syn::FnArg`, opaque here.
#[verifier::external_type_specification]
#[verifier::external_body]
pub struct ExSynFnArg(syn::FnArg);

/// The type `syn::Signature`, opaque here.
#[verifier::external_type_specification]
#[verifier::external_body]
pub struct ExSynSignature(syn::Signature);

/// The type `syn::Block`, opaque here.
#[verifier::external_type_specification]
#[verifier::external_body]
pub struct ExSynBlock(syn::Block);

/// The type `syn::UseTree`, opaque here.
#[verifier::external_type_specification]
#[verifier::external_body]
pub struct ExSynUseTree(syn::UseTree);

/// The items of a source text; `None` where it does not parse.
pub uninterp spec fn source_items(src: Seq<char>) -> Option<Seq<SrcItemV>>;

/// A `syn::FnArg` as plain values.
#[verifier::external_body]
fn param_of(arg: &syn::FnArg) -> Param {
    match arg {
        syn::FnArg::Typed(t) => Param {
            name: match &*t.pat {
                syn::Pat::Ident(p) => Some(p.ident.to_string()),
                _ => None,
            },
            ty: t.ty.to_token_stream().to_string(),
        },
        syn::FnArg::Receiver(_) => Param { name: None, ty: String::new() },
    }
}

/// The parts of a `syn` function as plain values.
#[verifier::external_body]
fn fn_of(attrs: &Vec<syn::Attribute>, sig: &syn::Signature, block: &syn::Block) -> SrcFn {
    SrcFn {
        attrs: attrs.iter().map(attr_of).collect(),
        name: sig.ident.to_string(),
        params: sig.inputs.iter().map(param_of).collect(),
        body: block.to_token_stream().to_string(),
    }
}

/// Appends the steps through a `syn::UseTree` to `out`.
#[verifier::external_body]
fn walk_use(tree: &syn::UseTree, out: &mut Vec<UseStep>) {
    match tree {
        syn::UseTree::Path(p) => {
            out.push(UseStep::Enter(p.ident.to_string()));
            walk_use(&p.tree, out);
            out.push(UseStep::Leave);
        }
        syn::UseTree::Name(n) => out.push(UseStep::Name(n.ident.to_string())),
        syn::UseTree::Rename(r) => out.push(UseStep::Rename((r.ident.to_string(), r.rename.to_string()))),
        syn::UseTree::Group(g) => g.items.iter().for_each(|t| walk_use(t, out)),
        syn::UseTree::Glob(_) => out.push(UseStep::Glob),
    }
}

/// A `syn::ItemMod` as plain values.
#[verifier::external_body]
fn mod_of(attrs: &Vec<syn::Attribute>, name: String) -> SrcMod {
    SrcMod { attrs: attrs.iter().map(attr_of).collect(), name }
}

/// The type of a `syn` static, by its segments, where it is a path.
#[verifier::external_body]
fn static_of(s: &syn::ItemStatic) -> SrcStatic {
    SrcStatic {
        name: s.ident.to_string(),
        line: s.ident.span().start().line,
        ty: match &*s.ty {
            syn::Type::Path(t) => Some(path_of(&t.path).segments),
            _ => None,
        },
        public: !matches!(s.vis, syn::Visibility::Inherited),
    }
}

/// The type `syn::ItemStatic`, opaque here.
#[verifier::external_type_specification]
#[verifier::external_body]
pub struct ExSynItemStatic(syn::ItemStatic);

/// The type `syn::ImplItem`, opaque here.
#[verifier::external_type_specification]
#[verifier::external_body]
pub struct ExSynImplItem(syn::ImplItem);

/// A `syn::ImplItem` as plain values.
#[verifier::external_body]
fn method_of(item: &syn::ImplItem) -> SrcItem {
    match item {
        syn::ImplItem::Fn(f) => SrcItem::Method(fn_of(&f.attrs, &f.sig, &f.block)),
        _ => SrcItem::Other,
    }
}

/// A `syn::UseTree` as an import of plain values.
#[verifier::external_body]
fn use_of(tree: &syn::UseTree) -> SrcItem {
    let mut steps = Vec::new();
    walk_use(tree, &mut steps);
    SrcItem::Use(steps)
}

/// A `syn::ItemMod` as plain values, appended to `out`: its items stand between its two ends.
#[verifier::external_body]
fn walk_mod(m: syn::ItemMod, out: &mut Vec<SrcItem>) {
    match m.content {
        Some((_, items)) => {
            out.push(SrcItem::ModOpen(mod_of(&m.attrs, m.ident.to_string())));
            walk_file(syn::File { shebang: None, attrs: Vec::new(), items }, out);
            out.push(SrcItem::ModClose)
        }
        None => out.push(SrcItem::ModFile(mod_of(&m.attrs, m.ident.to_string()))),
    }
}

/// Appends the items of a `syn::File` to `out`, an inline module with what it holds.
#[verifier::external_body]
fn walk_file(file: syn::File, out: &mut Vec<SrcItem>) {
    file.items.into_iter().for_each(|item| match item {
        syn::Item::Fn(f) => out.push(SrcItem::Fn(fn_of(&f.attrs, &f.sig, &f.block))),
        syn::Item::Impl(i) => i.items.iter().for_each(|m| out.push(method_of(m))),
        syn::Item::Static(s) => out.push(SrcItem::Static(static_of(&s))),
        syn::Item::Use(u) => out.push(use_of(&u.tree)),
        syn::Item::Mod(m) => walk_mod(m, out),
        _ => out.push(SrcItem::Other),
    })
}

/// Parses a source text with `syn::parse_file` into its items. What the parser makes of a text is
/// named, not stated.
#[verifier::external_body]
pub(crate) fn parse_items_of(src: &str) -> (r: Option<Vec<SrcItem>>)
    ensures
        r.deep_view() == source_items(src@),
{
    let file = syn::parse_file(src).ok()?;
    let mut out = Vec::new();
    walk_file(file, &mut out);
    Some(out)
}

/// The last word of a text's path-like beginning: the last identifier of `s[p..e]` before a group
/// or a `=`.
pub open spec fn path_tail(s: Seq<TokV>, p: int, e: int, last: Seq<char>) -> Seq<char>
    decreases e - p,
{
    if p >= e {
        last
    } else {
        match s[p] {
            TokV::Open(_) => last,
            TokV::Ident { name, line } => path_tail(s, p + 1, e, name),
            TokV::Punct { ch, joint } => if ch == '=' {
                last
            } else {
                path_tail(s, p + 1, e, last)
            },
            _ => path_tail(s, p + 1, e, last),
        }
    }
}

fn read_path_tail(toks: &Vec<Tok>, p: usize, e: usize) -> (r: String)
    requires
        p <= e <= toks@.len(),
    ensures
        r@ == path_tail(toks.deep_view(), p as int, e as int, ""@),
{
    let ghost s = toks.deep_view();
    let mut last = text("");
    let mut i: usize = p;
    while i < e
        invariant
            p <= i <= e <= toks@.len(),
            s == toks.deep_view(),
            path_tail(s, p as int, e as int, ""@) == path_tail(s, i as int, e as int, last@),
        decreases e - i,
    {
        match &toks[i] {
            Tok::Open(_) => {
                return last;
            },
            Tok::Ident { name, line } => {
                last = name.clone();
            },
            Tok::Punct { ch, joint } => {
                if *ch == '=' {
                    return last;
                }
            },
            _ => {},
        }
        i = i + 1;
    }
    last
}

/// The tokens in the first parentheses of `s[p..e]`, as a text.
pub open spec fn paren_text(s: Seq<TokV>, p: int, e: int) -> Option<Seq<char>>
    decreases e - p,
{
    if p >= e {
        None
    } else if s[p] == TokV::Open(Delim::Paren) {
        Some(source_text(s, p + 1, close_of(s, p, e)))
    } else {
        paren_text(s, p + 1, e)
    }
}

fn read_paren_text(toks: &Vec<Tok>, p: usize, e: usize) -> (r: Option<String>)
    requires
        p <= e <= toks@.len(),
    ensures
        r.deep_view() == paren_text(toks.deep_view(), p as int, e as int),
{
    let ghost s = toks.deep_view();
    let mut i: usize = p;
    while i < e
        invariant
            p <= i <= e <= toks@.len(),
            s == toks.deep_view(),
            paren_text(s, p as int, e as int) == paren_text(s, i as int, e as int),
        decreases e - i,
    {
        if at_open(toks, i, e, Delim::Paren) {
            let c = group_end(toks, i, e);
            return Some(render_tokens(toks, i + 1, c));
        }
        i = i + 1;
    }
    None
}

/// A `dataflow` attribute of a function.
#[derive(Debug)]
pub struct Mark {
    /// The predicate it stands behind, for `cfg_attr(predicate, dataflow)`, without spaces.
    pub gate: Option<String>,
    /// Its arguments, as tokens.
    pub args: Option<String>,
}

/// What a [`Mark`] means.
pub struct MarkV {
    pub gate: Option<Seq<char>>,
    pub args: Option<Seq<char>>,
}

impl DeepView for Mark {
    type V = MarkV;

    open spec fn deep_view(&self) -> MarkV {
        MarkV {
            gate: self.gate.deep_view(),
            args: self.args.deep_view(),
        }
    }
}

impl Dup for Mark {
    fn dup(&self) -> (r: Self) {
        Mark {
            gate: self.gate.dup(),
            args: self.args.dup(),
        }
    }
}


/// The `dataflow` attribute among the ranges `r[i..]` of the tokens of a `cfg_attr`, behind the
/// predicate `gate`.
pub open spec fn gated_mark(s: Seq<TokV>, r: Seq<(int, int)>, i: int, gate: Seq<char>) -> Option<MarkV>
    decreases r.len() - i,
{
    if i >= r.len() {
        None
    } else if path_tail(s, r[i].0, r[i].1, ""@) == "dataflow"@ {
        Some(MarkV { gate: Some(gate), args: paren_text(s, r[i].0, r[i].1) })
    } else {
        gated_mark(s, r, i + 1, gate)
    }
}

/// The `dataflow` attribute that the list of a `cfg_attr` holds.
pub open spec fn cfg_attr_mark(list: Seq<char>) -> Option<MarkV> {
    match lexed(list) {
        Err(_) => None,
        Ok(s) => {
            let r = top_ranges(s, ',', 0, s.len() as int);
            if r.len() == 0 {
                None
            } else {
                gated_mark(s, r, 1, stripped(source_text(s, r[0].0, r[0].1)))
            }
        },
    }
}

/// The `dataflow` attribute that an attribute is, by itself or behind a `cfg_attr`.
pub open spec fn mark_of(a: AttrV) -> Option<MarkV> {
    if a.path.len() > 0 && a.path.last() == "dataflow"@ {
        Some(MarkV { gate: None, args: a.list })
    } else if a.path == seq!["cfg_attr"@] && a.list is Some {
        cfg_attr_mark(a.list->0)
    } else {
        None
    }
}

fn read_cfg_attr_mark(list: &str) -> (r: Option<Mark>)
    ensures
        r.deep_view() == cfg_attr_mark(list@),
{
    match lex(list) {
        Err(_) => None,
        Ok(toks) => {
            let ghost s = toks.deep_view();
            let r = split_top(&toks, ',', 0, toks.len());
            if r.len() == 0 {
                return None;
            }
            let head = render_tokens(&toks, r[0].0, r[0].1);
            let gate = strip(head.as_str());
            let mut i: usize = 1;
            while i < r.len()
                invariant
                    1 <= i <= r@.len(),
                    s == toks.deep_view(),
                    ranges(r@) == top_ranges(s, ',', 0, s.len() as int),
                    forall|k: int| 0 <= k < r@.len() ==> 0 <= (#[trigger] r@[k]).0 <= r@[k].1 <= toks@.len(),
                    gate@ == stripped(source_text(s, ranges(r@)[0].0, ranges(r@)[0].1)),
                    gated_mark(s, ranges(r@), 1, gate@) == gated_mark(
                        s,
                        ranges(r@),
                        i as int,
                        gate@,
                    ),
                    lexed(list@) == Ok::<Seq<TokV>, (usize, Seq<char>)>(s),
                decreases r@.len() - i,
            {
                let (a, b) = r[i];
                assert(ranges(r@)[i as int] == (a as int, b as int));
                let tail = read_path_tail(&toks, a, b);
                if same(tail.as_str(), "dataflow") {
                    let args = read_paren_text(&toks, a, b);
                    return Some(Mark { gate: Some(gate), args });
                }
                i = i + 1;
            }
            None
        },
    }
}

impl Attr {
    /// The `dataflow` attribute that this attribute is, by itself or behind a `cfg_attr`.
    pub fn mark(&self) -> (r: Option<Mark>)
        ensures
            r.deep_view() == mark_of(self.deep_view()),
    {
        let n = self.path.len();
        if n > 0 && same(self.path[n - 1].as_str(), "dataflow") {
            return Some(Mark { gate: None, args: self.list.dup() });
        }
        proof {
            if n == 1 && self.path@[0]@ == "cfg_attr"@ {
                assert(self.path.deep_view() == seq!["cfg_attr"@]);
            }
            if self.path.deep_view() == seq!["cfg_attr"@] {
                assert(self.path.deep_view()[0] == "cfg_attr"@);
            }
        }
        if n == 1 && same(self.path[0].as_str(), "cfg_attr") {
            if let Some(list) = &self.list {
                return read_cfg_attr_mark(list.as_str());
            }
        }
        None
    }
}

/// Whether an attribute is a `#[dataflow]` attribute, by itself or behind a `cfg_attr`.
pub fn is_dataflow_attr(a: &Attr) -> (r: bool)
    ensures
        r == mark_of(a.deep_view()) is Some,
{
    a.mark().is_some()
}

/// The first `dataflow` attribute from attribute `i` on, by its position.
pub open spec fn first_mark(attrs: Seq<AttrV>, i: int) -> Option<int>
    decreases attrs.len() - i,
{
    if i >= attrs.len() {
        None
    } else if mark_of(attrs[i]) is Some {
        Some(i)
    } else {
        first_mark(attrs, i + 1)
    }
}

fn find_mark(attrs: &Vec<Attr>) -> (r: Option<usize>)
    ensures
        match r {
            Some(k) => first_mark(attrs.deep_view(), 0) == Some(k as int) && k < attrs@.len()
                && mark_of(attrs.deep_view()[k as int]) is Some,
            None => first_mark(attrs.deep_view(), 0) is None,
        },
{
    let mut i: usize = 0;
    while i < attrs.len()
        invariant
            i <= attrs@.len(),
            first_mark(attrs.deep_view(), 0) == first_mark(attrs.deep_view(), i as int),
        decreases attrs@.len() - i,
    {
        if is_dataflow_attr(&attrs[i]) {
            return Some(i);
        }
        i = i + 1;
    }
    None
}

/// The predicates that a function stands behind: those of its `cfg` attributes, and that of its
/// `dataflow` attribute, which is attribute `k`. The ones of attributes from `i` on, behind `acc`.
pub open spec fn fn_gates(attrs: Seq<AttrV>, k: int, i: int, acc: Seq<Seq<char>>) -> Seq<Seq<char>>
    decreases attrs.len() - i,
{
    if i >= attrs.len() {
        acc
    } else if is_cfg(attrs[i]) {
        fn_gates(attrs, k, i + 1, acc.push(stripped(attrs[i].list->0)))
    } else if i == k && (mark_of(attrs[i])->0).gate is Some {
        fn_gates(attrs, k, i + 1, acc.push((mark_of(attrs[i])->0).gate->0))
    } else {
        fn_gates(attrs, k, i + 1, acc)
    }
}

fn read_fn_gates(attrs: &Vec<Attr>, k: usize) -> (r: Vec<String>)
    requires
        k < attrs@.len(),
        mark_of(attrs.deep_view()[k as int]) is Some,
    ensures
        r.deep_view() == fn_gates(attrs.deep_view(), k as int, 0, Seq::empty()),
{
    let ghost a = attrs.deep_view();
    let mut out: Vec<String> = Vec::new();
    assert(out.deep_view() == Seq::<Seq<char>>::empty());
    let mut i: usize = 0;
    while i < attrs.len()
        invariant
            i <= attrs@.len(),
            k < attrs@.len(),
            a == attrs.deep_view(),
            mark_of(a[k as int]) is Some,
            fn_gates(a, k as int, 0, Seq::empty()) == fn_gates(a, k as int, i as int, out.deep_view()),
        decreases attrs@.len() - i,
    {
        if is_cfg_list(&attrs[i]) {
            if let Some(list) = &attrs[i].list {
                let t = strip(list.as_str());
                put(&mut out, t);
            }
        } else if i == k {
            if let Some(m) = attrs[i].mark() {
                if let Some(g) = m.gate {
                    put(&mut out, g);
                }
            }
        }
        i = i + 1;
    }
    out
}

/// The first parameter from `i` on whose type mentions `TaskNode` and that has a name.
pub open spec fn node_name(params: Seq<ParamV>, i: int) -> Option<Seq<char>>
    decreases params.len() - i,
{
    if i >= params.len() {
        None
    } else if contains(stripped(params[i].ty), "TaskNode"@) && params[i].name is Some {
        params[i].name
    } else {
        node_name(params, i + 1)
    }
}

/// The name of the parameter whose type mentions `TaskNode`.
pub fn node_param(params: &Vec<Param>) -> (r: Option<String>)
    ensures
        r.deep_view() == node_name(params.deep_view(), 0),
{
    let mut i: usize = 0;
    while i < params.len()
        invariant
            i <= params@.len(),
            node_name(params.deep_view(), 0) == node_name(params.deep_view(), i as int),
        decreases params@.len() - i,
    {
        let ty = strip(params[i].ty.as_str());
        if has(ty.as_str(), "TaskNode") && params[i].name.is_some() {
            return params[i].name.dup();
        }
        i = i + 1;
    }
    None
}

/// One dataflow access found in a `#[dataflow]` function.
#[derive(Debug)]
pub struct Access {
    /// The function that holds it.
    pub func: String,
    /// The verb used.
    pub verb: String,
    /// It writes.
    pub write: bool,
    /// The signal.
    pub path: String,
    /// The `cfg` predicates that guard it.
    pub cfgs: Vec<String>,
}

/// What a [`Access`] means.
pub struct AccessV {
    pub func: Seq<char>,
    pub verb: Seq<char>,
    pub write: bool,
    pub path: Seq<char>,
    pub cfgs: Seq<Seq<char>>,
}

impl DeepView for Access {
    type V = AccessV;

    open spec fn deep_view(&self) -> AccessV {
        AccessV {
            func: self.func.deep_view(),
            verb: self.verb.deep_view(),
            write: self.write.deep_view(),
            path: self.path.deep_view(),
            cfgs: self.cfgs.deep_view(),
        }
    }
}

impl Dup for Access {
    fn dup(&self) -> (r: Self) {
        Access {
            func: self.func.dup(),
            verb: self.verb.dup(),
            write: self.write.dup(),
            path: self.path.dup(),
            cfgs: self.cfgs.dup(),
        }
    }
}


/// An access with this direction and signal is in the list.
pub open spec fn accessed(list: Seq<AccessV>, write: bool, path: Seq<char>) -> bool {
    exists|j: int| 0 <= j < list.len() && (#[trigger] list[j]).write == write && list[j].path == path
}

fn has_access(list: &Vec<Access>, write: bool, path: &str) -> (r: bool)
    ensures
        r == accessed(list.deep_view(), write, path@),
{
    let ghost l = list.deep_view();
    let mut j: usize = 0;
    while j < list.len()
        invariant
            j <= list@.len(),
            l == list.deep_view(),
            forall|k: int| 0 <= k < j ==> !((#[trigger] l[k]).write == write && l[k].path == path@),
        decreases list@.len() - j,
    {
        if list[j].write == write && same(list[j].path.as_str(), path) {
            assert(l[j as int].write == write);
            return true;
        }
        j = j + 1;
    }
    false
}

/// The accesses of the calls from `i` on, behind `acc`: one for each signal and direction.
pub open spec fn call_accesses(
    calls: Seq<VerbCallV>,
    i: int,
    func: Seq<char>,
    gates: Seq<Seq<char>>,
    acc: Seq<AccessV>,
) -> Seq<AccessV>
    decreases calls.len() - i,
{
    if i >= calls.len() {
        acc
    } else {
        let c = calls[i];
        call_accesses(
            calls,
            i + 1,
            func,
            gates,
            if accessed(acc, c.write, c.path) {
                acc
            } else {
                acc.push(
                    AccessV { func, verb: c.verb, write: c.write, path: c.path, cfgs: gates + c.cfgs },
                )
            },
        )
    }
}

/// The calls in a body, up to the first that names no signal literally.
pub open spec fn body_calls(body: Seq<char>, node: Seq<char>, verbs: VerbTableV) -> Seq<VerbCallV> {
    match lexed(body) {
        Ok(s) => walk_of(s, node, verbs, Seq::empty()).calls,
        Err(_) => Seq::empty(),
    }
}

/// The verbs that the arguments of a `dataflow` attribute give a function.
pub open spec fn verbs_of(args: Option<Seq<char>>) -> VerbTableV {
    match args {
        Some(list) => table_of_text(list),
        None => builtin_table(),
    }
}

/// The verbs of a function with this `dataflow` attribute; the built-in ones where the attribute
/// registers none, or registers them wrongly.
pub fn verb_table_of(mark: &Mark) -> (r: VerbTable)
    ensures
        r.deep_view() == verbs_of(mark.deep_view().args),
{
    match &mark.args {
        Some(list) => parse_table_text(list.as_str()),
        None => VerbTable::builtin(),
    }
}

/// The accesses of a function.
pub open spec fn fn_accesses(f: SrcFnV) -> Seq<AccessV> {
    match (first_mark(f.attrs, 0), node_name(f.params, 0)) {
        (Some(k), Some(node)) => call_accesses(
            body_calls(f.body, node, verbs_of((mark_of(f.attrs[k])->0).args)),
            0,
            f.name,
            fn_gates(f.attrs, k, 0, Seq::empty()),
            Seq::empty(),
        ),
        _ => Seq::empty(),
    }
}

fn joined_lists(a: &Vec<String>, b: &Vec<String>) -> (r: Vec<String>)
    ensures
        r.deep_view() == a.deep_view() + b.deep_view(),
{
    let mut out = a.dup();
    let mut i: usize = 0;
    assert(a.deep_view() + b.deep_view().take(0) == a.deep_view());
    while i < b.len()
        invariant
            i <= b@.len(),
            out.deep_view() == a.deep_view() + b.deep_view().take(i as int),
        decreases b@.len() - i,
    {
        put(&mut out, b[i].clone());
        i = i + 1;
        assert(out.deep_view() == a.deep_view() + b.deep_view().take(i as int));
    }
    assert(b.deep_view().take(b@.len() as int) == b.deep_view());
    out
}

fn scan_calls(calls: &Vec<VerbCall>, func: &String, gates: &Vec<String>) -> (r: Vec<Access>)
    ensures
        r.deep_view() == call_accesses(
            calls.deep_view(),
            0,
            func@,
            gates.deep_view(),
            Seq::empty(),
        ),
{
    let ghost c = calls.deep_view();
    let mut out: Vec<Access> = Vec::new();
    assert(out.deep_view() == Seq::<AccessV>::empty());
    let mut i: usize = 0;
    while i < calls.len()
        invariant
            i <= calls@.len(),
            c == calls.deep_view(),
            call_accesses(c, 0, func@, gates.deep_view(), Seq::empty()) == call_accesses(
                c,
                i as int,
                func@,
                gates.deep_view(),
                out.deep_view(),
            ),
        decreases calls@.len() - i,
    {
        let call = &calls[i];
        if !has_access(&out, call.write, call.path.as_str()) {
            let cfgs = joined_lists(gates, &call.cfgs);
            put(
                &mut out,
                Access {
                    func: func.clone(),
                    verb: call.verb.clone(),
                    write: call.write,
                    path: call.path.clone(),
                    cfgs,
                },
            );
        }
        i = i + 1;
    }
    out
}

/// The accesses of one function: those of its verb calls, where it is a `#[dataflow]` function with
/// a `TaskNode` parameter.
pub fn scan_fn(f: &SrcFn) -> (r: Vec<Access>)
    ensures
        r.deep_view() == fn_accesses(f.deep_view()),
{
    let none: Vec<Access> = Vec::new();
    assert(none.deep_view() == Seq::<AccessV>::empty());
    let k = match find_mark(&f.attrs) {
        Some(k) => k,
        None => {
            return none;
        },
    };
    let node = match node_param(&f.params) {
        Some(n) => n,
        None => {
            return none;
        },
    };
    let mark = match f.attrs[k].mark() {
        Some(m) => m,
        None => {
            return none;
        },
    };
    let verbs = verb_table_of(&mark);
    let gates = read_fn_gates(&f.attrs, k);
    let calls = match lex(f.body.as_str()) {
        Ok(toks) => {
            let replies: Vec<Reply> = Vec::new();
            assert(replies.deep_view() == Seq::<ReplyV>::empty());
            walk_body(&toks, node.as_str(), &verbs, &replies).calls
        },
        Err(_) => {
            let c: Vec<VerbCall> = Vec::new();
            assert(c.deep_view() == Seq::<VerbCallV>::empty());
            c
        },
    };
    scan_calls(&calls, &f.name, &gates)
}

/// The accesses of the functions among the items from `i` on.
pub open spec fn item_accesses(items: Seq<SrcItemV>, i: int) -> Seq<AccessV>
    decreases items.len() - i,
{
    if i >= items.len() {
        Seq::empty()
    } else {
        (match items[i] {
            SrcItemV::Fn(f) => fn_accesses(f),
            SrcItemV::Method(f) => fn_accesses(f),
            _ => Seq::empty(),
        }) + item_accesses(items, i + 1)
    }
}

/// The accesses of every `#[dataflow]` function of a source text.
pub open spec fn source_accesses(src: Seq<char>) -> Seq<AccessV> {
    match source_items(src) {
        Some(items) => item_accesses(items, 0),
        None => Seq::empty(),
    }
}

pub fn append<T: Dup>(out: &mut Vec<T>, more: &Vec<T>)
    ensures
        final(out).deep_view() == old(out).deep_view() + more.deep_view(),
{
    let mut i: usize = 0;
    assert(out.deep_view() + more.deep_view().take(0) == out.deep_view());
    while i < more.len()
        invariant
            i <= more@.len(),
            out.deep_view() == old(out).deep_view() + more.deep_view().take(i as int),
        decreases more@.len() - i,
    {
        put(out, more[i].dup());
        i = i + 1;
        assert(out.deep_view() == old(out).deep_view() + more.deep_view().take(i as int));
    }
    assert(more.deep_view().take(more@.len() as int) == more.deep_view());
}

/// The accesses of every `#[dataflow]` function among `items`.
pub fn scan_items(items: &Vec<SrcItem>) -> (r: Vec<Access>)
    ensures
        r.deep_view() == item_accesses(items.deep_view(), 0),
{
    let ghost v = items.deep_view();
    let mut out: Vec<Access> = Vec::new();
    let mut i: usize = 0;
    assert(out.deep_view() + item_accesses(v, 0) == item_accesses(v, 0));
    while i < items.len()
        invariant
            i <= items@.len(),
            v == items.deep_view(),
            out.deep_view() + item_accesses(v, i as int) == item_accesses(v, 0),
        decreases items@.len() - i,
    {
        let ghost done = out.deep_view();
        let ghost tail = item_accesses(v, i + 1);
        match &items[i] {
            SrcItem::Fn(f) => {
                let more = scan_fn(f);
                assert(done + (more.deep_view() + tail) == (done + more.deep_view()) + tail);
                append(&mut out, &more);
            },
            SrcItem::Method(f) => {
                let more = scan_fn(f);
                assert(done + (more.deep_view() + tail) == (done + more.deep_view()) + tail);
                append(&mut out, &more);
            },
            _ => {
                assert(done + (Seq::<AccessV>::empty() + tail) == done + tail);
            },
        }
        i = i + 1;
    }
    assert(out.deep_view() + Seq::<AccessV>::empty() == out.deep_view());
    out
}

/// Scans Rust source for `#[dataflow]` functions and appends their accesses to `out`.
pub fn scan_dataflow(src: &str, out: &mut Vec<Access>)
    ensures
        final(out).deep_view() == old(out).deep_view() + source_accesses(src@),
{
    if let Some(items) = parse_items_of(src) {
        let more = scan_items(&items);
        append(out, &more);
    } else {
        assert(out.deep_view() + Seq::<AccessV>::empty() == out.deep_view());
    }
}

proof fn lemma_accesses_differ(
    calls: Seq<VerbCallV>,
    i: int,
    func: Seq<char>,
    gates: Seq<Seq<char>>,
    acc: Seq<AccessV>,
    a: int,
    b: int,
)
    requires
        0 <= i,
        forall|m: int, n: int|
            #![trigger acc[m], acc[n]]
            0 <= m < n < acc.len() ==> acc[m].write != acc[n].write || acc[m].path != acc[n].path,
        0 <= a < b < call_accesses(calls, i, func, gates, acc).len(),
    ensures
        ({
            let all = call_accesses(calls, i, func, gates, acc);
            all[a].write != all[b].write || all[a].path != all[b].path
        }),
    decreases calls.len() - i,
{
    if i < calls.len() {
        let c = calls[i];
        let next = if accessed(acc, c.write, c.path) {
            acc
        } else {
            acc.push(
                AccessV { func, verb: c.verb, write: c.write, path: c.path, cfgs: gates + c.cfgs },
            )
        };
        lemma_accesses_differ(calls, i + 1, func, gates, next, a, b);
    }
}

/// Two accesses of one function differ in their direction or in their signal.
pub proof fn the_accesses_of_a_function_differ(f: SrcFnV, a: int, b: int)
    requires
        0 <= a < b < fn_accesses(f).len(),
    ensures
        fn_accesses(f)[a].write != fn_accesses(f)[b].write || fn_accesses(f)[a].path
            != fn_accesses(f)[b].path,
{
    if let (Some(k), Some(node)) = (first_mark(f.attrs, 0), node_name(f.params, 0)) {
        lemma_accesses_differ(
            body_calls(f.body, node, verbs_of((mark_of(f.attrs[k])->0).args)),
            0,
            f.name,
            fn_gates(f.attrs, k, 0, Seq::empty()),
            Seq::empty(),
            a,
            b,
        );
    }
}

} // verus!
