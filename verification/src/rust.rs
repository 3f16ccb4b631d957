//! The pieces of Rust syntax that graph declarations embed, as plain values: expressions, types,
//! paths, attributes and integer literals. `syn` decides how far each one reaches.

use quote::ToTokens;
use syn::parse::Parser;
use vstd::prelude::*;

use crate::list::Dup;
use crate::token::{flatten, Tok};

verus! {

/// An attribute, without its `#[..]`.
#[derive(Debug)]
pub struct Attr {
    /// The segments of its path.
    pub path: Vec<String>,
    /// The tokens between its delimiters, for `path(..)`.
    pub list: Option<String>,
    /// The string it is set to, for `path = ".."`.
    pub value: Option<String>,
    /// The whole attribute, as tokens.
    pub text: String,
}

/// What a [`Attr`] means.
pub struct AttrV {
    pub path: Seq<Seq<char>>,
    pub list: Option<Seq<char>>,
    pub value: Option<Seq<char>>,
    pub text: Seq<char>,
}

impl DeepView for Attr {
    type V = AttrV;

    open spec fn deep_view(&self) -> AttrV {
        AttrV {
            path: self.path.deep_view(),
            list: self.list.deep_view(),
            value: self.value.deep_view(),
            text: self.text.deep_view(),
        }
    }
}

impl Dup for Attr {
    fn dup(&self) -> (r: Self) {
        Attr {
            path: self.path.dup(),
            list: self.list.dup(),
            value: self.value.dup(),
            text: self.text.dup(),
        }
    }
}

/// A path such as `a::b::C`.
#[derive(Debug)]
pub struct PathText {
    /// It begins with `::`.
    pub leading: bool,
    /// The names of its segments.
    pub segments: Vec<String>,
    /// The whole path, as tokens.
    pub text: String,
}

/// What a [`PathText`] means.
pub struct PathTextV {
    pub leading: bool,
    pub segments: Seq<Seq<char>>,
    pub text: Seq<char>,
}

impl DeepView for PathText {
    type V = PathTextV;

    open spec fn deep_view(&self) -> PathTextV {
        PathTextV {
            leading: self.leading.deep_view(),
            segments: self.segments.deep_view(),
            text: self.text.deep_view(),
        }
    }
}

impl Dup for PathText {
    fn dup(&self) -> (r: Self) {
        PathText {
            leading: self.leading.dup(),
            segments: self.segments.dup(),
            text: self.text.dup(),
        }
    }
}

/// What an expression calls or names.
#[derive(Debug)]
pub enum Callee {
    /// A path, by its segments.
    Path(Vec<String>),
    /// A call of another expression.
    Call(Box<Callee>),
    /// Anything else.
    Other,
}

/// What a [`Callee`] means.
pub enum CalleeV {
    Path(Seq<Seq<char>>),
    Call(Box<CalleeV>),
    Other,
}

/// The meaning of a callee.
pub open spec fn callee_view(c: Callee) -> CalleeV
    decreases c,
{
    match c {
        Callee::Path(p) => CalleeV::Path(p.deep_view()),
        Callee::Call(f) => CalleeV::Call(Box::new(callee_view(*f))),
        Callee::Other => CalleeV::Other,
    }
}

impl DeepView for Callee {
    type V = CalleeV;

    open spec fn deep_view(&self) -> CalleeV {
        callee_view(*self)
    }
}

impl Dup for Callee {
    fn dup(&self) -> (r: Self)
        decreases self,
    {
        match self {
            Callee::Path(p) => Callee::Path(p.dup()),
            Callee::Call(f) => {
                let g = (**f).dup();
                Callee::Call(Box::new(g))
            },
            Callee::Other => Callee::Other,
        }
    }
}

/// What kind of expression a reference is to.
#[derive(Clone, Copy, Debug, PartialEq, Eq, Structural)]
pub enum Referent {
    /// A path.
    Path,
    /// An indexed expression.
    Index,
    /// Anything else.
    Other,
}

/// What a call is given as an argument.
#[derive(Debug)]
pub enum Argument {
    /// A reference to an expression, with its tokens.
    Reference(Referent, String),
    /// Another expression, or none.
    Other,
}

/// What an [`Argument`] means.
pub enum ArgumentV {
    Reference(Referent, Seq<char>),
    Other,
}

impl DeepView for Argument {
    type V = ArgumentV;

    open spec fn deep_view(&self) -> ArgumentV {
        match self {
            Argument::Reference(kind, tokens) => ArgumentV::Reference(*kind, tokens@),
            Argument::Other => ArgumentV::Other,
        }
    }
}

/// The signal that an argument names: that of a reference to a path or to an indexed expression.
pub open spec fn signal_of(a: ArgumentV) -> Option<Seq<char>> {
    match a {
        ArgumentV::Reference(Referent::Path, tokens) => Some(tokens),
        ArgumentV::Reference(Referent::Index, tokens) => Some(tokens),
        _ => None,
    }
}

/// The signal that an argument names, as tokens.
pub fn signal_in(a: Argument) -> (r: Option<String>)
    ensures
        r.deep_view() == signal_of(a.deep_view()),
{
    match a {
        Argument::Reference(Referent::Path, tokens) => Some(tokens),
        Argument::Reference(Referent::Index, tokens) => Some(tokens),
        _ => None,
    }
}

/// The path at the head of a chain of calls, where there is one.
pub open spec fn call_path(c: CalleeV) -> Option<Seq<Seq<char>>>
    decreases c,
{
    match c {
        CalleeV::Path(p) => Some(p),
        CalleeV::Call(f) => call_path(*f),
        CalleeV::Other => None,
    }
}

impl Callee {
    /// The segments of the path at the head of a chain of calls.
    pub fn segments(&self) -> (r: Option<Vec<String>>)
        ensures
            r.deep_view() == call_path(self.deep_view()),
        decreases self,
    {
        match self {
            Callee::Path(p) => Some(p.dup()),
            Callee::Call(f) => f.segments(),
            Callee::Other => None,
        }
    }
}

/// An expression.
#[derive(Debug)]
pub struct ExprText {
    /// Its tokens.
    pub text: String,
    /// What it calls or names.
    pub callee: Callee,
}

/// What a [`ExprText`] means.
pub struct ExprTextV {
    pub text: Seq<char>,
    pub callee: CalleeV,
}

impl DeepView for ExprText {
    type V = ExprTextV;

    open spec fn deep_view(&self) -> ExprTextV {
        ExprTextV {
            text: self.text.deep_view(),
            callee: self.callee.deep_view(),
        }
    }
}

impl Dup for ExprText {
    fn dup(&self) -> (r: Self) {
        ExprText {
            text: self.text.dup(),
            callee: self.callee.dup(),
        }
    }
}

/// An integer literal.
#[derive(Debug)]
pub struct IntLit {
    /// The literal as written.
    pub text: String,
    /// Its value, where it fits.
    pub value: Option<u64>,
    /// Why it has no value, where it has none.
    pub fault: String,
}

/// What a [`IntLit`] means.
pub struct IntLitV {
    pub text: Seq<char>,
    pub value: Option<u64>,
    pub fault: Seq<char>,
}

impl DeepView for IntLit {
    type V = IntLitV;

    open spec fn deep_view(&self) -> IntLitV {
        IntLitV {
            text: self.text.deep_view(),
            value: self.value.deep_view(),
            fault: self.fault.deep_view(),
        }
    }
}

impl Dup for IntLit {
    fn dup(&self) -> (r: Self) {
        IntLit {
            text: self.text.dup(),
            value: self.value.dup(),
            fault: self.fault.dup(),
        }
    }
}

/// The type `syn::Expr`, opaque here.
#[verifier::external_type_specification]
#[verifier::external_body]
pub struct ExSynExpr(syn::Expr);

/// The type `syn::Path`, opaque here.
#[verifier::external_type_specification]
#[verifier::external_body]
pub struct ExSynPath(syn::Path);

/// The type `syn::Attribute`, opaque here.
#[verifier::external_type_specification]
#[verifier::external_body]
pub struct ExSynAttribute(syn::Attribute);

/// The attributes in front of a text, how many tokens follow them, or `syn`'s error.
pub uninterp spec fn attrs_prefix(text: Seq<char>) -> Result<(Seq<AttrV>, usize), Seq<char>>;

/// The expression in front of a text, how many tokens follow it, or `syn`'s error.
pub uninterp spec fn expr_prefix(text: Seq<char>) -> Result<(ExprTextV, usize), Seq<char>>;

/// The tokens of the type in front of a text, how many tokens follow it, or `syn`'s error.
pub uninterp spec fn type_prefix(text: Seq<char>) -> Result<(Seq<char>, usize), Seq<char>>;

/// The path in front of a text, how many tokens follow it, or `syn`'s error.
pub uninterp spec fn path_prefix(text: Seq<char>) -> Result<(PathTextV, usize), Seq<char>>;

/// The integer literal in front of a text, how many tokens follow it, or `syn`'s error.
pub uninterp spec fn int_prefix(text: Seq<char>) -> Result<(IntLitV, usize), Seq<char>>;

/// What a text is as an argument of a call.
pub uninterp spec fn argument_read(text: Seq<char>) -> ArgumentV;

/// The signal that a text names as an argument of a call (`&path` or `&path[i]`), as tokens.
pub open spec fn signal_argument(text: Seq<char>) -> Option<Seq<char>> {
    signal_of(argument_read(text))
}

/// How many tokens a `proc_macro2::TokenStream` holds.
#[verifier::external_body]
fn token_count(stream: proc_macro2::TokenStream) -> usize {
    let mut all: Vec<Tok> = Vec::new();
    flatten(stream, &mut all);
    all.len()
}

/// A `syn::Attribute` as plain values.
#[verifier::external_body]
pub(crate) fn attr_of(a: &syn::Attribute) -> Attr {
    let value = match &a.meta {
        syn::Meta::NameValue(nv) => match &nv.value {
            syn::Expr::Lit(syn::ExprLit { lit: syn::Lit::Str(s), .. }) => Some(s.value()),
            _ => None,
        },
        _ => None,
    };
    let list = match &a.meta {
        syn::Meta::List(l) => Some(l.tokens.to_string()),
        _ => None,
    };
    Attr { path: path_of(a.path()).segments, list, value, text: a.to_token_stream().to_string() }
}

/// A `syn::Path` as plain values.
#[verifier::external_body]
pub(crate) fn path_of(p: &syn::Path) -> PathText {
    PathText {
        leading: p.leading_colon.is_some(),
        segments: p.segments.iter().map(|s| s.ident.to_string()).collect(),
        text: p.to_token_stream().to_string(),
    }
}

/// What a `syn::Expr` calls or names, as plain values.
#[verifier::external_body]
fn callee_of(e: &syn::Expr) -> Callee {
    match e {
        syn::Expr::Path(p) => Callee::Path(path_of(&p.path).segments),
        syn::Expr::Call(c) => Callee::Call(Box::new(callee_of(&c.func))),
        _ => Callee::Other,
    }
}

/// Parses the outer attributes in front of `text` with `syn::Attribute::parse_outer`. What they
/// are, and how many tokens follow them, is named, not stated.
#[verifier::external_body]
pub(crate) fn parse_attrs(text: &str) -> (r: Result<(Vec<Attr>, usize), String>)
    ensures
        match r {
            Ok((a, n)) => attrs_prefix(text@) == Ok::<(Seq<AttrV>, usize), Seq<char>>((a.deep_view(), n)),
            Err(e) => attrs_prefix(text@) == Err::<(Seq<AttrV>, usize), Seq<char>>(e@),
        },
{
    let parser = |input: syn::parse::ParseStream| -> syn::Result<(Vec<syn::Attribute>, proc_macro2::TokenStream)> {
        Ok((input.call(syn::Attribute::parse_outer)?, input.parse()?))
    };
    match parser.parse_str(text) {
        Ok((attrs, rest)) => Ok((attrs.iter().map(attr_of).collect(), token_count(rest))),
        Err(e) => Err(e.to_string()),
    }
}

/// Parses the expression in front of `text` with the `Parse` of `syn::Expr`. What it is, and how
/// many tokens follow it, is named, not stated.
#[verifier::external_body]
pub(crate) fn parse_expr(text: &str) -> (r: Result<(ExprText, usize), String>)
    ensures
        match r {
            Ok((x, n)) => expr_prefix(text@) == Ok::<(ExprTextV, usize), Seq<char>>((x.deep_view(), n)),
            Err(e) => expr_prefix(text@) == Err::<(ExprTextV, usize), Seq<char>>(e@),
        },
{
    let parser = |input: syn::parse::ParseStream| -> syn::Result<(syn::Expr, proc_macro2::TokenStream)> {
        Ok((input.parse()?, input.parse()?))
    };
    match parser.parse_str(text) {
        Ok((x, rest)) => Ok((ExprText { text: x.to_token_stream().to_string(), callee: callee_of(&x) }, token_count(rest))),
        Err(e) => Err(e.to_string()),
    }
}

/// Parses the type in front of `text` with the `Parse` of `syn::Type`, giving its tokens. What they
/// are, and how many tokens follow them, is named, not stated.
#[verifier::external_body]
pub(crate) fn parse_type(text: &str) -> (r: Result<(String, usize), String>)
    ensures
        match r {
            Ok((t, n)) => type_prefix(text@) == Ok::<(Seq<char>, usize), Seq<char>>((t@, n)),
            Err(e) => type_prefix(text@) == Err::<(Seq<char>, usize), Seq<char>>(e@),
        },
{
    let parser = |input: syn::parse::ParseStream| -> syn::Result<(syn::Type, proc_macro2::TokenStream)> {
        Ok((input.parse()?, input.parse()?))
    };
    match parser.parse_str(text) {
        Ok((t, rest)) => Ok((t.to_token_stream().to_string(), token_count(rest))),
        Err(e) => Err(e.to_string()),
    }
}

/// Parses the path in front of `text` with the `Parse` of `syn::Path`. What it is, and how many
/// tokens follow it, is named, not stated.
#[verifier::external_body]
pub(crate) fn parse_path(text: &str) -> (r: Result<(PathText, usize), String>)
    ensures
        match r {
            Ok((p, n)) => path_prefix(text@) == Ok::<(PathTextV, usize), Seq<char>>((p.deep_view(), n)),
            Err(e) => path_prefix(text@) == Err::<(PathTextV, usize), Seq<char>>(e@),
        },
{
    let parser = |input: syn::parse::ParseStream| -> syn::Result<(syn::Path, proc_macro2::TokenStream)> {
        Ok((input.parse()?, input.parse()?))
    };
    match parser.parse_str(text) {
        Ok((p, rest)) => Ok((path_of(&p), token_count(rest))),
        Err(e) => Err(e.to_string()),
    }
}

/// Parses the integer literal in front of `text` with the `Parse` of `syn::LitInt`, and its value as
/// a `u64` with `syn::LitInt::base10_parse`. What it is, and how many tokens follow it, is named,
/// not stated.
#[verifier::external_body]
pub(crate) fn parse_int(text: &str) -> (r: Result<(IntLit, usize), String>)
    ensures
        match r {
            Ok((i, n)) => int_prefix(text@) == Ok::<(IntLitV, usize), Seq<char>>((i.deep_view(), n)),
            Err(e) => int_prefix(text@) == Err::<(IntLitV, usize), Seq<char>>(e@),
        },
{
    let parser = |input: syn::parse::ParseStream| -> syn::Result<(syn::LitInt, proc_macro2::TokenStream)> {
        Ok((input.parse()?, input.parse()?))
    };
    let (lit, rest) = parser.parse_str(text).map_err(|e| e.to_string())?;
    let fault = lit.base10_parse::<u64>().err().map(|e| e.to_string()).unwrap_or_default();
    let value = lit.base10_parse::<u64>().ok();
    Ok((IntLit { text: lit.to_string(), value, fault }, token_count(rest)))
}

/// Reads `text` as an expression with `syn::parse_str` and tells what it is a reference to. What
/// the parser makes of it is named, not stated.
#[verifier::external_body]
fn parse_argument(text: &str) -> (r: Argument)
    ensures
        r.deep_view() == argument_read(text@),
{
    match syn::parse_str::<syn::Expr>(text) {
        Ok(syn::Expr::Reference(r)) => {
            let kind = match &*r.expr {
                syn::Expr::Path(_) => Referent::Path,
                syn::Expr::Index(_) => Referent::Index,
                _ => Referent::Other,
            };
            Argument::Reference(kind, r.expr.to_token_stream().to_string())
        }
        _ => Argument::Other,
    }
}

/// The signal that a text names as an argument of a call, as tokens.
pub fn parse_signal_argument(text: &str) -> (r: Option<String>)
    ensures
        r.deep_view() == signal_argument(text@),
{
    signal_in(parse_argument(text))
}

} // verus!
