//! The elements every list and clause of the graph grammar is made of.

use vstd::prelude::*;
use vstd::string::*;

use crate::rust::{
    attrs_prefix, expr_prefix, int_prefix, parse_attrs, parse_expr, parse_int, parse_path, parse_type,
    path_prefix, type_prefix, Attr, AttrV, ExprText, ExprTextV, IntLit, IntLitV, PathText, PathTextV,
};
use crate::text::{cat2, cat3, chars_of, same, text};
use crate::token::{
    close_of, after_group, group_end, is_punct, is_word, past_group, render_tokens, source_text, Delim,
    Tok, TokV,
};

verus! {

/// The message of a refused declaration.
pub type Fault = Seq<char>;

/// A parse result seen by the meaning of its value and its position.
pub open spec fn outcome<T: DeepView>(r: Result<(T, usize), String>) -> Result<(T::V, int), Fault> {
    match r {
        Ok((x, p)) => Ok((x.deep_view(), p as int)),
        Err(e) => Err(e@),
    }
}

/// A result without a position, seen by the meaning of its value.
pub open spec fn verdict<T: DeepView>(r: Result<T, String>) -> Result<T::V, Fault> {
    match r {
        Ok(x) => Ok(x.deep_view()),
        Err(e) => Err(e@),
    }
}

/// `name` is a word that Rust reserves, so no identifier.
pub open spec fn reserved(name: Seq<char>) -> bool {
    ||| name == "_"@
    ||| name == "abstract"@
    ||| name == "as"@
    ||| name == "async"@
    ||| name == "await"@
    ||| name == "become"@
    ||| name == "box"@
    ||| name == "break"@
    ||| name == "const"@
    ||| name == "continue"@
    ||| name == "crate"@
    ||| name == "do"@
    ||| name == "dyn"@
    ||| name == "else"@
    ||| name == "enum"@
    ||| name == seq!['e', 'x', 't', 'e', 'r', 'n']
    ||| name == "false"@
    ||| name == "final"@
    ||| name == "fn"@
    ||| name == "for"@
    ||| name == "if"@
    ||| name == "impl"@
    ||| name == "in"@
    ||| name == "let"@
    ||| name == "loop"@
    ||| name == "macro"@
    ||| name == "match"@
    ||| name == "mod"@
    ||| name == "move"@
    ||| name == "mut"@
    ||| name == "override"@
    ||| name == "priv"@
    ||| name == "pub"@
    ||| name == "ref"@
    ||| name == "return"@
    ||| name == "Self"@
    ||| name == "self"@
    ||| name == "static"@
    ||| name == "struct"@
    ||| name == "super"@
    ||| name == "trait"@
    ||| name == "true"@
    ||| name == "try"@
    ||| name == "type"@
    ||| name == "typeof"@
    ||| name == "unsafe"@
    ||| name == "unsized"@
    ||| name == "use"@
    ||| name == "virtual"@
    ||| name == "where"@
    ||| name == "while"@
    ||| name == "yield"@
}

fn is_reserved(name: &str) -> (r: bool)
    ensures
        r == reserved(name@),
{
    let v = chars_of(name);
    if v.len() == 6 && v[0] == 'e' && v[1] == 'x' && v[2] == 't' && v[3] == 'e' && v[4] == 'r' && v[5]
        == 'n' {
        assert(name@ == seq!['e', 'x', 't', 'e', 'r', 'n']);
        return true;
    }
    same(name, "_")
        || same(name, "abstract")
        || same(name, "as")
        || same(name, "async")
        || same(name, "await")
        || same(name, "become")
        || same(name, "box")
        || same(name, "break")
        || same(name, "const")
        || same(name, "continue")
        || same(name, "crate")
        || same(name, "do")
        || same(name, "dyn")
        || same(name, "else")
        || same(name, "enum")
        || same(name, "false")
        || same(name, "final")
        || same(name, "fn")
        || same(name, "for")
        || same(name, "if")
        || same(name, "impl")
        || same(name, "in")
        || same(name, "let")
        || same(name, "loop")
        || same(name, "macro")
        || same(name, "match")
        || same(name, "mod")
        || same(name, "move")
        || same(name, "mut")
        || same(name, "override")
        || same(name, "priv")
        || same(name, "pub")
        || same(name, "ref")
        || same(name, "return")
        || same(name, "Self")
        || same(name, "self")
        || same(name, "static")
        || same(name, "struct")
        || same(name, "super")
        || same(name, "trait")
        || same(name, "true")
        || same(name, "try")
        || same(name, "type")
        || same(name, "typeof")
        || same(name, "unsafe")
        || same(name, "unsized")
        || same(name, "use")
        || same(name, "virtual")
        || same(name, "where")
        || same(name, "while")
        || same(name, "yield")
}

/// The message for something missing at `p`: at the end of the tokens it says so.
pub open spec fn expected(p: int, e: int, what: Seq<char>) -> Fault {
    if p >= e {
        "unexpected end of input, "@ + what
    } else {
        what
    }
}

pub fn expected_text(p: usize, e: usize, what: &str) -> (r: String)
    ensures
        r@ == expected(p as int, e as int, what@),
{
    if p >= e {
        cat2("unexpected end of input, ", what)
    } else {
        text(what)
    }
}

/// The identifier `word` stands at `p`.
pub open spec fn word_at(s: Seq<TokV>, p: int, e: int, word: Seq<char>) -> bool {
    p < e && is_word(s[p], word)
}

pub fn at_word(toks: &Vec<Tok>, p: usize, e: usize, word: &str) -> (r: bool)
    requires
        e <= toks@.len(),
    ensures
        r == word_at(toks.deep_view(), p as int, e as int, word@),
{
    p < e && toks[p].is_word(word)
}

/// The punctuation character `c` stands at `p`.
pub open spec fn punct_at(s: Seq<TokV>, p: int, e: int, c: char) -> bool {
    p < e && is_punct(s[p], c)
}

pub fn at_punct(toks: &Vec<Tok>, p: usize, e: usize, c: char) -> (r: bool)
    requires
        e <= toks@.len(),
    ensures
        r == punct_at(toks.deep_view(), p as int, e as int, c),
{
    p < e && toks[p].is_punct(c)
}

/// A group with delimiter `d` opens at `p`.
pub open spec fn open_at(s: Seq<TokV>, p: int, e: int, d: Delim) -> bool {
    p < e && s[p] == TokV::Open(d)
}

pub fn at_open(toks: &Vec<Tok>, p: usize, e: usize, d: Delim) -> (r: bool)
    requires
        e <= toks@.len(),
    ensures
        r == open_at(toks.deep_view(), p as int, e as int, d),
{
    if p < e {
        match &toks[p] {
            Tok::Open(x) => *x == d,
            _ => false,
        }
    } else {
        false
    }
}

/// An identifier that is no reserved word stands at `p`.
pub open spec fn ident_at(s: Seq<TokV>, p: int, e: int) -> bool {
    p < e && (s[p] matches TokV::Ident { name, line } && !reserved(name))
}

pub fn at_ident(toks: &Vec<Tok>, p: usize, e: usize) -> (r: bool)
    requires
        e <= toks@.len(),
    ensures
        r == ident_at(toks.deep_view(), p as int, e as int),
{
    if p < e {
        match &toks[p] {
            Tok::Ident { name, line } => !is_reserved(name.as_str()),
            _ => false,
        }
    } else {
        false
    }
}

/// The name of the identifier `t`.
pub open spec fn name_of(t: TokV) -> Seq<char> {
    match t {
        TokV::Ident { name, line } => name,
        _ => Seq::empty(),
    }
}

/// Reads an identifier at `p`.
pub open spec fn take_ident(s: Seq<TokV>, p: int, e: int) -> Result<(Seq<char>, int), Fault> {
    if p < e {
        match s[p] {
            TokV::Ident { name, line } => if reserved(name) {
                Err("expected identifier, found keyword `"@ + name + "`"@)
            } else {
                Ok((name, p + 1))
            },
            _ => Err("expected identifier"@),
        }
    } else {
        Err(expected(p, e, "expected identifier"@))
    }
}

pub fn read_ident(toks: &Vec<Tok>, p: usize, e: usize) -> (r: Result<(String, usize), String>)
    requires
        p <= e <= toks@.len(),
    ensures
        outcome(r) == take_ident(toks.deep_view(), p as int, e as int),
        r matches Ok((_, q)) ==> p < q <= e,
{
    if p < e {
        match &toks[p] {
            Tok::Ident { name, line } => if is_reserved(name.as_str()) {
                Err(cat3("expected identifier, found keyword `", name.as_str(), "`"))
            } else {
                Ok((name.clone(), p + 1))
            },
            _ => Err(text("expected identifier")),
        }
    } else {
        Err(expected_text(p, e, "expected identifier"))
    }
}

/// Reads the identifier `word` at `p`.
pub open spec fn take_word(s: Seq<TokV>, p: int, e: int, word: Seq<char>) -> Result<int, Fault> {
    if word_at(s, p, e, word) {
        Ok(p + 1)
    } else {
        Err(expected(p, e, "expected `"@ + word + "`"@))
    }
}

pub fn read_word(toks: &Vec<Tok>, p: usize, e: usize, word: &str) -> (r: Result<usize, String>)
    requires
        p <= e <= toks@.len(),
    ensures
        position(r) == take_word(toks.deep_view(), p as int, e as int, word@),
        r matches Ok(q) ==> p < q <= e,
{
    if at_word(toks, p, e, word) {
        Ok(p + 1)
    } else {
        let what = cat3("expected `", word, "`");
        Err(expected_text(p, e, what.as_str()))
    }
}

/// A result that is a position alone.
pub open spec fn position(r: Result<usize, String>) -> Result<int, Fault> {
    match r {
        Ok(p) => Ok(p as int),
        Err(e) => Err(e@),
    }
}

/// Reads the punctuation character `c` at `p`.
pub open spec fn take_punct(s: Seq<TokV>, p: int, e: int, c: char) -> Result<int, Fault> {
    if punct_at(s, p, e, c) {
        Ok(p + 1)
    } else {
        Err(expected(p, e, "expected `"@ + seq![c] + "`"@))
    }
}

pub fn read_punct(toks: &Vec<Tok>, p: usize, e: usize, c: char) -> (r: Result<usize, String>)
    requires
        p <= e <= toks@.len(),
    ensures
        position(r) == take_punct(toks.deep_view(), p as int, e as int, c),
        r matches Ok(q) ==> p < q <= e,
{
    if at_punct(toks, p, e, c) {
        Ok(p + 1)
    } else {
        let mut mark = String::new();
        mark.push(c);
        assert(mark@ == seq![c]);
        let what = cat3("expected `", mark.as_str(), "`");
        Err(expected_text(p, e, what.as_str()))
    }
}

/// What is said where a group is missing.
pub open spec fn group_wanted(d: Delim) -> Seq<char> {
    match d {
        Delim::Paren => "expected parentheses"@,
        Delim::Bracket => "expected square brackets"@,
        Delim::Brace => "expected curly braces"@,
    }
}

/// Reads a group with delimiter `d` at `p`: where its contents end, and where it ends.
pub open spec fn take_group(s: Seq<TokV>, p: int, e: int, d: Delim) -> Result<(int, int), Fault> {
    if open_at(s, p, e, d) {
        Ok((close_of(s, p, e), past_group(s, p, e)))
    } else {
        Err(expected(p, e, group_wanted(d)))
    }
}

pub fn read_group(toks: &Vec<Tok>, p: usize, e: usize, d: Delim) -> (r: Result<(usize, usize), String>)
    requires
        p <= e <= toks@.len(),
    ensures
        match r {
            Ok((c, q)) => take_group(toks.deep_view(), p as int, e as int, d) == Ok::<(int, int), Fault>((c as int, q as int)) && p < c <= e && p < q <= e,
            Err(m) => take_group(toks.deep_view(), p as int, e as int, d) == Err::<(int, int), Fault>(m@),
        },
{
    if at_open(toks, p, e, d) {
        Ok((group_end(toks, p, e), after_group(toks, p, e)))
    } else {
        let what = match d {
            Delim::Paren => "expected parentheses",
            Delim::Bracket => "expected square brackets",
            Delim::Brace => "expected curly braces",
        };
        Err(expected_text(p, e, what))
    }
}

/// The position `rest` tokens before `e`, past `p` at least.
pub open spec fn advance(p: int, e: int, rest: usize) -> int {
    if p + rest < e {
        e - rest
    } else if p < e {
        p + 1
    } else {
        e
    }
}

fn advanced(p: usize, e: usize, rest: usize) -> (r: usize)
    requires
        p <= e,
    ensures
        r == advance(p as int, e as int, rest),
        p <= r <= e,
        p < e ==> p < r,
{
    if rest < e - p {
        e - rest
    } else if p < e {
        p + 1
    } else {
        e
    }
}

/// Reads the attributes at `p`.
pub open spec fn take_attrs(s: Seq<TokV>, p: int, e: int) -> Result<(Seq<AttrV>, int), Fault> {
    if punct_at(s, p, e, '#') {
        match attrs_prefix(source_text(s, p, e)) {
            Ok((a, rest)) => Ok((a, advance(p, e, rest))),
            Err(m) => Err(m),
        }
    } else {
        Ok((Seq::empty(), p))
    }
}

pub fn read_attrs(toks: &Vec<Tok>, p: usize, e: usize) -> (r: Result<(Vec<Attr>, usize), String>)
    requires
        p <= e <= toks@.len(),
    ensures
        outcome(r) == take_attrs(toks.deep_view(), p as int, e as int),
        r matches Ok((_, q)) ==> p <= q <= e,
{
    if at_punct(toks, p, e, '#') {
        let src = render_tokens(toks, p, e);
        let (a, rest) = parse_attrs(src.as_str())?;
        Ok((a, advanced(p, e, rest)))
    } else {
        let none: Vec<Attr> = Vec::new();
        assert(none.deep_view() == Seq::<AttrV>::empty());
        Ok((none, p))
    }
}

/// Reads an expression at `p`.
pub open spec fn take_expr(s: Seq<TokV>, p: int, e: int) -> Result<(ExprTextV, int), Fault> {
    match expr_prefix(source_text(s, p, e)) {
        Ok((x, rest)) => Ok((x, advance(p, e, rest))),
        Err(m) => Err(m),
    }
}

pub fn read_expr(toks: &Vec<Tok>, p: usize, e: usize) -> (r: Result<(ExprText, usize), String>)
    requires
        p <= e <= toks@.len(),
    ensures
        outcome(r) == take_expr(toks.deep_view(), p as int, e as int),
        r matches Ok((_, q)) ==> p <= q <= e && (p < e ==> p < q),
{
    let src = render_tokens(toks, p, e);
    let (x, rest) = parse_expr(src.as_str())?;
    Ok((x, advanced(p, e, rest)))
}

/// Reads a type at `p`.
pub open spec fn take_type(s: Seq<TokV>, p: int, e: int) -> Result<(Seq<char>, int), Fault> {
    match type_prefix(source_text(s, p, e)) {
        Ok((x, rest)) => Ok((x, advance(p, e, rest))),
        Err(m) => Err(m),
    }
}

pub fn read_type(toks: &Vec<Tok>, p: usize, e: usize) -> (r: Result<(String, usize), String>)
    requires
        p <= e <= toks@.len(),
    ensures
        outcome(r) == take_type(toks.deep_view(), p as int, e as int),
        r matches Ok((_, q)) ==> p <= q <= e && (p < e ==> p < q),
{
    let src = render_tokens(toks, p, e);
    let (x, rest) = parse_type(src.as_str())?;
    Ok((x, advanced(p, e, rest)))
}

/// Reads a path at `p`.
pub open spec fn take_path(s: Seq<TokV>, p: int, e: int) -> Result<(PathTextV, int), Fault> {
    match path_prefix(source_text(s, p, e)) {
        Ok((x, rest)) => Ok((x, advance(p, e, rest))),
        Err(m) => Err(m),
    }
}

pub fn read_path(toks: &Vec<Tok>, p: usize, e: usize) -> (r: Result<(PathText, usize), String>)
    requires
        p <= e <= toks@.len(),
    ensures
        outcome(r) == take_path(toks.deep_view(), p as int, e as int),
        r matches Ok((_, q)) ==> p <= q <= e && (p < e ==> p < q),
{
    let src = render_tokens(toks, p, e);
    let (x, rest) = parse_path(src.as_str())?;
    Ok((x, advanced(p, e, rest)))
}

/// Reads an integer literal at `p`.
pub open spec fn take_int(s: Seq<TokV>, p: int, e: int) -> Result<(IntLitV, int), Fault> {
    match int_prefix(source_text(s, p, e)) {
        Ok((x, rest)) => Ok((x, advance(p, e, rest))),
        Err(m) => Err(m),
    }
}

pub fn read_int(toks: &Vec<Tok>, p: usize, e: usize) -> (r: Result<(IntLit, usize), String>)
    requires
        p <= e <= toks@.len(),
    ensures
        outcome(r) == take_int(toks.deep_view(), p as int, e as int),
        r matches Ok((_, q)) ==> p <= q <= e && (p < e ==> p < q),
{
    let src = render_tokens(toks, p, e);
    let (x, rest) = parse_int(src.as_str())?;
    Ok((x, advanced(p, e, rest)))
}

/// The position behind an optional `,`.
pub open spec fn skip_comma(s: Seq<TokV>, p: int, e: int) -> int {
    if punct_at(s, p, e, ',') {
        p + 1
    } else {
        p
    }
}

pub fn past_comma(toks: &Vec<Tok>, p: usize, e: usize) -> (r: usize)
    requires
        p <= e <= toks@.len(),
    ensures
        r == skip_comma(toks.deep_view(), p as int, e as int),
        p <= r <= e,
{
    if at_punct(toks, p, e, ',') {
        p + 1
    } else {
        p
    }
}

} // verus!
