//! Rust tokens as a flat sequence, groups marked by their delimiters.

use vstd::prelude::*;
use vstd::string::*;

use crate::list::{put, Dup};
use crate::text::{same, text};

verus! {

/// The delimiter of a token group.
#[derive(Clone, Copy, Debug, PartialEq, Eq, Structural)]
pub enum Delim {
    /// `( .. )`
    Paren,
    /// `[ .. ]`
    Bracket,
    /// `{ .. }`
    Brace,
}

/// One token.
#[derive(Debug)]
pub enum Tok {
    /// An identifier or keyword, and the line it stands on.
    Ident { name: String, line: usize },
    /// One punctuation character; `joint` where the next one belongs to it.
    Punct { ch: char, joint: bool },
    /// A literal, as written.
    Lit { text: String },
    /// The opening delimiter of a group.
    Open(Delim),
    /// The closing delimiter of a group.
    Close(Delim),
}

/// What a [`Tok`] means.
pub enum TokV {
    Ident { name: Seq<char>, line: usize },
    Punct { ch: char, joint: bool },
    Lit { text: Seq<char> },
    Open(Delim),
    Close(Delim),
}

impl DeepView for Tok {
    type V = TokV;

    open spec fn deep_view(&self) -> TokV {
        match self {
            Tok::Ident { name, line } => TokV::Ident { name: name@, line: *line },
            Tok::Punct { ch, joint } => TokV::Punct { ch: *ch, joint: *joint },
            Tok::Lit { text } => TokV::Lit { text: text@ },
            Tok::Open(d) => TokV::Open(*d),
            Tok::Close(d) => TokV::Close(*d),
        }
    }
}

impl Dup for Tok {
    fn dup(&self) -> (r: Self) {
        match self {
            Tok::Ident { name, line } => Tok::Ident { name: name.clone(), line: *line },
            Tok::Punct { ch, joint } => Tok::Punct { ch: *ch, joint: *joint },
            Tok::Lit { text } => Tok::Lit { text: text.clone() },
            Tok::Open(d) => Tok::Open(*d),
            Tok::Close(d) => Tok::Close(*d),
        }
    }
}

/// Why a text is no sequence of tokens, and the line where it stops being one.
#[derive(Debug)]
pub struct LexError {
    pub line: usize,
    pub message: String,
}

/// The type `proc_macro2::TokenStream`, opaque here.
#[verifier::external_type_specification]
#[verifier::external_body]
pub struct ExTokenStream(proc_macro2::TokenStream);

/// The type `proc_macro2::Delimiter`, opaque here.
#[verifier::external_type_specification]
#[verifier::external_body]
pub struct ExDelimiter(proc_macro2::Delimiter);

/// The tokens of a source text, or the line and message of the lexer's error.
pub uninterp spec fn lexed(src: Seq<char>) -> Result<Seq<TokV>, (usize, Seq<char>)>;

/// The library's delimiter for one of `proc_macro2`. Text never lexes to an invisible group;
/// one would come out as a pair of parentheses.
#[verifier::external_body]
fn delim_of(d: proc_macro2::Delimiter) -> Delim {
    match d {
        proc_macro2::Delimiter::Bracket => Delim::Bracket,
        proc_macro2::Delimiter::Brace => Delim::Brace,
        proc_macro2::Delimiter::Parenthesis => Delim::Paren,
        proc_macro2::Delimiter::None => Delim::Paren,
    }
}

/// Appends the trees of a `proc_macro2::TokenStream` to `out`, each group between its delimiters.
#[verifier::external_body]
pub(crate) fn flatten(stream: proc_macro2::TokenStream, out: &mut Vec<Tok>) {
    for tree in stream {
        match tree {
            proc_macro2::TokenTree::Ident(i) => out.push(Tok::Ident { line: i.span().start().line, name: i.to_string() }),
            proc_macro2::TokenTree::Punct(p) => out.push(Tok::Punct { ch: p.as_char(), joint: p.spacing() == proc_macro2::Spacing::Joint }),
            proc_macro2::TokenTree::Literal(l) => out.push(Tok::Lit { text: l.to_string() }),
            proc_macro2::TokenTree::Group(g) => {
                out.push(Tok::Open(delim_of(g.delimiter())));
                flatten(g.stream(), out);
                out.push(Tok::Close(delim_of(g.delimiter())));
            }
        }
    }
}

/// Tokenizes a text with `proc_macro2::TokenStream::from_str`. What the lexer makes of a text is
/// named, not stated; the same text always gives the same tokens.
#[verifier::external_body]
pub(crate) fn lex(src: &str) -> (r: Result<Vec<Tok>, LexError>)
    ensures
        match r {
            Ok(toks) => lexed(src@) == Ok::<Seq<TokV>, (usize, Seq<char>)>(toks.deep_view()),
            Err(e) => lexed(src@) == Err::<Seq<TokV>, (usize, Seq<char>)>((e.line, e.message@)),
        },
{
    match <proc_macro2::TokenStream as std::str::FromStr>::from_str(src) {
        Ok(stream) => {
            let mut out = Vec::new();
            flatten(stream, &mut out);
            Ok(out)
        }
        Err(e) => Err(LexError { line: e.span().start().line, message: e.to_string() }),
    }
}

/// The tokens of a text, or the lexer's message where it has none.
pub fn tokens_of(src: &str) -> (r: Result<Vec<Tok>, String>)
    ensures
        match r {
            Ok(toks) => lexed(src@) == Ok::<Seq<TokV>, (usize, Seq<char>)>(toks.deep_view()),
            Err(m) => lexed(src@) is Err && m@ == lexed(src@)->Err_0.1,
        },
{
    match lex(src) {
        Ok(toks) => Ok(toks),
        Err(e) => Err(e.message),
    }
}

/// The text of one token.
pub open spec fn token_text(t: TokV) -> Seq<char> {
    match t {
        TokV::Ident { name, line } => name,
        TokV::Punct { ch, joint } => seq![ch],
        TokV::Lit { text } => text,
        TokV::Open(Delim::Paren) => "("@,
        TokV::Open(Delim::Bracket) => "["@,
        TokV::Open(Delim::Brace) => "{"@,
        TokV::Close(Delim::Paren) => ")"@,
        TokV::Close(Delim::Bracket) => "]"@,
        TokV::Close(Delim::Brace) => "}"@,
    }
}

/// What stands between a token and the next one: nothing after a joint punctuation character, a
/// space otherwise.
pub open spec fn gap(t: TokV) -> Seq<char> {
    match t {
        TokV::Punct { ch, joint: true } => ""@,
        _ => " "@,
    }
}

/// The tokens `s[p..e]` as a source text.
pub open spec fn source_text(s: Seq<TokV>, p: int, e: int) -> Seq<char>
    decreases e - p,
{
    if e <= p {
        ""@
    } else {
        source_text(s, p, e - 1) + token_text(s[e - 1]) + gap(s[e - 1])
    }
}

impl Tok {
    pub fn text(&self) -> (r: String)
        ensures
            r@ == token_text(self.deep_view()),
    {
        match self {
            Tok::Ident { name, line } => name.clone(),
            Tok::Punct { ch, joint } => {
                let mut s = String::new();
                s.push(*ch);
                assert(s@ == seq![*ch]);
                s
            },
            Tok::Lit { text } => text.clone(),
            Tok::Open(Delim::Paren) => text("("),
            Tok::Open(Delim::Bracket) => text("["),
            Tok::Open(Delim::Brace) => text("{"),
            Tok::Close(Delim::Paren) => text(")"),
            Tok::Close(Delim::Bracket) => text("]"),
            Tok::Close(Delim::Brace) => text("}"),
        }
    }

    pub(crate) fn gap(&self) -> (r: &'static str)
        ensures
            r@ == gap(self.deep_view()),
    {
        match self {
            Tok::Punct { ch, joint } => if *joint {
                ""
            } else {
                " "
            },
            _ => " ",
        }
    }

    /// The token is the identifier `name`.
    pub fn is_word(&self, word: &str) -> (r: bool)
        ensures
            r == is_word(self.deep_view(), word@),
    {
        match self {
            Tok::Ident { name, line } => same(name.as_str(), word),
            _ => false,
        }
    }

    /// The token is the punctuation character `c`.
    pub fn is_punct(&self, c: char) -> (r: bool)
        ensures
            r == is_punct(self.deep_view(), c),
    {
        match self {
            Tok::Punct { ch, joint } => *ch == c,
            _ => false,
        }
    }
}

/// `t` is the identifier `word`.
pub open spec fn is_word(t: TokV, word: Seq<char>) -> bool {
    t matches TokV::Ident { name, line } && name == word
}

/// `t` is the punctuation character `c`.
pub open spec fn is_punct(t: TokV, c: char) -> bool {
    t matches TokV::Punct { ch, joint } && ch == c
}

pub fn render_tokens(toks: &Vec<Tok>, p: usize, e: usize) -> (r: String)
    requires
        p <= e <= toks@.len(),
    ensures
        r@ == source_text(toks.deep_view(), p as int, e as int),
{
    let mut out = text("");
    let mut i: usize = p;
    while i < e
        invariant
            p <= i <= e <= toks@.len(),
            out@ == source_text(toks.deep_view(), p as int, i as int),
        decreases e - i,
    {
        let t = toks[i].text();
        out.append(t.as_str());
        out.append(toks[i].gap());
        i = i + 1;
    }
    out
}

/// The position in `s[i..e]` of the delimiter that closes the group which `depth` further groups
/// are nested in; `e` where it is missing.
pub open spec fn close_from(s: Seq<TokV>, i: int, e: int, depth: nat) -> int
    decreases e - i,
{
    if i >= e {
        e
    } else {
        match s[i] {
            TokV::Open(_) => close_from(s, i + 1, e, depth + 1),
            TokV::Close(_) => if depth == 0 {
                i
            } else {
                close_from(s, i + 1, e, (depth - 1) as nat)
            },
            _ => close_from(s, i + 1, e, depth),
        }
    }
}

/// Where the group that opens at `p` closes, within `s[..e]`.
pub open spec fn close_of(s: Seq<TokV>, p: int, e: int) -> int {
    close_from(s, p + 1, e, 0)
}

/// The position behind the group that opens at `p`.
pub open spec fn past_group(s: Seq<TokV>, p: int, e: int) -> int {
    let c = close_of(s, p, e);
    if c < e {
        c + 1
    } else {
        e
    }
}

pub fn group_end(toks: &Vec<Tok>, p: usize, e: usize) -> (r: usize)
    requires
        p < e <= toks@.len(),
    ensures
        r == close_of(toks.deep_view(), p as int, e as int),
        p < r <= e,
{
    let mut i: usize = p + 1;
    let mut depth: usize = 0;
    while i < e
        invariant
            p < i <= e <= toks@.len(),
            depth < i,
            close_of(toks.deep_view(), p as int, e as int) == close_from(
                toks.deep_view(),
                i as int,
                e as int,
                depth as nat,
            ),
        decreases e - i,
    {
        match &toks[i] {
            Tok::Open(_) => {
                depth = depth + 1;
            },
            Tok::Close(_) => {
                if depth == 0 {
                    return i;
                }
                depth = depth - 1;
            },
            _ => {},
        }
        i = i + 1;
    }
    e
}

pub fn after_group(toks: &Vec<Tok>, p: usize, e: usize) -> (r: usize)
    requires
        p < e <= toks@.len(),
    ensures
        r == past_group(toks.deep_view(), p as int, e as int),
        p < r <= e,
{
    let c = group_end(toks, p, e);
    if c < e {
        c + 1
    } else {
        e
    }
}

/// `s[i..]` with every bare `crate` written `$crate`.
pub open spec fn normalized_from(s: Seq<TokV>, i: int) -> Seq<TokV>
    decreases s.len() - i,
{
    if i < 0 || i >= s.len() {
        Seq::empty()
    } else if is_punct(s[i], '$') && i + 1 < s.len() && is_word(s[i + 1], "crate"@) {
        seq![s[i], s[i + 1]] + normalized_from(s, i + 2)
    } else if is_word(s[i], "crate"@) {
        seq![TokV::Punct { ch: '$', joint: true }, s[i]] + normalized_from(s, i + 1)
    } else {
        seq![s[i]] + normalized_from(s, i + 1)
    }
}

/// `s` with every bare `crate` written `$crate`.
pub open spec fn normalized(s: Seq<TokV>) -> Seq<TokV> {
    normalized_from(s, 0)
}

/// Rewrites bare `crate` paths of a fragment body into `$crate`.
pub fn normalize_fragment_crate(toks: &Vec<Tok>) -> (r: Vec<Tok>)
    ensures
        r.deep_view() == normalized(toks.deep_view()),
{
    let ghost s = toks.deep_view();
    let mut out: Vec<Tok> = Vec::new();
    let mut i: usize = 0;
    while i < toks.len()
        invariant
            i <= toks@.len(),
            s == toks.deep_view(),
            out.deep_view() + normalized_from(s, i as int) == normalized(s),
        decreases toks@.len() - i,
    {
        let ghost done = out.deep_view();
        if toks[i].is_punct('$') && i + 1 < toks.len() && toks[i + 1].is_word("crate") {
            proof {
                let tail = normalized_from(s, i + 2);
                assert(done + (seq![s[i as int], s[i + 1]] + tail) == done.push(s[i as int]).push(
                    s[i + 1],
                ) + tail);
            }
            put(&mut out, toks[i].dup());
            put(&mut out, toks[i + 1].dup());
            i = i + 2;
        } else if toks[i].is_word("crate") {
            proof {
                let tail = normalized_from(s, i + 1);
                let dollar = TokV::Punct { ch: '$', joint: true };
                assert(done + (seq![dollar, s[i as int]] + tail) == done.push(dollar).push(
                    s[i as int],
                ) + tail);
            }
            put(&mut out, Tok::Punct { ch: '$', joint: true });
            put(&mut out, toks[i].dup());
            i = i + 1;
        } else {
            proof {
                let tail = normalized_from(s, i + 1);
                assert(done + (seq![s[i as int]] + tail) == done.push(s[i as int]) + tail);
            }
            put(&mut out, toks[i].dup());
            i = i + 1;
        }
    }
    assert(out.deep_view() + Seq::<TokV>::empty() == out.deep_view());
    out
}

/// `t` moved to `line`.
pub open spec fn on_line(t: TokV, line: usize) -> TokV {
    match t {
        TokV::Ident { name, line: _ } => TokV::Ident { name, line },
        other => other,
    }
}

/// The tokens of `s`, all moved to `line`.
pub open spec fn respanned(s: Seq<TokV>, line: usize) -> Seq<TokV> {
    Seq::new(s.len(), |i: int| on_line(s[i], line))
}

/// The line of an identifier.
pub open spec fn line_of(t: TokV) -> usize {
    match t {
        TokV::Ident { name, line } => line,
        _ => 0,
    }
}

fn respan(toks: &Vec<Tok>, line: usize) -> (r: Vec<Tok>)
    ensures
        r.deep_view() == respanned(toks.deep_view(), line),
{
    let mut out: Vec<Tok> = Vec::new();
    let mut i: usize = 0;
    while i < toks.len()
        invariant
            i <= toks@.len(),
            out.deep_view() == respanned(toks.deep_view(), line).take(i as int),
        decreases toks@.len() - i,
    {
        let t = match &toks[i] {
            Tok::Ident { name, line: _ } => Tok::Ident { name: name.clone(), line },
            other => other.dup(),
        };
        put(&mut out, t);
        i = i + 1;
        assert(out.deep_view() == respanned(toks.deep_view(), line).take(i as int));
    }
    assert(out.deep_view() == respanned(toks.deep_view(), line));
    out
}

/// `s[i..]` with every `$crate` replaced by `rep`, put on the line of the `crate`.
pub open spec fn substituted_from(s: Seq<TokV>, rep: Seq<TokV>, i: int) -> Seq<TokV>
    decreases s.len() - i,
{
    if i < 0 || i >= s.len() {
        Seq::empty()
    } else if is_punct(s[i], '$') && i + 1 < s.len() && is_word(s[i + 1], "crate"@) {
        respanned(rep, line_of(s[i + 1])) + substituted_from(s, rep, i + 2)
    } else {
        seq![s[i]] + substituted_from(s, rep, i + 1)
    }
}

/// `s` with every `$crate` replaced by `rep`.
pub open spec fn substituted(s: Seq<TokV>, rep: Seq<TokV>) -> Seq<TokV> {
    substituted_from(s, rep, 0)
}

fn extend(out: &mut Vec<Tok>, more: Vec<Tok>)
    ensures
        final(out).deep_view() == old(out).deep_view() + more.deep_view(),
{
    let mut i: usize = 0;
    assert(more.deep_view().take(0) == Seq::<TokV>::empty());
    assert(out.deep_view() + Seq::<TokV>::empty() == out.deep_view());
    while i < more.len()
        invariant
            i <= more@.len(),
            out.deep_view() == old(out).deep_view() + more.deep_view().take(i as int),
        decreases more@.len() - i,
    {
        put(out, more[i].dup());
        i = i + 1;
        assert(out.deep_view() == old(out).deep_view() + more.deep_view().take(i as int));
    }
    assert(more.deep_view().take(more@.len() as int) == more.deep_view());
}

/// Replaces every `$crate` of `toks` by `replacement`.
pub fn substitute_dollar_crate(toks: &Vec<Tok>, replacement: &Vec<Tok>) -> (r: Vec<Tok>)
    ensures
        r.deep_view() == substituted(toks.deep_view(), replacement.deep_view()),
{
    let ghost s = toks.deep_view();
    let ghost rep = replacement.deep_view();
    let mut out: Vec<Tok> = Vec::new();
    let mut i: usize = 0;
    while i < toks.len()
        invariant
            i <= toks@.len(),
            s == toks.deep_view(),
            rep == replacement.deep_view(),
            out.deep_view() + substituted_from(s, rep, i as int) == substituted(s, rep),
        decreases toks@.len() - i,
    {
        let ghost done = out.deep_view();
        if toks[i].is_punct('$') && i + 1 < toks.len() && toks[i + 1].is_word("crate") {
            let line: usize = match &toks[i + 1] {
                Tok::Ident { name, line } => *line,
                _ => 0,
            };
            let moved = respan(replacement, line);
            proof {
                let tail = substituted_from(s, rep, i + 2);
                assert(done + (respanned(rep, line) + tail) == (done + respanned(rep, line))
                    + tail);
            }
            extend(&mut out, moved);
            i = i + 2;
        } else {
            proof {
                let tail = substituted_from(s, rep, i + 1);
                assert(done + (seq![s[i as int]] + tail) == done.push(s[i as int]) + tail);
            }
            put(&mut out, toks[i].dup());
            i = i + 1;
        }
    }
    assert(out.deep_view() + Seq::<TokV>::empty() == out.deep_view());
    out
}

/// `$crate` stands at `i`.
pub open spec fn dollar_crate_at(s: Seq<TokV>, i: int) -> bool {
    0 <= i && i + 1 < s.len() && is_punct(s[i], '$') && is_word(s[i + 1], "crate"@)
}

/// A `$` that opens no `$crate`, in `s[p..e]`.
pub open spec fn metavariable_in(s: Seq<TokV>, p: int, e: int) -> bool {
    exists|i: int|
        p <= i < e && is_punct(#[trigger] s[i], '$') && !(i + 1 < e && is_word(s[i + 1], "crate"@))
}

/// Whether `toks[p..e]` holds a `$` followed by anything but the identifier `crate`.
pub fn has_metavariable(toks: &Vec<Tok>, p: usize, e: usize) -> (r: bool)
    requires
        p <= e <= toks@.len(),
    ensures
        r == metavariable_in(toks.deep_view(), p as int, e as int),
{
    let ghost s = toks.deep_view();
    let mut i: usize = p;
    while i < e
        invariant
            p <= i <= e <= toks@.len(),
            s == toks.deep_view(),
            forall|k: int|
                p <= k < i && is_punct(#[trigger] s[k], '$') ==> k + 1 < e && is_word(
                    s[k + 1],
                    "crate"@,
                ),
        decreases e - i,
    {
        if toks[i].is_punct('$') {
            if !(i + 1 < e && toks[i + 1].is_word("crate")) {
                assert(is_punct(s[i as int], '$'));
                return true;
            }
        }
        i = i + 1;
    }
    false
}

/// The ranges of `s[start..hi]` between top-level `sep` characters outside `<..>`, with the scan
/// at `i`, inside `depth` groups and `angle` angle brackets. An empty last range is left out.
pub open spec fn top_ranges_from(
    s: Seq<TokV>,
    sep: char,
    start: int,
    i: int,
    hi: int,
    depth: nat,
    angle: nat,
) -> Seq<(int, int)>
    decreases hi - i,
{
    if i >= hi {
        if start < hi {
            seq![(start, hi)]
        } else {
            Seq::empty()
        }
    } else {
        match s[i] {
            TokV::Open(_) => top_ranges_from(s, sep, start, i + 1, hi, depth + 1, angle),
            TokV::Close(_) => top_ranges_from(
                s,
                sep,
                start,
                i + 1,
                hi,
                if depth > 0 {
                    (depth - 1) as nat
                } else {
                    0
                },
                angle,
            ),
            TokV::Punct { ch, joint } => if depth > 0 {
                top_ranges_from(s, sep, start, i + 1, hi, depth, angle)
            } else if ch == '<' {
                top_ranges_from(s, sep, start, i + 1, hi, depth, angle + 1)
            } else if ch == '>' && angle > 0 {
                top_ranges_from(s, sep, start, i + 1, hi, depth, (angle - 1) as nat)
            } else if ch == sep && angle == 0 {
                seq![(start, i)] + top_ranges_from(s, sep, i + 1, i + 1, hi, depth, angle)
            } else {
                top_ranges_from(s, sep, start, i + 1, hi, depth, angle)
            },
            _ => top_ranges_from(s, sep, start, i + 1, hi, depth, angle),
        }
    }
}

/// The ranges of `s[lo..hi]` between top-level `sep` characters.
pub open spec fn top_ranges(s: Seq<TokV>, sep: char, lo: int, hi: int) -> Seq<(int, int)> {
    top_ranges_from(s, sep, lo, lo, hi, 0, 0)
}

/// The pairs of positions as integers.
pub open spec fn ranges(v: Seq<(usize, usize)>) -> Seq<(int, int)> {
    Seq::new(v.len(), |i: int| (v[i].0 as int, v[i].1 as int))
}

/// Splits `toks[lo..hi]` at its top-level `sep` characters.
pub fn split_top(toks: &Vec<Tok>, sep: char, lo: usize, hi: usize) -> (r: Vec<(usize, usize)>)
    requires
        lo <= hi <= toks@.len(),
    ensures
        ranges(r@) == top_ranges(toks.deep_view(), sep, lo as int, hi as int),
        forall|k: int| 0 <= k < r@.len() ==> lo <= (#[trigger] r@[k]).0 <= r@[k].1 <= hi,
{
    let ghost s = toks.deep_view();
    let mut out: Vec<(usize, usize)> = Vec::new();
    let mut start: usize = lo;
    let mut i: usize = lo;
    let mut depth: usize = 0;
    let mut angle: usize = 0;
    assert(ranges(out@) + top_ranges(s, sep, lo as int, hi as int) == top_ranges(
        s,
        sep,
        lo as int,
        hi as int,
    ));
    while i < hi
        invariant
            lo <= start <= i <= hi <= toks@.len(),
            depth <= i - lo,
            angle <= i - lo,
            s == toks.deep_view(),
            forall|k: int| 0 <= k < out@.len() ==> lo <= (#[trigger] out@[k]).0 <= out@[k].1 <= hi,
            ranges(out@) + top_ranges_from(
                s,
                sep,
                start as int,
                i as int,
                hi as int,
                depth as nat,
                angle as nat,
            ) == top_ranges(s, sep, lo as int, hi as int),
        decreases hi - i,
    {
        match &toks[i] {
            Tok::Open(_) => {
                depth = depth + 1;
            },
            Tok::Close(_) => {
                if depth > 0 {
                    depth = depth - 1;
                }
            },
            Tok::Punct { ch, joint } => {
                if depth > 0 {
                } else if *ch == '<' {
                    angle = angle + 1;
                } else if *ch == '>' && angle > 0 {
                    angle = angle - 1;
                } else if *ch == sep && angle == 0 {
                    let ghost done = ranges(out@);
                    proof {
                        let tail = top_ranges_from(s, sep, i + 1, i + 1, hi as int, 0, 0);
                        let head = seq![(start as int, i as int)];
                        assert(done + (head + tail) == done.push(head[0]) + tail);
                    }
                    out.push((start, i));
                    assert(ranges(out@) == done.push((start as int, i as int)));
                    start = i + 1;
                }
            },
            _ => {},
        }
        i = i + 1;
    }
    let ghost done = ranges(out@);
    if start < hi {
        out.push((start, hi));
        assert(ranges(out@) == done + seq![(start as int, hi as int)]);
    } else {
        assert(done + Seq::<(int, int)>::empty() == done);
    }
    out
}

proof fn lemma_normalized_opens(s: Seq<TokV>, i: int)
    ensures
        normalized_from(s, i).len() > 0 ==> !is_word(normalized_from(s, i)[0], "crate"@),
{
}

proof fn lemma_normalized_pairs(s: Seq<TokV>, i: int, k: int)
    requires
        0 <= k < normalized_from(s, i).len(),
        is_word(normalized_from(s, i)[k], "crate"@),
    ensures
        k > 0,
        is_punct(normalized_from(s, i)[k - 1], '$'),
    decreases s.len() - i,
{
    lemma_normalized_opens(s, i);
    if is_punct(s[i], '$') && i + 1 < s.len() && is_word(s[i + 1], "crate"@) {
        if k >= 2 {
            lemma_normalized_pairs(s, i + 2, k - 2);
        }
    } else if is_word(s[i], "crate"@) {
        if k >= 2 {
            lemma_normalized_pairs(s, i + 1, k - 2);
        }
    } else if k >= 1 {
        lemma_normalized_pairs(s, i + 1, k - 1);
    }
}

/// A normalised fragment holds no bare `crate`: each one stands behind a `$`.
pub proof fn normalizing_leaves_no_bare_crate(s: Seq<TokV>, k: int)
    requires
        0 <= k < normalized(s).len(),
        is_word(normalized(s)[k], "crate"@),
    ensures
        dollar_crate_at(normalized(s), k - 1),
{
    lemma_normalized_pairs(s, 0, k);
}

proof fn lemma_normalized_again(pre: Seq<TokV>, s: Seq<TokV>, i: int)
    requires
        0 <= i,
    ensures
        normalized_from(pre + normalized_from(s, i), pre.len() as int) == normalized_from(s, i),
    decreases s.len() - i,
{
    let n = normalized_from(s, i);
    let k = pre.len() as int;
    if i < s.len() {
        if is_punct(s[i], '$') && i + 1 < s.len() && is_word(s[i + 1], "crate"@) {
            let head = seq![s[i], s[i + 1]];
            lemma_normalized_again(pre + head, s, i + 2);
            assert((pre + head) + normalized_from(s, i + 2) == pre + n);
            assert((pre + n)[k] == s[i] && (pre + n)[k + 1] == s[i + 1]);
        } else if is_word(s[i], "crate"@) {
            let dollar = TokV::Punct { ch: '$', joint: true };
            let head = seq![dollar, s[i]];
            lemma_normalized_again(pre + head, s, i + 1);
            assert((pre + head) + normalized_from(s, i + 1) == pre + n);
            assert((pre + n)[k] == dollar && (pre + n)[k + 1] == s[i]);
        } else {
            let head = seq![s[i]];
            lemma_normalized_again(pre + head, s, i + 1);
            lemma_normalized_opens(s, i + 1);
            assert((pre + head) + normalized_from(s, i + 1) == pre + n);
            assert((pre + n)[k] == s[i]);
            if k + 1 < (pre + n).len() {
                assert((pre + n)[k + 1] == normalized_from(s, i + 1)[0]);
            }
        }
    }
}

/// To normalise a fragment twice is to normalise it once.
pub proof fn normalizing_is_idempotent(s: Seq<TokV>)
    ensures
        normalized(normalized(s)) == normalized(s),
{
    lemma_normalized_again(Seq::empty(), s, 0);
    assert(Seq::<TokV>::empty() + normalized(s) == normalized(s));
}

proof fn lemma_substituted_clean(s: Seq<TokV>, rep: Seq<TokV>, i: int, k: int)
    requires
        0 <= i,
        forall|j: int| !#[trigger] dollar_crate_at(rep, j),
        rep.len() > 0 ==> !is_punct(rep.last(), '$'),
        metavariable_in(s, 0, s.len() as int) ==> rep.len() > 0 && !is_word(rep[0], "crate"@),
    ensures
        !dollar_crate_at(substituted_from(s, rep, i), k),
    decreases s.len() - i,
{
    let sub = substituted_from(s, rep, i);
    if i < s.len() {
        if is_punct(s[i], '$') && i + 1 < s.len() && is_word(s[i + 1], "crate"@) {
            let head = respanned(rep, line_of(s[i + 1]));
            lemma_substituted_clean(s, rep, i + 2, k - head.len());
            assert(!dollar_crate_at(rep, k));
            if 0 <= k < rep.len() {
                assert(sub[k] == head[k]);
                if k + 1 < rep.len() {
                    assert(sub[k + 1] == head[k + 1]);
                }
            } else if k >= rep.len() {
                let rest = substituted_from(s, rep, i + 2);
                if k + 1 < sub.len() {
                    assert(sub[k] == rest[k - rep.len()]);
                    assert(sub[k + 1] == rest[k + 1 - rep.len()]);
                }
            }
        } else {
            let rest = substituted_from(s, rep, i + 1);
            lemma_substituted_clean(s, rep, i + 1, k - 1);
            if k == 0 && dollar_crate_at(sub, 0) {
                assert(sub[1] == rest[0]);
                assert(is_punct(s[i], '$'));
                assert(metavariable_in(s, 0, s.len() as int));
                if is_punct(s[i + 1], '$') && i + 2 < s.len() && is_word(s[i + 2], "crate"@) {
                    assert(rest[0] == respanned(rep, line_of(s[i + 2]))[0]);
                }
            } else if k > 0 && k + 1 < sub.len() {
                assert(sub[k] == rest[k - 1]);
                assert(sub[k + 1] == rest[k]);
            }
        }
    }
}

/// Replacing every `$crate` leaves none, where the replacement has none, does not end in a `$`,
/// and cannot complete one behind a `$` that stands alone.
pub proof fn substituting_leaves_no_dollar_crate(s: Seq<TokV>, rep: Seq<TokV>, k: int)
    requires
        forall|j: int| !#[trigger] dollar_crate_at(rep, j),
        rep.len() > 0 ==> !is_punct(rep.last(), '$'),
        metavariable_in(s, 0, s.len() as int) ==> rep.len() > 0 && !is_word(rep[0], "crate"@),
    ensures
        !dollar_crate_at(substituted(s, rep), k),
{
    lemma_substituted_clean(s, rep, 0, k);
}

proof fn lemma_nothing_substituted(s: Seq<TokV>, rep: Seq<TokV>, i: int)
    requires
        0 <= i <= s.len(),
        forall|j: int| !#[trigger] dollar_crate_at(s, j),
    ensures
        substituted_from(s, rep, i) == s.skip(i),
    decreases s.len() - i,
{
    if i < s.len() {
        assert(!dollar_crate_at(s, i));
        lemma_nothing_substituted(s, rep, i + 1);
        assert(s.skip(i) == seq![s[i]] + s.skip(i + 1));
    } else {
        assert(s.skip(i) == Seq::<TokV>::empty());
    }
}

/// Where there is no `$crate`, substitution changes nothing.
pub proof fn substituting_without_dollar_crate_changes_nothing(s: Seq<TokV>, rep: Seq<TokV>)
    requires
        forall|j: int| !#[trigger] dollar_crate_at(s, j),
    ensures
        substituted(s, rep) == s,
{
    lemma_nothing_substituted(s, rep, 0);
    assert(s.skip(0) == s);
}

} // verus!
