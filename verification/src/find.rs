//! Finding and parsing the graph declarations of a source file.

use vstd::prelude::*;
use vstd::string::*;

use crate::ast::{GraphSpec, GraphSpecV};
use crate::graph::graph_of;
use crate::list::{put, Dup};
use crate::lists::lemma_close_from;
use crate::node::line_at;
use crate::parse::{at_punct, punct_at, verdict, Fault};
use crate::scan::append;
use crate::text::{cat2, cat3, cat5, decimal, decimal_usize, same, text};
use crate::token::{
    after_group, close_of, gap, group_end, has_metavariable, is_punct, lex, lexed, line_of,
    metavariable_in, normalize_fragment_crate, normalized, past_group, ranges, split_top,
    substitute_dollar_crate, substituted, token_text, top_ranges, Delim, Tok, TokV,
};

verus! {

/// The crate name that stands for `$crate` until a compose site names the crate.
pub const UNRESOLVED_CRATE: &'static str = "__sv_unresolved_crate";

/// Which macro a declaration is.
#[derive(Clone, Copy, Debug, PartialEq, Eq, Structural)]
pub enum DeclKind {
    /// A `supervisor_graph!`.
    Graph,
    /// A `supervisor_fragment!`.
    Fragment,
    /// A `compose_graph!`.
    Compose,
}

impl DeepView for DeclKind {
    type V = DeclKind;

    open spec fn deep_view(&self) -> DeclKind {
        *self
    }
}

impl Dup for DeclKind {
    fn dup(&self) -> (r: Self) {
        *self
    }
}

/// The name of a declaration macro, without the `!`.
pub open spec fn bare_macro_name(kind: DeclKind) -> Seq<char> {
    match kind {
        DeclKind::Graph => "supervisor_graph"@,
        DeclKind::Fragment => "supervisor_fragment"@,
        DeclKind::Compose => "compose_graph"@,
    }
}

/// The name of a declaration macro, with the `!`.
pub open spec fn macro_name(kind: DeclKind) -> Seq<char> {
    match kind {
        DeclKind::Graph => "supervisor_graph!"@,
        DeclKind::Fragment => "supervisor_fragment!"@,
        DeclKind::Compose => "compose_graph!"@,
    }
}

impl DeclKind {
    /// The name of the macro, with the trailing `!`.
    pub fn macro_name(self) -> (r: &'static str)
        ensures
            r@ == macro_name(self),
    {
        match self {
            DeclKind::Graph => "supervisor_graph!",
            DeclKind::Fragment => "supervisor_fragment!",
            DeclKind::Compose => "compose_graph!",
        }
    }

    fn bare_name(self) -> (r: &'static str)
        ensures
            r@ == bare_macro_name(self),
    {
        match self {
            DeclKind::Graph => "supervisor_graph",
            DeclKind::Fragment => "supervisor_fragment",
            DeclKind::Compose => "compose_graph",
        }
    }
}

/// The name with the `!` is the bare name and a `!`.
pub proof fn macro_name_ends_in_bang(kind: DeclKind)
    ensures
        macro_name(kind) == bare_macro_name(kind).push('!'),
{
    reveal_strlit("supervisor_graph");
    reveal_strlit("supervisor_graph!");
    reveal_strlit("supervisor_fragment");
    reveal_strlit("supervisor_fragment!");
    reveal_strlit("compose_graph");
    reveal_strlit("compose_graph!");
    assert(macro_name(kind) =~= bare_macro_name(kind).push('!'));
}

/// One declaration site, its items parsed.
#[derive(Debug)]
pub struct Decl {
    /// Which macro it is.
    pub kind: DeclKind,
    /// What it declares.
    pub spec: GraphSpec,
    /// Its body as written, `$crate` included, so that a compose site can resolve it anew.
    pub body: Vec<Tok>,
    /// The fragments that a `compose_graph!` names.
    pub fragments: Vec<String>,
    /// Which file declared which fragment; the last entry of a name counts.
    pub fragment_origins: Vec<(String, String)>,
    /// The source file.
    pub origin: String,
    /// The line of the macro.
    pub line: usize,
}

/// What a [`Decl`] means.
pub struct DeclV {
    pub kind: DeclKind,
    pub spec: GraphSpecV,
    pub body: Seq<TokV>,
    pub fragments: Seq<Seq<char>>,
    pub fragment_origins: Seq<(Seq<char>, Seq<char>)>,
    pub origin: Seq<char>,
    pub line: usize,
}

impl DeepView for Decl {
    type V = DeclV;

    open spec fn deep_view(&self) -> DeclV {
        DeclV {
            kind: self.kind.deep_view(),
            spec: self.spec.deep_view(),
            body: self.body.deep_view(),
            fragments: self.fragments.deep_view(),
            fragment_origins: self.fragment_origins.deep_view(),
            origin: self.origin.deep_view(),
            line: self.line.deep_view(),
        }
    }
}

impl Dup for Decl {
    fn dup(&self) -> (r: Self) {
        Decl {
            kind: self.kind.dup(),
            spec: self.spec.dup(),
            body: self.body.dup(),
            fragments: self.fragments.dup(),
            fragment_origins: self.fragment_origins.dup(),
            origin: self.origin.dup(),
            line: self.line.dup(),
        }
    }
}


impl Decl {
    /// The `name:` of the declaration.
    pub fn name(&self) -> (r: Option<String>)
        ensures
            r.deep_view() == self.deep_view().spec.name,
    {
        self.spec.name.dup()
    }
}

/// Why a source file could not be read.
#[derive(Debug)]
pub struct Error {
    /// The source file.
    pub file: String,
    /// The line.
    pub line: usize,
    /// What is wrong.
    pub message: String,
}

/// What a [`Error`] means.
pub struct ErrorV {
    pub file: Seq<char>,
    pub line: usize,
    pub message: Seq<char>,
}

impl DeepView for Error {
    type V = ErrorV;

    open spec fn deep_view(&self) -> ErrorV {
        ErrorV {
            file: self.file.deep_view(),
            line: self.line.deep_view(),
            message: self.message.deep_view(),
        }
    }
}

impl Dup for Error {
    fn dup(&self) -> (r: Self) {
        Error {
            file: self.file.dup(),
            line: self.line.dup(),
            message: self.message.dup(),
        }
    }
}


/// An error in one line: `file:line: message`.
pub open spec fn error_text(e: ErrorV) -> Seq<char> {
    e.file + ":"@ + decimal(e.line as nat) + ": "@ + e.message
}

impl Error {
    /// The error in one line: `file:line: message`.
    pub fn to_text(&self) -> (r: String)
        ensures
            r@ == error_text(self.deep_view()),
    {
        let line = decimal_usize(self.line);
        cat5(self.file.as_str(), ":", line.as_str(), ": ", self.message.as_str())
    }
}

/// A result whose error is an [`Error`].
pub open spec fn settled<T: DeepView>(r: Result<T, Error>) -> Result<T::V, ErrorV> {
    match r {
        Ok(x) => Ok(x.deep_view()),
        Err(e) => Err(e.deep_view()),
    }
}

/// The tokens of the placeholder crate name.
pub open spec fn placeholder_tokens(name: Seq<char>) -> Seq<TokV> {
    seq![TokV::Ident { name, line: 0 }]
}

/// The single identifier `name`, as tokens.
pub fn placeholder(name: &str) -> (r: Vec<Tok>)
    ensures
        r.deep_view() == placeholder_tokens(name@),
{
    let mut v: Vec<Tok> = Vec::new();
    v.push(Tok::Ident { name: text(name), line: 0 });
    assert(v.deep_view() == placeholder_tokens(name@));
    v
}

/// What a declaration's items declare, or the message of what is wrong with them.
pub open spec fn items_of(items: Seq<TokV>, kind: DeclKind) -> Result<GraphSpecV, Fault> {
    match graph_of(items) {
        Ok(g) => Ok(g),
        Err(m) => Err(bare_macro_name(kind) + ": "@ + m),
    }
}

/// Parses a declaration's items; the message of a failure names the macro.
pub fn parse_items(items: &Vec<Tok>, kind: DeclKind) -> (r: Result<GraphSpec, String>)
    ensures
        verdict(r) == items_of(items.deep_view(), kind),
{
    match GraphSpec::parse(items) {
        Ok(g) => Ok(g),
        Err(m) => Err(cat3(kind.bare_name(), ": ", m.as_str())),
    }
}

/// What the clauses of a `compose_graph!` give.
#[derive(Debug)]
pub struct Compose {
    /// The tokens of its `name:`, as a graph body spells them.
    pub name: Vec<Tok>,
    /// The tokens of its `graph:`.
    pub items: Vec<Tok>,
    /// The fragments it names.
    pub fragments: Vec<String>,
}

/// What a [`Compose`] means.
pub struct ComposeV {
    pub name: Seq<TokV>,
    pub items: Seq<TokV>,
    pub fragments: Seq<Seq<char>>,
}

impl DeepView for Compose {
    type V = ComposeV;

    open spec fn deep_view(&self) -> ComposeV {
        ComposeV {
            name: self.name.deep_view(),
            items: self.items.deep_view(),
            fragments: self.fragments.deep_view(),
        }
    }
}

impl Dup for Compose {
    fn dup(&self) -> (r: Self) {
        Compose {
            name: self.name.dup(),
            items: self.items.dup(),
            fragments: self.fragments.dup(),
        }
    }
}

/// How many groups opened in `s[p..i]` are still open at `i`.
pub open spec fn nesting(s: Seq<TokV>, p: int, i: int) -> nat
    decreases i - p,
{
    if i <= p {
        0
    } else {
        let before = nesting(s, p, i - 1);
        match s[i - 1] {
            TokV::Open(_) => before + 1,
            TokV::Close(_) => if before > 0 {
                (before - 1) as nat
            } else {
                0
            },
            _ => before,
        }
    }
}

/// What stands between two neighbours inside a group: a space inside braces at both ends and
/// between tokens, nothing at the ends of other groups and behind a joint punctuation character.
pub open spec fn inner_gap(a: TokV, b: TokV) -> Seq<char> {
    if a == TokV::Open(Delim::Brace) || b == TokV::Close(Delim::Brace) {
        " "@
    } else if a is Open || b is Close {
        ""@
    } else {
        gap(a)
    }
}

/// The token trees of `s[p..e]`, each as it is spelled, with nothing between them.
pub open spec fn glued(s: Seq<TokV>, p: int, e: int) -> Seq<char>
    decreases e - p,
{
    if e <= p {
        ""@
    } else {
        glued(s, p, e - 1) + (if nesting(s, p, e - 1) > 0 {
            inner_gap(s[e - 2], s[e - 1])
        } else {
            ""@
        }) + token_text(s[e - 1])
    }
}

fn gap_inside(a: &Tok, b: &Tok) -> (r: &'static str)
    ensures
        r@ == inner_gap(a.deep_view(), b.deep_view()),
{
    match (a, b) {
        (Tok::Open(Delim::Brace), _) => " ",
        (_, Tok::Close(Delim::Brace)) => " ",
        (Tok::Open(_), _) => "",
        (_, Tok::Close(_)) => "",
        _ => a.gap(),
    }
}

fn glue(toks: &Vec<Tok>, p: usize, e: usize) -> (r: String)
    requires
        p <= e <= toks@.len(),
    ensures
        r@ == glued(toks.deep_view(), p as int, e as int),
{
    let ghost s = toks.deep_view();
    let mut out = text("");
    let mut depth: usize = 0;
    let mut i: usize = p;
    while i < e
        invariant
            p <= i <= e <= toks@.len(),
            s == toks.deep_view(),
            depth <= i - p,
            depth == nesting(s, p as int, i as int),
            out@ == glued(s, p as int, i as int),
        decreases e - i,
    {
        if depth > 0 {
            out.append(gap_inside(&toks[i - 1], &toks[i]));
        } else {
            out.append("");
        }
        let t = toks[i].text();
        out.append(t.as_str());
        assert(s[i as int] == toks@[i as int].deep_view());
        match &toks[i] {
            Tok::Open(_) => {
                depth = depth + 1;
            },
            Tok::Close(_) => {
                if depth > 0 {
                    depth = depth - 1;
                }
            },
            _ => {},
        }
        i = i + 1;
    }
    out
}

/// The ranges `r[i..]` that are not empty, each as one word, behind `acc`.
pub open spec fn glued_ranges(
    s: Seq<TokV>,
    r: Seq<(int, int)>,
    i: int,
    acc: Seq<Seq<char>>,
) -> Seq<Seq<char>>
    decreases r.len() - i,
{
    if i >= r.len() {
        acc
    } else if r[i].0 < r[i].1 {
        glued_ranges(s, r, i + 1, acc.push(glued(s, r[i].0, r[i].1)))
    } else {
        glued_ranges(s, r, i + 1, acc)
    }
}

fn glue_ranges(toks: &Vec<Tok>, lo: usize, hi: usize) -> (r: Vec<String>)
    requires
        lo <= hi <= toks@.len(),
    ensures
        r.deep_view() == glued_ranges(
            toks.deep_view(),
            top_ranges(toks.deep_view(), ',', lo as int, hi as int),
            0,
            Seq::empty(),
        ),
{
    let r = split_top(toks, ',', lo, hi);
    let ghost s = toks.deep_view();
    let mut out: Vec<String> = Vec::new();
    assert(out.deep_view() == Seq::<Seq<char>>::empty());
    let mut i: usize = 0;
    while i < r.len()
        invariant
            i <= r@.len(),
            s == toks.deep_view(),
            hi <= toks@.len(),
            forall|k: int| 0 <= k < r@.len() ==> lo <= (#[trigger] r@[k]).0 <= r@[k].1 <= hi,
            glued_ranges(s, ranges(r@), 0, Seq::empty()) == glued_ranges(
                s,
                ranges(r@),
                i as int,
                out.deep_view(),
            ),
        decreases r@.len() - i,
    {
        let (a, b) = r[i];
        assert(ranges(r@)[i as int] == (a as int, b as int));
        if a < b {
            let w = glue(toks, a, b);
            put(&mut out, w);
        }
        i = i + 1;
    }
    out
}

/// Where the value of the clause `s[a..b]` begins: behind its key and one more token or group.
pub open spec fn value_start(s: Seq<TokV>, a: int, b: int) -> int {
    if s[a + 1] is Open {
        past_group(s, a + 1, b)
    } else {
        a + 2
    }
}

/// A `name:` as a graph body spells it.
pub open spec fn name_clause(s: Seq<TokV>, v: int, b: int) -> Seq<TokV> {
    seq![TokV::Ident { name: "name"@, line: 0 }, TokV::Punct { ch: ':', joint: false }] + s.subrange(
        v,
        b,
    ) + seq![TokV::Punct { ch: ';', joint: false }]
}

pub const COMPOSE_TAKES: &'static str = ":`; it takes `name:`, `fragments:` and `graph:`";

/// The clause `s[a..b]` of a `compose_graph!`, read into `k`.
pub open spec fn compose_clause(k: ComposeV, s: Seq<TokV>, a: int, b: int) -> Result<ComposeV, Fault> {
    if !(a < b && s[a] is Ident) {
        Ok(k)
    } else {
        let key = s[a]->Ident_name;
        if a + 1 >= b {
            Err("`compose_graph!` clause `"@ + key + "` is missing its `:` and value"@)
        } else {
            let v = value_start(s, a, b);
            if key == "name"@ {
                Ok(ComposeV { name: name_clause(s, v, b), ..k })
            } else if key == "fragments"@ {
                if v < b && s[v] is Open {
                    Ok(
                        ComposeV {
                            fragments: glued_ranges(
                                s,
                                top_ranges(s, ',', v + 1, close_of(s, v, b)),
                                0,
                                Seq::empty(),
                            ),
                            ..k
                        },
                    )
                } else {
                    Err("expected a list after `fragments:`"@)
                }
            } else if key == "graph"@ {
                if v < b && s[v] is Open {
                    Ok(ComposeV { items: s.subrange(v + 1, close_of(s, v, b)), ..k })
                } else {
                    Err("expected a block after `graph:`"@)
                }
            } else {
                Err("unknown `compose_graph!` clause `"@ + key + COMPOSE_TAKES@)
            }
        }
    }
}

/// The tokens `toks[p..e]`.
pub fn token_range(toks: &Vec<Tok>, p: usize, e: usize) -> (r: Vec<Tok>)
    requires
        p <= e <= toks@.len(),
    ensures
        r.deep_view() == toks.deep_view().subrange(p as int, e as int),
{
    let ghost s = toks.deep_view();
    let mut out: Vec<Tok> = Vec::new();
    let mut i: usize = p;
    while i < e
        invariant
            p <= i <= e <= toks@.len(),
            s == toks.deep_view(),
            out.deep_view() == s.subrange(p as int, i as int),
        decreases e - i,
    {
        put(&mut out, toks[i].dup());
        i = i + 1;
        assert(out.deep_view() == s.subrange(p as int, i as int));
    }
    assert(out.deep_view() == s.subrange(p as int, e as int));
    out
}

fn is_open(t: &Tok) -> (r: bool)
    ensures
        r == t.deep_view() is Open,
{
    match t {
        Tok::Open(_) => true,
        _ => false,
    }
}

fn build_name_clause(toks: &Vec<Tok>, v: usize, b: usize) -> (r: Vec<Tok>)
    requires
        v <= b <= toks@.len(),
    ensures
        r.deep_view() == name_clause(toks.deep_view(), v as int, b as int),
{
    let mut out: Vec<Tok> = Vec::new();
    put(&mut out, Tok::Ident { name: text("name"), line: 0 });
    put(&mut out, Tok::Punct { ch: ':', joint: false });
    let value = token_range(toks, v, b);
    append(&mut out, &value);
    put(&mut out, Tok::Punct { ch: ';', joint: false });
    assert(out.deep_view() == name_clause(toks.deep_view(), v as int, b as int));
    out
}

impl Compose {
    fn read(&mut self, toks: &Vec<Tok>, a: usize, b: usize) -> (r: Result<(), String>)
        requires
            a <= b <= toks@.len(),
        ensures
            match r {
                Ok(_) => compose_clause(old(self).deep_view(), toks.deep_view(), a as int, b as int)
                    == Ok::<ComposeV, Fault>(final(self).deep_view()),
                Err(m) => compose_clause(old(self).deep_view(), toks.deep_view(), a as int, b as int)
                    == Err::<ComposeV, Fault>(m@),
            },
    {
        if a >= b {
            return Ok(());
        }
        let key = match &toks[a] {
            Tok::Ident { name, line } => name.clone(),
            _ => {
                return Ok(());
            },
        };
        if b - a < 2 {
            return Err(
                cat3(
                    "`compose_graph!` clause `",
                    key.as_str(),
                    "` is missing its `:` and value",
                ),
            );
        }
        let v: usize = if is_open(&toks[a + 1]) {
            after_group(toks, a + 1, b)
        } else {
            a + 2
        };
        if same(key.as_str(), "name") {
            self.name = build_name_clause(toks, v, b);
            Ok(())
        } else if same(key.as_str(), "fragments") {
            if v < b && is_open(&toks[v]) {
                let c = group_end(toks, v, b);
                self.fragments = glue_ranges(toks, v + 1, c);
                Ok(())
            } else {
                Err(text("expected a list after `fragments:`"))
            }
        } else if same(key.as_str(), "graph") {
            if v < b && is_open(&toks[v]) {
                let c = group_end(toks, v, b);
                self.items = token_range(toks, v + 1, c);
                Ok(())
            } else {
                Err(text("expected a block after `graph:`"))
            }
        } else {
            Err(cat3("unknown `compose_graph!` clause `", key.as_str(), COMPOSE_TAKES))
        }
    }
}

/// The clauses `r[i..]` of a `compose_graph!`, read into `k`.
pub open spec fn compose_clauses(k: ComposeV, s: Seq<TokV>, r: Seq<(int, int)>, i: int) -> Result<
    ComposeV,
    Fault,
>
    decreases r.len() - i,
{
    if i >= r.len() {
        Ok(k)
    } else {
        match compose_clause(k, s, r[i].0, r[i].1) {
            Err(m) => Err(m),
            Ok(h) => compose_clauses(h, s, r, i + 1),
        }
    }
}

/// Nothing read yet.
pub open spec fn no_compose() -> ComposeV {
    ComposeV { name: Seq::empty(), items: Seq::empty(), fragments: Seq::empty() }
}

/// The graph body and the fragments that a `compose_graph!` body gives.
pub open spec fn compose_of(s: Seq<TokV>) -> Result<(Seq<TokV>, Seq<Seq<char>>), Fault> {
    match compose_clauses(no_compose(), s, top_ranges(s, ',', 0, s.len() as int), 0) {
        Err(m) => Err(m),
        Ok(k) => Ok((k.name + k.items, k.fragments)),
    }
}

pub fn split_compose(body: &Vec<Tok>) -> (r: Result<(Vec<Tok>, Vec<String>), String>)
    ensures
        verdict(r) == compose_of(body.deep_view()),
{
    let ghost s = body.deep_view();
    let mut k = Compose { name: Vec::new(), items: Vec::new(), fragments: Vec::new() };
    proof {
        assert(k.name.deep_view() == Seq::<TokV>::empty());
        assert(k.items.deep_view() == Seq::<TokV>::empty());
        assert(k.fragments.deep_view() == Seq::<Seq<char>>::empty());
    }
    let r = split_top(body, ',', 0, body.len());
    let mut i: usize = 0;
    while i < r.len()
        invariant
            i <= r@.len(),
            s == body.deep_view(),
            ranges(r@) == top_ranges(s, ',', 0, s.len() as int),
            forall|j: int| 0 <= j < r@.len() ==> 0 <= (#[trigger] r@[j]).0 <= r@[j].1 <= body@.len(),
            compose_clauses(no_compose(), s, ranges(r@), 0) == compose_clauses(
                k.deep_view(),
                s,
                ranges(r@),
                i as int,
            ),
        decreases r@.len() - i,
    {
        let (a, b) = r[i];
        assert(ranges(r@)[i as int] == (a as int, b as int));
        k.read(body, a, b)?;
        i = i + 1;
    }
    let mut items = k.name;
    append(&mut items, &k.items);
    Ok((items, k.fragments))
}

/// The tokens that a declaration's items are parsed from, and the fragments it names.
pub open spec fn decl_items(
    kind: DeclKind,
    body: Seq<TokV>,
) -> Result<(Seq<TokV>, Seq<Seq<char>>), Fault> {
    match kind {
        DeclKind::Compose => compose_of(body),
        DeclKind::Fragment => Ok(
            (substituted(normalized(body), placeholder_tokens(UNRESOLVED_CRATE@)), Seq::empty()),
        ),
        DeclKind::Graph => Ok((substituted(body, placeholder_tokens(UNRESOLVED_CRATE@)), Seq::empty())),
    }
}

/// The declaration that a macro body is, or what is wrong with it.
pub open spec fn decl_of(kind: DeclKind, body: Seq<TokV>, file: Seq<char>, line: usize) -> Result<
    DeclV,
    ErrorV,
> {
    match decl_items(kind, body) {
        Err(message) => Err(ErrorV { file, line, message }),
        Ok((items, fragments)) => match items_of(items, kind) {
            Err(message) => Err(ErrorV { file, line, message }),
            Ok(spec) => Ok(
                DeclV {
                    kind,
                    spec,
                    body,
                    fragments,
                    fragment_origins: Seq::empty(),
                    origin: file,
                    line,
                },
            ),
        },
    }
}

fn read_decl_items(kind: DeclKind, body: &Vec<Tok>) -> (r: Result<(Vec<Tok>, Vec<String>), String>)
    ensures
        verdict(r) == decl_items(kind, body.deep_view()),
{
    let none: Vec<String> = Vec::new();
    assert(none.deep_view() == Seq::<Seq<char>>::empty());
    match kind {
        DeclKind::Compose => split_compose(body),
        DeclKind::Fragment => {
            let n = normalize_fragment_crate(body);
            Ok((substitute_dollar_crate(&n, &placeholder(UNRESOLVED_CRATE)), none))
        },
        DeclKind::Graph => Ok((substitute_dollar_crate(body, &placeholder(UNRESOLVED_CRATE)), none)),
    }
}

/// Parses the body of a declaration macro.
pub fn parse_decl(kind: DeclKind, body: Vec<Tok>, file: &str, line: usize) -> (r: Result<Decl, Error>)
    ensures
        settled(r) == decl_of(kind, body.deep_view(), file@, line),
{
    match read_decl_items(kind, &body) {
        Err(message) => Err(Error { file: text(file), line, message }),
        Ok((items, fragments)) => match parse_items(&items, kind) {
            Err(message) => Err(Error { file: text(file), line, message }),
            Ok(spec) => {
                let origins: Vec<(String, String)> = Vec::new();
                assert(origins.deep_view() == Seq::<(Seq<char>, Seq<char>)>::empty());
                Ok(
                    Decl {
                        kind,
                        spec,
                        body,
                        fragments,
                        fragment_origins: origins,
                        origin: text(file),
                        line,
                    },
                )
            },
        },
    }
}

/// The declaration macro that a name is.
pub open spec fn kind_named(name: Seq<char>) -> Option<DeclKind> {
    if name == "supervisor_graph"@ {
        Some(DeclKind::Graph)
    } else if name == "supervisor_fragment"@ {
        Some(DeclKind::Fragment)
    } else if name == "compose_graph"@ {
        Some(DeclKind::Compose)
    } else {
        None
    }
}

/// A body that a `macro_rules!` arm forwards is no declaration: it opens with `@`, or holds a
/// metavariable.
pub open spec fn relayed(s: Seq<TokV>, p: int, e: int) -> bool {
    punct_at(s, p, e, '@') || metavariable_in(s, p, e)
}

/// The declaration macro invoked at `i`: its name, a `!` and a group.
pub open spec fn invoked(s: Seq<TokV>, i: int) -> Option<DeclKind> {
    if i + 2 < s.len() && s[i] is Ident && is_punct(s[i + 1], '!') && s[i + 2] is Open {
        match kind_named(s[i]->Ident_name) {
            Some(k) => if relayed(s, i + 3, close_of(s, i + 2, s.len() as int)) {
                None
            } else {
                Some(k)
            },
            None => None,
        }
    } else {
        None
    }
}

/// The declarations among the tokens from `i` on, behind `acc`, or the first error.
pub open spec fn decls_from(s: Seq<TokV>, file: Seq<char>, i: int, acc: Seq<DeclV>) -> Result<
    Seq<DeclV>,
    ErrorV,
>
    decreases s.len() - i,
{
    if i >= s.len() {
        Ok(acc)
    } else {
        match invoked(s, i) {
            None => decls_from(s, file, i + 1, acc),
            Some(kind) => {
                let e = s.len() as int;
                proof {
                    lemma_close_from(s, i + 3, e, 0);
                }
                match decl_of(kind, s.subrange(i + 3, close_of(s, i + 2, e)), file, line_of(s[i])) {
                    Err(m) => Err(m),
                    Ok(d) => decls_from(s, file, past_group(s, i + 2, e), acc.push(d)),
                }
            },
        }
    }
}

/// The declarations of a tokenized file, or the first error.
pub open spec fn decls_of_tokens(s: Seq<TokV>, file: Seq<char>) -> Result<Seq<DeclV>, ErrorV> {
    decls_from(s, file, 0, Seq::empty())
}

/// The declarations of a source text, or the first error.
pub open spec fn decls_of(src: Seq<char>, file: Seq<char>) -> Result<Seq<DeclV>, ErrorV> {
    match lexed(src) {
        Err((line, m)) => Err(
            ErrorV { file, line, message: "could not tokenize the file: "@ + m },
        ),
        Ok(s) => decls_of_tokens(s, file),
    }
}

fn find_kind(name: &str) -> (r: Option<DeclKind>)
    ensures
        r == kind_named(name@),
{
    if same(name, "supervisor_graph") {
        Some(DeclKind::Graph)
    } else if same(name, "supervisor_fragment") {
        Some(DeclKind::Fragment)
    } else if same(name, "compose_graph") {
        Some(DeclKind::Compose)
    } else {
        None
    }
}

fn find_invocation(toks: &Vec<Tok>, i: usize) -> (r: Option<DeclKind>)
    requires
        i < toks@.len(),
    ensures
        r == invoked(toks.deep_view(), i as int),
{
    let n = toks.len();
    if n - i <= 2 || !toks[i + 1].is_punct('!') || !is_open(&toks[i + 2]) {
        return None;
    }
    match &toks[i] {
        Tok::Ident { name, line } => match find_kind(name.as_str()) {
            Some(k) => {
                let c = group_end(toks, i + 2, n);
                if at_punct(toks, i + 3, c, '@') || has_metavariable(toks, i + 3, c) {
                    None
                } else {
                    Some(k)
                }
            },
            None => None,
        },
        _ => None,
    }
}

/// Parses every declaration of a tokenized file, wherever it stands.
pub fn parse_tokens(toks: &Vec<Tok>, file: &str) -> (r: Result<Vec<Decl>, Error>)
    ensures
        settled(r) == decls_of_tokens(toks.deep_view(), file@),
{
    let n = toks.len();
    let ghost s = toks.deep_view();
    let mut out: Vec<Decl> = Vec::new();
    assert(out.deep_view() == Seq::<DeclV>::empty());
    let mut i: usize = 0;
    while i < n
        invariant
            i <= n == toks@.len(),
            s == toks.deep_view(),
            decls_of_tokens(s, file@) == decls_from(s, file@, i as int, out.deep_view()),
        decreases n - i,
    {
        match find_invocation(toks, i) {
            None => {
                i = i + 1;
            },
            Some(kind) => {
                let c = group_end(toks, i + 2, n);
                let body = token_range(toks, i + 3, c);
                let line = line_at(toks, i);
                let d = match parse_decl(kind, body, file, line) {
                    Ok(d) => d,
                    Err(e) => {
                        return Err(e);
                    },
                };
                put(&mut out, d);
                i = after_group(toks, i + 2, n);
            },
        }
    }
    Ok(out)
}

/// Parses every declaration of a source file.
///
/// Declarations inside modules are found too; `macro_rules!` arms that forward to one of the macros
/// are passed over.
pub fn parse_source(src: &str, file: &str) -> (r: Result<Vec<Decl>, Error>)
    ensures
        settled(r) == decls_of(src@, file@),
{
    match lex(src) {
        Err(e) => Err(
            Error {
                file: text(file),
                line: e.line,
                message: cat2("could not tokenize the file: ", e.message.as_str()),
            },
        ),
        Ok(toks) => parse_tokens(&toks, file),
    }
}

} // verus!
