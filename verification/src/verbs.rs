//! Dataflow verbs: which methods of a task node read or write a signal, and where a body calls
//! them.

use vstd::prelude::*;
use vstd::string::*;

use crate::ast::{strip, stripped};
use crate::list::{put, Dup};
use crate::lists::{ident_entries, lemma_close_from, read_idents};
use crate::node::lemma_group_end;
use crate::parse::{
    at_open, at_punct, at_word, open_at, punct_at, read_group, read_ident, read_punct, take_group,
    take_ident, take_punct, verdict, word_at, Fault,
};
use crate::rust::{parse_signal_argument, signal_argument};
use crate::text::{cat3, same, text};
use crate::token::{
    after_group, close_of, group_end, is_punct, is_word, lex, lexed, past_group, render_tokens,
    source_text, Delim, Tok, TokV,
};

verus! {

/// A verb every task node has that reads a signal.
pub open spec fn builtin_read(name: Seq<char>) -> bool {
    name == "get"@ || name == "reader"@ || name == "open"@ || name == "lease"@
}

/// A verb every task node has that writes a signal.
pub open spec fn builtin_write(name: Seq<char>) -> bool {
    name == "put"@ || name == "writer"@ || name == "beat_put"@ || name == "beat_writer"@
}

pub fn is_builtin_read(name: &str) -> (r: bool)
    ensures
        r == builtin_read(name@),
{
    same(name, "get") || same(name, "reader") || same(name, "open") || same(name, "lease")
}

pub fn is_builtin_write(name: &str) -> (r: bool)
    ensures
        r == builtin_write(name@),
{
    same(name, "put") || same(name, "writer") || same(name, "beat_put") || same(name, "beat_writer")
}

/// The verbs of a function: the built-in ones, and those it registers with their direction (`true` for a write).
#[derive(Debug)]
pub struct VerbTable {
    /// The registered verbs.
    pub custom: Vec<(String, bool)>,
}

/// What a [`VerbTable`] means.
pub struct VerbTableV {
    pub custom: Seq<(Seq<char>, bool)>,
}

impl DeepView for VerbTable {
    type V = VerbTableV;

    open spec fn deep_view(&self) -> VerbTableV {
        VerbTableV {
            custom: self.custom.deep_view(),
        }
    }
}

impl Dup for VerbTable {
    fn dup(&self) -> (r: Self) {
        VerbTable {
            custom: self.custom.dup(),
        }
    }
}


/// The direction that a registered verb first has, from entry `i` on.
pub open spec fn custom_direction(
    custom: Seq<(Seq<char>, bool)>,
    name: Seq<char>,
    i: int,
) -> Option<bool>
    decreases custom.len() - i,
{
    if i >= custom.len() {
        None
    } else if custom[i].0 == name {
        Some(custom[i].1)
    } else {
        custom_direction(custom, name, i + 1)
    }
}

/// Whether a verb writes (`true`) or reads (`false`); `None` for no verb.
pub open spec fn verb_direction(t: VerbTableV, name: Seq<char>) -> Option<bool> {
    if builtin_write(name) {
        Some(true)
    } else if builtin_read(name) {
        Some(false)
    } else {
        custom_direction(t.custom, name, 0)
    }
}

/// The table of the built-in verbs alone.
pub open spec fn builtin_table() -> VerbTableV {
    VerbTableV { custom: Seq::empty() }
}

pub const BUILTIN_VERB: &'static str = "` is a built-in verb and is always recognised: registering it would either repeat what the crate already says or contradict it. Give the new verb its own name";

pub const VERB_TWICE: &'static str = "` is registered twice; a verb points one way";

/// `t` with one more verb; refused for a built-in verb and for one it has.
pub open spec fn with_verb(t: VerbTableV, name: Seq<char>, write: bool) -> Result<VerbTableV, Fault> {
    if builtin_read(name) || builtin_write(name) {
        Err("`"@ + name + BUILTIN_VERB@)
    } else if custom_direction(t.custom, name, 0) is Some {
        Err("`"@ + name + VERB_TWICE@)
    } else {
        Ok(VerbTableV { custom: t.custom.push((name, write)) })
    }
}

impl VerbTable {
    /// The table of the built-in verbs alone.
    pub fn builtin() -> (r: VerbTable)
        ensures
            r.deep_view() == builtin_table(),
    {
        let r = VerbTable { custom: Vec::new() };
        assert(r.custom.deep_view() == Seq::<(Seq<char>, bool)>::empty());
        r
    }

    fn custom_direction(&self, name: &str) -> (r: Option<bool>)
        ensures
            r == custom_direction(self.deep_view().custom, name@, 0),
    {
        let mut i: usize = 0;
        while i < self.custom.len()
            invariant
                i <= self.custom@.len(),
                custom_direction(self.deep_view().custom, name@, 0) == custom_direction(
                    self.deep_view().custom,
                    name@,
                    i as int,
                ),
            decreases self.custom@.len() - i,
        {
            if same(self.custom[i].0.as_str(), name) {
                return Some(self.custom[i].1);
            }
            i = i + 1;
        }
        None
    }

    /// The direction of a verb: `Some(true)` for a write, `Some(false)` for a read, `None` for a
    /// method that is no verb.
    pub fn direction(&self, ident: &str) -> (r: Option<bool>)
        ensures
            r == verb_direction(self.deep_view(), ident@),
    {
        if is_builtin_write(ident) {
            Some(true)
        } else if is_builtin_read(ident) {
            Some(false)
        } else {
            self.custom_direction(ident)
        }
    }

    fn enter(&mut self, name: &String, write: bool) -> (r: Result<(), String>)
        ensures
            match r {
                Ok(_) => with_verb(old(self).deep_view(), name@, write) == Ok::<VerbTableV, Fault>(
                    final(self).deep_view(),
                ),
                Err(m) => with_verb(old(self).deep_view(), name@, write) == Err::<VerbTableV, Fault>(m@),
            },
    {
        if is_builtin_read(name.as_str()) || is_builtin_write(name.as_str()) {
            return Err(cat3("`", name.as_str(), BUILTIN_VERB));
        }
        if self.custom_direction(name.as_str()).is_some() {
            return Err(cat3("`", name.as_str(), VERB_TWICE));
        }
        put(&mut self.custom, (name.clone(), write));
        Ok(())
    }
}

/// `t` with the verbs of `names` from `i` on.
pub open spec fn with_verbs(t: VerbTableV, names: Seq<Seq<char>>, write: bool, i: int) -> Result<
    VerbTableV,
    Fault,
>
    decreases names.len() - i,
{
    if i >= names.len() {
        Ok(t)
    } else {
        match with_verb(t, names[i], write) {
            Err(m) => Err(m),
            Ok(u) => with_verbs(u, names, write, i + 1),
        }
    }
}

pub const REGISTRATION_WANTED: &'static str = "`#[dataflow]` takes verb registrations: `read(<verb>, ..)` / `write(<verb>, ..)`, naming methods your own extension trait adds to `TaskNode`. A derived table states this fn's couplings and nothing else";

pub const DIRECTION_WANTED: &'static str = "`. The walker has no type information, so which way a registered verb points is stated here";

/// Reads one `read(..)` or `write(..)` registration into `t`.
pub open spec fn take_registration(t: VerbTableV, s: Seq<TokV>, p: int, e: int) -> Result<
    (VerbTableV, int),
    Fault,
> {
    match take_ident(s, p, e) {
        Err(_) => Err(REGISTRATION_WANTED@),
        Ok((kw, a)) => if kw != "read"@ && kw != "write"@ {
            Err("expected `read(..)` or `write(..)`, found `"@ + kw + DIRECTION_WANTED@)
        } else {
            match take_group(s, a, e, Delim::Paren) {
                Err(m) => Err(m),
                Ok((c, q)) => match ident_entries(s, a + 1, c, Seq::empty()) {
                    Err(m) => Err(m),
                    Ok(names) => if names.len() == 0 {
                        Err("`"@ + kw + "(..)` names no verb"@)
                    } else {
                        match with_verbs(t, names, kw == "write"@, 0) {
                            Err(m) => Err(m),
                            Ok(u) => Ok((u, q)),
                        }
                    },
                },
            }
        },
    }
}

pub proof fn lemma_take_registration(t: VerbTableV, s: Seq<TokV>, p: int, e: int)
    requires
        p < e,
    ensures
        take_registration(t, s, p, e) matches Ok((_, q)) ==> p < q <= e,
{
    lemma_group_end(s, p + 1, e, Delim::Paren);
}

/// Reads the registrations of `s[p..e]` into `t`.
pub open spec fn registrations(t: VerbTableV, s: Seq<TokV>, p: int, e: int) -> Result<VerbTableV, Fault>
    decreases e - p,
{
    if p >= e {
        Ok(t)
    } else {
        match take_registration(t, s, p, e) {
            Err(m) => Err(m),
            Ok((u, q)) => {
                proof {
                    lemma_take_registration(t, s, p, e);
                }
                if q < e {
                    match take_punct(s, q, e, ',') {
                        Err(m) => Err(m),
                        Ok(r) => registrations(u, s, r, e),
                    }
                } else {
                    Ok(u)
                }
            },
        }
    }
}

/// The table that an attribute's arguments register, or what is wrong with them.
pub open spec fn table_of(s: Seq<TokV>) -> Result<VerbTableV, Fault> {
    registrations(builtin_table(), s, 0, s.len() as int)
}

impl VerbTable {
    fn enter_all(&mut self, names: &Vec<String>, write: bool) -> (r: Result<(), String>)
        ensures
            match r {
                Ok(_) => with_verbs(old(self).deep_view(), names.deep_view(), write, 0) == Ok::<
                    VerbTableV,
                    Fault,
                >(final(self).deep_view()),
                Err(m) => with_verbs(old(self).deep_view(), names.deep_view(), write, 0) == Err::<
                    VerbTableV,
                    Fault,
                >(m@),
            },
    {
        let mut i: usize = 0;
        while i < names.len()
            invariant
                i <= names@.len(),
                with_verbs(old(self).deep_view(), names.deep_view(), write, 0) == with_verbs(
                    self.deep_view(),
                    names.deep_view(),
                    write,
                    i as int,
                ),
            decreases names@.len() - i,
        {
            self.enter(&names[i], write)?;
            i = i + 1;
        }
        Ok(())
    }

    fn register(&mut self, toks: &Vec<Tok>, p: usize, e: usize) -> (r: Result<usize, String>)
        requires
            p < e <= toks@.len(),
        ensures
            match r {
                Ok(q) => take_registration(old(self).deep_view(), toks.deep_view(), p as int, e as int)
                    == Ok::<(VerbTableV, int), Fault>((final(self).deep_view(), q as int)) && p < q
                    <= e,
                Err(m) => take_registration(
                    old(self).deep_view(),
                    toks.deep_view(),
                    p as int,
                    e as int,
                ) == Err::<(VerbTableV, int), Fault>(m@),
            },
    {
        let (kw, a) = match read_ident(toks, p, e) {
            Ok(x) => x,
            Err(_) => {
                return Err(text(REGISTRATION_WANTED));
            },
        };
        if !same(kw.as_str(), "read") && !same(kw.as_str(), "write") {
            return Err(
                cat3("expected `read(..)` or `write(..)`, found `", kw.as_str(), DIRECTION_WANTED),
            );
        }
        let (c, q) = read_group(toks, a, e, Delim::Paren)?;
        let names = read_idents(toks, a + 1, c)?;
        if names.len() == 0 {
            return Err(cat3("`", kw.as_str(), "(..)` names no verb"));
        }
        self.enter_all(&names, same(kw.as_str(), "write"))?;
        Ok(q)
    }

    /// Parses the arguments of a `#[dataflow(..)]` attribute.
    pub fn parse(toks: &Vec<Tok>) -> (r: Result<VerbTable, String>)
        ensures
            verdict(r) == table_of(toks.deep_view()),
    {
        let mut t = VerbTable::builtin();
        let ghost s = toks.deep_view();
        let e = toks.len();
        let mut i: usize = 0;
        while i < e
            invariant
                i <= e == toks@.len(),
                s == toks.deep_view(),
                table_of(s) == registrations(t.deep_view(), s, i as int, e as int),
            decreases e - i,
        {
            let q = t.register(toks, i, e)?;
            if q < e {
                i = read_punct(toks, q, e, ',')?;
            } else {
                i = q;
            }
        }
        Ok(t)
    }
}

/// The table that the tokens of an argument list register; the built-in one where they are wrong.
pub open spec fn table_of_text(list: Seq<char>) -> VerbTableV {
    match lexed(list) {
        Ok(toks) => match table_of(toks) {
            Ok(t) => t,
            Err(_) => builtin_table(),
        },
        Err(_) => builtin_table(),
    }
}

pub fn parse_table_text(list: &str) -> (r: VerbTable)
    ensures
        r.deep_view() == table_of_text(list@),
{
    match lex(list) {
        Ok(toks) => match VerbTable::parse(&toks) {
            Ok(t) => t,
            Err(_) => VerbTable::builtin(),
        },
        Err(_) => VerbTable::builtin(),
    }
}

/// One verb call found in a body.
#[derive(Debug)]
pub struct VerbCall {
    /// The verb.
    pub verb: String,
    /// The `cfg` predicates in force at the call, without spaces.
    pub cfgs: Vec<String>,
    /// The call writes.
    pub write: bool,
    /// The signal argument, as tokens.
    pub target: String,
    /// The signal, without spaces.
    pub path: String,
}

/// What a [`VerbCall`] means.
pub struct VerbCallV {
    pub verb: Seq<char>,
    pub cfgs: Seq<Seq<char>>,
    pub write: bool,
    pub target: Seq<char>,
    pub path: Seq<char>,
}

impl DeepView for VerbCall {
    type V = VerbCallV;

    open spec fn deep_view(&self) -> VerbCallV {
        VerbCallV {
            verb: self.verb.deep_view(),
            cfgs: self.cfgs.deep_view(),
            write: self.write.deep_view(),
            target: self.target.deep_view(),
            path: self.path.deep_view(),
        }
    }
}

impl Dup for VerbCall {
    fn dup(&self) -> (r: Self) {
        VerbCall {
            verb: self.verb.dup(),
            cfgs: self.cfgs.dup(),
            write: self.write.dup(),
            target: self.target.dup(),
            path: self.path.dup(),
        }
    }
}

/// A body being rewritten: the tokens so far, and the calls found so far.
#[derive(Debug)]
pub struct Rewrite {
    /// The tokens.
    pub out: Vec<Tok>,
    /// The calls.
    pub calls: Vec<VerbCall>,
    /// Why the walk stopped, where it did.
    pub fault: Option<String>,
}

/// What a [`Rewrite`] means.
pub struct RewriteV {
    pub out: Seq<TokV>,
    pub calls: Seq<VerbCallV>,
    pub fault: Option<Seq<char>>,
}

impl DeepView for Rewrite {
    type V = RewriteV;

    open spec fn deep_view(&self) -> RewriteV {
        RewriteV {
            out: self.out.deep_view(),
            calls: self.calls.deep_view(),
            fault: self.fault.deep_view(),
        }
    }
}

impl Dup for Rewrite {
    fn dup(&self) -> (r: Self) {
        Rewrite {
            out: self.out.dup(),
            calls: self.calls.dup(),
            fault: self.fault.dup(),
        }
    }
}


/// The attribute group that opens at `p` holds exactly `cfg(..)`.
pub open spec fn cfg_group(s: Seq<TokV>, p: int, e: int) -> bool {
    let c = close_of(s, p, e);
    word_at(s, p + 1, c, "cfg"@) && open_at(s, p + 2, c, Delim::Paren) && close_of(s, p + 2, c) == c - 1
}

/// The predicate of the `cfg(..)` attribute group that opens at `p`, without spaces.
pub open spec fn cfg_predicate(s: Seq<TokV>, p: int, e: int) -> Seq<char> {
    stripped(source_text(s, p + 3, close_of(s, p, e) - 1))
}

fn read_cfg_predicate(toks: &Vec<Tok>, p: usize, e: usize) -> (r: Option<String>)
    requires
        p < e <= toks@.len(),
    ensures
        match r {
            Some(t) => cfg_group(toks.deep_view(), p as int, e as int) && t@ == cfg_predicate(
                toks.deep_view(),
                p as int,
                e as int,
            ),
            None => !cfg_group(toks.deep_view(), p as int, e as int),
        },
{
    let c = group_end(toks, p, e);
    if at_word(toks, p + 1, c, "cfg") && at_open(toks, p + 2, c, Delim::Paren) && group_end(
        toks,
        p + 2,
        c,
    ) == c - 1 {
        let t = render_tokens(toks, p + 3, c - 1);
        Some(strip(t.as_str()))
    } else {
        None
    }
}

/// Where the nested function that begins at `i` ends: behind its body or its `;`.
pub open spec fn fn_end(s: Seq<TokV>, i: int, e: int) -> int
    decreases e - i,
{
    if i >= e {
        e
    } else {
        match s[i] {
            TokV::Open(d) => {
                proof {
                    lemma_close_from(s, i + 1, e, 0);
                }
                if d == Delim::Brace {
                    past_group(s, i, e)
                } else {
                    fn_end(s, past_group(s, i, e), e)
                }
            },
            TokV::Punct { ch, joint } => if ch == ';' {
                i + 1
            } else {
                fn_end(s, i + 1, e)
            },
            _ => fn_end(s, i + 1, e),
        }
    }
}

fn skip_fn(toks: &Vec<Tok>, p: usize, e: usize) -> (r: usize)
    requires
        p < e <= toks@.len(),
    ensures
        r == fn_end(toks.deep_view(), p as int, e as int),
        p < r <= e,
{
    let ghost s = toks.deep_view();
    let mut i: usize = p;
    while i < e
        invariant
            p <= i <= e <= toks@.len(),
            p < e,
            s == toks.deep_view(),
            fn_end(s, p as int, e as int) == fn_end(s, i as int, e as int),
        decreases e - i,
    {
        match &toks[i] {
            Tok::Open(d) => {
                let q = after_group(toks, i, e);
                if *d == Delim::Brace {
                    return q;
                }
                i = q;
            },
            Tok::Punct { ch, joint } => {
                if *ch == ';' {
                    return i + 1;
                }
                i = i + 1;
            },
            _ => {
                i = i + 1;
            },
        }
    }
    e
}

/// The first top-level comma of `s[i..e]`, inside `depth` groups; `e` where there is none.
pub open spec fn first_comma(s: Seq<TokV>, i: int, e: int, depth: nat) -> int
    decreases e - i,
{
    if i >= e {
        e
    } else {
        match s[i] {
            TokV::Open(_) => first_comma(s, i + 1, e, depth + 1),
            TokV::Close(_) => first_comma(
                s,
                i + 1,
                e,
                if depth > 0 {
                    (depth - 1) as nat
                } else {
                    0
                },
            ),
            TokV::Punct { ch, joint } => if ch == ',' && depth == 0 {
                i
            } else {
                first_comma(s, i + 1, e, depth)
            },
            _ => first_comma(s, i + 1, e, depth),
        }
    }
}

pub proof fn lemma_first_comma(s: Seq<TokV>, i: int, e: int, depth: nat)
    requires
        i <= e,
    ensures
        i <= first_comma(s, i, e, depth) <= e,
    decreases e - i,
{
    if i < e {
        lemma_first_comma(s, i + 1, e, depth + 1);
        lemma_first_comma(s, i + 1, e, depth);
        lemma_first_comma(
            s,
            i + 1,
            e,
            if depth > 0 {
                (depth - 1) as nat
            } else {
                0
            },
        );
    }
}

fn find_comma(toks: &Vec<Tok>, p: usize, e: usize) -> (r: usize)
    requires
        p <= e <= toks@.len(),
    ensures
        r == first_comma(toks.deep_view(), p as int, e as int, 0),
        p <= r <= e,
{
    let ghost s = toks.deep_view();
    let mut i: usize = p;
    let mut depth: usize = 0;
    while i < e
        invariant
            p <= i <= e <= toks@.len(),
            depth <= i - p,
            s == toks.deep_view(),
            first_comma(s, p as int, e as int, 0) == first_comma(
                s,
                i as int,
                e as int,
                depth as nat,
            ),
        decreases e - i,
    {
        match &toks[i] {
            Tok::Open(_) => {
                depth = depth + 1;
            },
            Tok::Close(_) => {
                if depth > 0 {
                    depth = depth - 1;
                }
            },
            Tok::Punct { ch, joint } => {
                if *ch == ',' && depth == 0 {
                    return i;
                }
            },
            _ => {},
        }
        i = i + 1;
    }
    e
}

/// The tokens of `s[p..e]` behind those of `w`.
pub open spec fn copied(w: RewriteV, s: Seq<TokV>, p: int, e: int) -> RewriteV {
    RewriteV { out: w.out + s.subrange(p, e), ..w }
}

/// What is answered to a verb call that a walk finds.
#[derive(Debug)]
pub enum Reply {
    /// Its first argument stays.
    Keep,
    /// Its first argument becomes these tokens.
    Replace(Vec<Tok>),
    /// The walk ends with this fault.
    Refuse(String),
}

/// What a [`Reply`] means.
pub enum ReplyV {
    Keep,
    Replace(Seq<TokV>),
    Refuse(Fault),
}

impl DeepView for Reply {
    type V = ReplyV;

    open spec fn deep_view(&self) -> ReplyV {
        match self {
            Reply::Keep => ReplyV::Keep,
            Reply::Replace(toks) => ReplyV::Replace(toks.deep_view()),
            Reply::Refuse(m) => ReplyV::Refuse(m@),
        }
    }
}

/// What the verbs of a body are looked up by, and what is answered to their calls: the `k`th call
/// found gets the `k`th reply, and is kept where the list is shorter.
pub struct WalkV {
    pub node: Seq<char>,
    pub verbs: VerbTableV,
    pub replies: Seq<ReplyV>,
}

/// A method call on the node stands at `i`, not behind a `.` or `:`.
pub open spec fn own_call(x: WalkV, s: Seq<TokV>, lo: int, i: int, e: int) -> bool {
    &&& (i == lo || !(is_punct(s[i - 1], '.') || is_punct(s[i - 1], ':')))
    &&& i + 3 < e
    &&& is_word(s[i], x.node)
    &&& is_punct(s[i + 1], '.')
    &&& s[i + 2] is Ident
    &&& s[i + 3] == TokV::Open(Delim::Paren)
}

/// The direction of the verb called at `i`, where a verb is.
pub open spec fn verb_at(x: WalkV, s: Seq<TokV>, lo: int, i: int, e: int) -> Option<bool> {
    if own_call(x, s, lo, i, e) {
        verb_direction(x.verbs, s[i + 2]->Ident_name)
    } else {
        None
    }
}

pub const LITERAL_PATH: &'static str = "the supervisor derives dataflow from the literal path: name the signal directly (`&path::TO_SIGNAL`, `&ARR[i]`)";

/// What is answered to call number `k`.
pub open spec fn reply_to(x: WalkV, k: int) -> ReplyV {
    if 0 <= k < x.replies.len() {
        x.replies[k]
    } else {
        ReplyV::Keep
    }
}

/// The verb call that opens its arguments at `p` (the verb stands just before), in `w`.
pub open spec fn entered(
    x: WalkV,
    s: Seq<TokV>,
    p: int,
    e: int,
    write: bool,
    cfgs: Seq<Seq<char>>,
    w: RewriteV,
) -> RewriteV {
    let c = close_of(s, p, e);
    let m = first_comma(s, p + 1, c, 0);
    match signal_argument(source_text(s, p + 1, m)) {
        None => RewriteV { fault: Some(LITERAL_PATH@), ..w },
        Some(target) => {
            let calls = w.calls.push(
                VerbCallV {
                    verb: s[p - 1]->Ident_name,
                    cfgs,
                    write,
                    target,
                    path: stripped(target),
                },
            );
            match reply_to(x, w.calls.len() as int) {
                ReplyV::Keep => RewriteV {
                    out: w.out + s.subrange(p + 1, m),
                    calls,
                    fault: w.fault,
                },
                ReplyV::Replace(r) => RewriteV { out: w.out + r, calls, fault: w.fault },
                ReplyV::Refuse(f) => RewriteV { out: w.out, calls, fault: Some(f) },
            }
        },
    }
}

/// A block at an expression's end goes on behind it: with `else`, `.` or `?`.
pub open spec fn goes_on(s: Seq<TokV>, p: int, e: int) -> bool {
    word_at(s, p, e, "else"@) || punct_at(s, p, e, '.') || punct_at(s, p, e, '?')
}

/// Rewrites `s[i..e]`, part of the tokens `s[lo..e]` of one group, into `w`, up to the first call
/// whose argument is no literal path or that is refused. `inherited` are the predicates in force around the group,
/// `current` those of the statement, `pending` those just read.
pub open spec fn rewritten(
    x: WalkV,
    s: Seq<TokV>,
    lo: int,
    i: int,
    e: int,
    inherited: Seq<Seq<char>>,
    pending: Seq<Seq<char>>,
    current: Seq<Seq<char>>,
    w: RewriteV,
) -> RewriteV
    decreases e - i,
{
    if i >= e {
        w
    } else if punct_at(s, i, e, '#') && open_at(s, i + 1, e, Delim::Bracket) {
        proof {
            lemma_close_from(s, i + 2, e, 0);
        }
        rewritten(
            x,
            s,
            lo,
            past_group(s, i + 1, e),
            e,
            inherited,
            if cfg_group(s, i + 1, e) {
                pending.push(cfg_predicate(s, i + 1, e))
            } else {
                pending
            },
            current,
            copied(w, s, i, past_group(s, i + 1, e)),
        )
    } else {
        let now = current + pending;
        let none = Seq::<Seq<char>>::empty();
        if word_at(s, i, e, "fn"@) && i + 1 < e && s[i + 1] is Ident {
            proof {
                lemma_fn_end(s, i, e);
            }
            rewritten(
                x,
                s,
                lo,
                fn_end(s, i, e),
                e,
                inherited,
                none,
                none,
                copied(w, s, i, fn_end(s, i, e)),
            )
        } else if verb_at(x, s, lo, i, e) is Some {
            let write = verb_at(x, s, lo, i, e)->0;
            let c = close_of(s, i + 3, e);
            proof {
                lemma_close_from(s, i + 4, e, 0);
                lemma_first_comma(s, i + 4, c, 0);
            }
            let w1 = entered(x, s, i + 3, e, write, inherited + now, copied(w, s, i, i + 4));
            if w1.fault is Some {
                w1
            } else {
                let m = first_comma(s, i + 4, c, 0);
                let w2 = rewritten(x, s, m, m, c, inherited + now, none, none, w1);
                if w2.fault is Some {
                    w2
                } else {
                    rewritten(
                        x,
                        s,
                        lo,
                        past_group(s, i + 3, e),
                        e,
                        inherited,
                        none,
                        now,
                        copied(w2, s, c, past_group(s, i + 3, e)),
                    )
                }
            }
        } else {
            match s[i] {
                TokV::Open(d) => {
                    let c = close_of(s, i, e);
                    let q = past_group(s, i, e);
                    proof {
                        lemma_close_from(s, i + 1, e, 0);
                    }
                    let w2 = rewritten(
                        x,
                        s,
                        i + 1,
                        i + 1,
                        c,
                        inherited + now,
                        none,
                        none,
                        copied(w, s, i, i + 1),
                    );
                    if w2.fault is Some {
                        w2
                    } else {
                        rewritten(
                            x,
                            s,
                            lo,
                            q,
                            e,
                            inherited,
                            none,
                            if d == Delim::Brace && !goes_on(s, q, e) {
                                none
                            } else {
                                now
                            },
                            copied(w2, s, c, q),
                        )
                    }
                },
                _ => rewritten(
                    x,
                    s,
                    lo,
                    i + 1,
                    e,
                    inherited,
                    none,
                    if is_punct(s[i], ';') || is_punct(s[i], ',') {
                        none
                    } else {
                        now
                    },
                    copied(w, s, i, i + 1),
                ),
            }
        }
    }
}

pub proof fn lemma_fn_end(s: Seq<TokV>, i: int, e: int)
    requires
        i < e,
    ensures
        i < fn_end(s, i, e) <= e,
    decreases e - i,
{
    lemma_close_from(s, i + 1, e, 0);
    assert(fn_end(s, e, e) == e);
    match s[i] {
        TokV::Open(d) => {
            if d != Delim::Brace && past_group(s, i, e) < e {
                lemma_fn_end(s, past_group(s, i, e), e);
            }
        },
        _ => {
            if i + 1 < e {
                lemma_fn_end(s, i + 1, e);
            }
        },
    }
}


fn copy_range(w: &mut Rewrite, toks: &Vec<Tok>, p: usize, e: usize)
    requires
        p <= e <= toks@.len(),
    ensures
        final(w).deep_view() == copied(old(w).deep_view(), toks.deep_view(), p as int, e as int),
{
    let ghost s = toks.deep_view();
    let mut i: usize = p;
    assert(w.out.deep_view() + s.subrange(p as int, p as int) == w.out.deep_view());
    while i < e
        invariant
            p <= i <= e <= toks@.len(),
            s == toks.deep_view(),
            w.deep_view() == copied(old(w).deep_view(), s, p as int, i as int),
        decreases e - i,
    {
        put(&mut w.out, toks[i].dup());
        i = i + 1;
        assert(w.out.deep_view() == old(w).out.deep_view() + s.subrange(p as int, i as int));
    }
}

fn append_tokens(w: &mut Rewrite, more: &Vec<Tok>)
    ensures
        final(w).deep_view() == (RewriteV {
            out: old(w).deep_view().out + more.deep_view(),
            ..old(w).deep_view()
        }),
{
    copy_range(w, more, 0, more.len());
    assert(more.deep_view().subrange(0, more@.len() as int) == more.deep_view());
}

/// Both lists, one behind the other.
fn both(a: &Vec<String>, b: &Vec<String>) -> (r: Vec<String>)
    ensures
        r.deep_view() == a.deep_view() + b.deep_view(),
{
    let mut out = a.dup();
    let mut i: usize = 0;
    assert(a.deep_view() + b.deep_view().take(0) == a.deep_view());
    while i < b.len()
        invariant
            i <= b@.len(),
            out.deep_view() == a.deep_view() + b.deep_view().take(i as int),
        decreases b@.len() - i,
    {
        put(&mut out, b[i].clone());
        i = i + 1;
        assert(out.deep_view() == a.deep_view() + b.deep_view().take(i as int));
    }
    assert(b.deep_view().take(b@.len() as int) == b.deep_view());
    out
}

struct Walk<'a> {
    node: &'a str,
    verbs: &'a VerbTable,
    replies: &'a Vec<Reply>,
}

impl<'a> Walk<'a> {
    spec fn meaning(&self) -> WalkV {
        WalkV {
            node: self.node@,
            verbs: self.verbs.deep_view(),
            replies: self.replies.deep_view(),
        }
    }

    fn verb_at(&self, toks: &Vec<Tok>, lo: usize, i: usize, e: usize) -> (r: Option<bool>)
        requires
            lo <= i < e <= toks@.len(),
        ensures
            r == verb_at(self.meaning(), toks.deep_view(), lo as int, i as int, e as int),
    {
        if i > lo && (toks[i - 1].is_punct('.') || toks[i - 1].is_punct(':')) {
            return None;
        }
        if e - i <= 3 || !toks[i].is_word(self.node) || !toks[i + 1].is_punct('.') || !at_open(
            toks,
            i + 3,
            e,
            Delim::Paren,
        ) {
            return None;
        }
        match &toks[i + 2] {
            Tok::Ident { name, line } => self.verbs.direction(name.as_str()),
            _ => None,
        }
    }

    fn enter(
        &self,
        toks: &Vec<Tok>,
        p: usize,
        e: usize,
        write: bool,
        cfgs: &Vec<String>,
        w: &mut Rewrite,
    )
        requires
            0 < p < e <= toks@.len(),
            toks@[p - 1] is Ident,
        ensures
            final(w).deep_view() == entered(
                self.meaning(),
                toks.deep_view(),
                p as int,
                e as int,
                write,
                cfgs.deep_view(),
                old(w).deep_view(),
            ),
    {
        let c = group_end(toks, p, e);
        let m = find_comma(toks, p + 1, c);
        let src = render_tokens(toks, p + 1, m);
        let target = match parse_signal_argument(src.as_str()) {
            None => {
                w.fault = Some(text(LITERAL_PATH));
                return;
            },
            Some(t) => t,
        };
        let k = w.calls.len();
        if k < self.replies.len() {
            match &self.replies[k] {
                Reply::Keep => copy_range(w, toks, p + 1, m),
                Reply::Replace(more) => append_tokens(w, more),
                Reply::Refuse(why) => {
                    w.fault = Some(why.dup());
                },
            }
        } else {
            copy_range(w, toks, p + 1, m);
        }
        let path = strip(target.as_str());
        let verb = toks[p - 1].text();
        put(&mut w.calls, VerbCall { verb, cfgs: cfgs.dup(), write, target, path });
    }

    fn rewrite(
        &self,
        toks: &Vec<Tok>,
        lo: usize,
        e: usize,
        inherited: &Vec<String>,
        w: &mut Rewrite,
    )
        requires
            lo <= e <= toks@.len(),
        ensures
            final(w).deep_view() == rewritten(
                self.meaning(),
                toks.deep_view(),
                lo as int,
                lo as int,
                e as int,
                inherited.deep_view(),
                Seq::empty(),
                Seq::empty(),
                old(w).deep_view(),
            ),
        decreases e - lo,
    {
        let ghost s = toks.deep_view();
        let ghost x = self.meaning();
        let ghost inh = inherited.deep_view();
        let ghost none = Seq::<Seq<char>>::empty();
        let ghost w0 = w.deep_view();
        let mut pending: Vec<String> = Vec::new();
        let mut current: Vec<String> = Vec::new();
        assert(pending.deep_view() == none);
        assert(current.deep_view() == none);
        let mut i: usize = lo;
        while i < e
            invariant
                lo <= i <= e <= toks@.len(),
                s == toks.deep_view(),
                x == self.meaning(),
                inh == inherited.deep_view(),
                none == Seq::<Seq<char>>::empty(),
                w0 == old(w).deep_view(),
                rewritten(x, s, lo as int, lo as int, e as int, inh, none, none, w0) == rewritten(
                    x,
                    s,
                    lo as int,
                    i as int,
                    e as int,
                    inh,
                    pending.deep_view(),
                    current.deep_view(),
                    w.deep_view(),
                ),
            decreases e - i,
        {
            if at_punct(toks, i, e, '#') && at_open(toks, i + 1, e, Delim::Bracket) {
                if let Some(t) = read_cfg_predicate(toks, i + 1, e) {
                    put(&mut pending, t);
                }
                let q = after_group(toks, i + 1, e);
                copy_range(w, toks, i, q);
                i = q;
                continue;
            }
            current = both(&current, &pending);
            pending = Vec::new();
            assert(pending.deep_view() == none);
            if at_word(toks, i, e, "fn") && e - i > 1 && is_ident(&toks[i + 1]) {
                let q = skip_fn(toks, i, e);
                copy_range(w, toks, i, q);
                current = Vec::new();
                assert(current.deep_view() == none);
                i = q;
                continue;
            }
            if let Some(write) = self.verb_at(toks, lo, i, e) {
                let c = group_end(toks, i + 3, e);
                let m = find_comma(toks, i + 4, c);
                let cfgs = both(inherited, &current);
                copy_range(w, toks, i, i + 4);
                self.enter(toks, i + 3, e, write, &cfgs, w);
                if w.fault.is_some() {
                    return;
                }
                self.rewrite(toks, m, c, &cfgs, w);
                if w.fault.is_some() {
                    return;
                }
                let q = after_group(toks, i + 3, e);
                copy_range(w, toks, c, q);
                i = q;
                continue;
            }
            match &toks[i] {
                Tok::Open(d) => {
                    let c = group_end(toks, i, e);
                    let q = after_group(toks, i, e);
                    let child = both(inherited, &current);
                    copy_range(w, toks, i, i + 1);
                    self.rewrite(toks, i + 1, c, &child, w);
                    if w.fault.is_some() {
                        return;
                    }
                    copy_range(w, toks, c, q);
                    if *d == Delim::Brace && !(at_word(toks, q, e, "else") || at_punct(
                        toks,
                        q,
                        e,
                        '.',
                    ) || at_punct(toks, q, e, '?')) {
                        current = Vec::new();
                        assert(current.deep_view() == none);
                    }
                    i = q;
                },
                _ => {
                    copy_range(w, toks, i, i + 1);
                    if toks[i].is_punct(';') || toks[i].is_punct(',') {
                        current = Vec::new();
                        assert(current.deep_view() == none);
                    }
                    i = i + 1;
                },
            }
        }
    }
}

fn is_ident(t: &Tok) -> (r: bool)
    ensures
        r == (t.deep_view() is Ident),
{
    match t {
        Tok::Ident { name, line } => true,
        _ => false,
    }
}

/// The walk through the body `s`: the calls found, and the tokens with first arguments replaced.
pub open spec fn walk_of(
    s: Seq<TokV>,
    node: Seq<char>,
    verbs: VerbTableV,
    replies: Seq<ReplyV>,
) -> RewriteV {
    rewritten(
        WalkV { node, verbs, replies },
        s,
        0,
        0,
        s.len() as int,
        Seq::empty(),
        Seq::empty(),
        Seq::empty(),
        RewriteV { out: Seq::empty(), calls: Seq::empty(), fault: None },
    )
}

/// Walks a function body up to the first verb call whose argument names no signal literally.
pub fn walk_body(
    body: &Vec<Tok>,
    node_param: &str,
    verbs: &VerbTable,
    replies: &Vec<Reply>,
) -> (r: Rewrite)
    ensures
        r.deep_view() == walk_of(
            body.deep_view(),
            node_param@,
            verbs.deep_view(),
            replies.deep_view(),
        ),
{
    let walk = Walk { node: node_param, verbs, replies };
    let mut w = Rewrite { out: Vec::new(), calls: Vec::new(), fault: None };
    let none: Vec<String> = Vec::new();
    proof {
        assert(w.out.deep_view() == Seq::<TokV>::empty());
        assert(w.calls.deep_view() == Seq::<VerbCallV>::empty());
        assert(none.deep_view() == Seq::<Seq<char>>::empty());
    }
    walk.rewrite(body, 0, body.len(), &none, &mut w);
    w
}

/// The body `s` rewritten, or the fault of its first verb call that names no signal literally.
pub open spec fn rewrite_of(
    s: Seq<TokV>,
    node: Seq<char>,
    verbs: VerbTableV,
    replies: Seq<ReplyV>,
) -> Result<RewriteV, Fault> {
    let w = walk_of(s, node, verbs, replies);
    match w.fault {
        Some(m) => Err(m),
        None => Ok(w),
    }
}

/// Walks a function body and rewrites its verb calls on `node_param`.
///
/// Every call `node_param.verb(&SIGNAL, ..)` of a verb in `verbs` is reported, in order. The `k`th
/// call is answered by `replies[k]`: its first argument stays or is replaced, or the walk ends with
/// the fault given. A call without a reply is kept.
pub fn rewrite_verb_calls(
    body: &Vec<Tok>,
    node_param: &str,
    verbs: &VerbTable,
    replies: &Vec<Reply>,
) -> (r: Result<Rewrite, String>)
    ensures
        verdict(r) == rewrite_of(
            body.deep_view(),
            node_param@,
            verbs.deep_view(),
            replies.deep_view(),
        ),
{
    let w = walk_body(body, node_param, verbs, replies);
    match &w.fault {
        Some(m) => Err(m.clone()),
        None => Ok(w),
    }
}

/// A table that registers no built-in verb, and none twice.
pub open spec fn sound_table(t: VerbTableV) -> bool {
    &&& forall|i: int|
        0 <= i < t.custom.len() ==> !builtin_read((#[trigger] t.custom[i]).0) && !builtin_write(
            t.custom[i].0,
        )
    &&& forall|i: int, j: int|
        #![trigger t.custom[i], t.custom[j]]
        0 <= i < j < t.custom.len() ==> t.custom[i].0 != t.custom[j].0
}

proof fn lemma_direction_none(custom: Seq<(Seq<char>, bool)>, name: Seq<char>, i: int, k: int)
    requires
        0 <= i <= k < custom.len(),
        custom_direction(custom, name, i) is None,
    ensures
        custom[k].0 != name,
    decreases k - i,
{
    if i < k {
        lemma_direction_none(custom, name, i + 1, k);
    }
}

proof fn lemma_direction_some(custom: Seq<(Seq<char>, bool)>, i: int, k: int)
    requires
        0 <= i <= k < custom.len(),
        forall|a: int, b: int|
            #![trigger custom[a], custom[b]]
            0 <= a < b < custom.len() ==> custom[a].0 != custom[b].0,
    ensures
        custom_direction(custom, custom[k].0, i) == Some(custom[k].1),
    decreases k - i,
{
    if i < k {
        lemma_direction_some(custom, i + 1, k);
    }
}

proof fn lemma_with_verbs_sound(t: VerbTableV, names: Seq<Seq<char>>, write: bool, i: int)
    requires
        sound_table(t),
        0 <= i,
    ensures
        with_verbs(t, names, write, i) matches Ok(u) ==> sound_table(u),
    decreases names.len() - i,
{
    if i < names.len() {
        if let Ok(u) = with_verb(t, names[i], write) {
            assert forall|k: int| 0 <= k < t.custom.len() implies (#[trigger] t.custom[k]).0
                != names[i] by {
                lemma_direction_none(t.custom, names[i], 0, k);
            }
            assert(sound_table(u));
            lemma_with_verbs_sound(u, names, write, i + 1);
        }
    }
}

proof fn lemma_registrations_sound(t: VerbTableV, s: Seq<TokV>, p: int, e: int)
    requires
        sound_table(t),
    ensures
        registrations(t, s, p, e) matches Ok(u) ==> sound_table(u),
    decreases e - p,
{
    if p < e {
        if let Ok((u, q)) = take_registration(t, s, p, e) {
            lemma_take_registration(t, s, p, e);
            let (kw, a) = take_ident(s, p, e)->Ok_0;
            let c = take_group(s, a, e, Delim::Paren)->Ok_0.0;
            let names = ident_entries(s, a + 1, c, Seq::empty())->Ok_0;
            lemma_with_verbs_sound(t, names, kw == "write"@, 0);
            if q < e {
                if let Ok(r) = take_punct(s, q, e, ',') {
                    lemma_registrations_sound(u, s, r, e);
                }
            }
        }
    }
}

/// What an attribute registers is sound: no built-in verb, and each verb once.
pub proof fn a_parsed_table_is_sound(s: Seq<TokV>)
    ensures
        table_of(s) matches Ok(t) ==> sound_table(t),
{
    lemma_registrations_sound(builtin_table(), s, 0, s.len() as int);
}

/// A registered verb points the way it was registered with.
pub proof fn a_registered_verb_points_its_way(t: VerbTableV, i: int)
    requires
        sound_table(t),
        0 <= i < t.custom.len(),
    ensures
        verb_direction(t, t.custom[i].0) == Some(t.custom[i].1),
{
    lemma_direction_some(t.custom, 0, i);
}

/// Registering a verb changes the direction of no other.
pub proof fn registering_a_verb_keeps_the_others(
    t: VerbTableV,
    name: Seq<char>,
    write: bool,
    other: Seq<char>,
)
    requires
        other != name,
    ensures
        with_verb(t, name, write) matches Ok(u) ==> verb_direction(u, name) == Some(write)
            && verb_direction(u, other) == verb_direction(t, other),
{
    if let Ok(u) = with_verb(t, name, write) {
        lemma_direction_pushed(t.custom, name, write, name, 0);
        lemma_direction_pushed(t.custom, name, write, other, 0);
    }
}

proof fn lemma_direction_pushed(
    custom: Seq<(Seq<char>, bool)>,
    name: Seq<char>,
    write: bool,
    other: Seq<char>,
    i: int,
)
    requires
        0 <= i <= custom.len(),
    ensures
        custom_direction(custom.push((name, write)), other, i) == match custom_direction(custom, other, i) {
            Some(d) => Some(d),
            None => if other == name {
                Some(write)
            } else {
                None
            },
        },
    decreases custom.len() - i,
{
    let more = custom.push((name, write));
    if i < custom.len() {
        lemma_direction_pushed(custom, name, write, other, i + 1);
    } else {
        assert(custom_direction(more, other, more.len() as int) is None);
    }
}

proof fn lemma_pieces(out: Seq<TokV>, s: Seq<TokV>, a: int, b: int, c: int)
    requires
        0 <= a <= b <= c <= s.len(),
    ensures
        out + s.subrange(a, b) + s.subrange(b, c) == out + s.subrange(a, c),
{
    assert(out + s.subrange(a, b) + s.subrange(b, c) =~= out + s.subrange(a, c));
}

#[verifier::spinoff_prover]
#[verifier::rlimit(60)]
proof fn lemma_rewritten_keeps(
    x: WalkV,
    s: Seq<TokV>,
    lo: int,
    i: int,
    e: int,
    inherited: Seq<Seq<char>>,
    pending: Seq<Seq<char>>,
    current: Seq<Seq<char>>,
    w: RewriteV,
)
    requires
        0 <= i <= e <= s.len(),
        forall|k: int| 0 <= k < x.replies.len() ==> (#[trigger] x.replies[k]) is Keep,
    ensures
        ({
            let r = rewritten(x, s, lo, i, e, inherited, pending, current, w);
            r.fault is None ==> r.out == w.out + s.subrange(i, e)
        }),
    decreases e - i,
{
    let none = Seq::<Seq<char>>::empty();
    if i >= e {
        assert(w.out + s.subrange(i, e) == w.out);
    } else if punct_at(s, i, e, '#') && open_at(s, i + 1, e, Delim::Bracket) {
        lemma_close_from(s, i + 2, e, 0);
        let q = past_group(s, i + 1, e);
        let p2 = if cfg_group(s, i + 1, e) {
            pending.push(cfg_predicate(s, i + 1, e))
        } else {
            pending
        };
        lemma_rewritten_keeps(x, s, lo, q, e, inherited, p2, current, copied(w, s, i, q));
        lemma_pieces(w.out, s, i, q, e);
    } else {
        let now = current + pending;
        if word_at(s, i, e, "fn"@) && i + 1 < e && s[i + 1] is Ident {
            lemma_fn_end(s, i, e);
            let q = fn_end(s, i, e);
            lemma_rewritten_keeps(x, s, lo, q, e, inherited, none, none, copied(w, s, i, q));
            lemma_pieces(w.out, s, i, q, e);
        } else if verb_at(x, s, lo, i, e) is Some {
            let write = verb_at(x, s, lo, i, e)->0;
            let c = close_of(s, i + 3, e);
            let q = past_group(s, i + 3, e);
            lemma_close_from(s, i + 4, e, 0);
            lemma_first_comma(s, i + 4, c, 0);
            let m = first_comma(s, i + 4, c, 0);
            let w1 = entered(x, s, i + 3, e, write, inherited + now, copied(w, s, i, i + 4));
            if w1.fault is None {
                assert(w1.out == w.out + s.subrange(i, i + 4) + s.subrange(i + 4, m));
                let w2 = rewritten(x, s, m, m, c, inherited + now, none, none, w1);
                lemma_rewritten_keeps(x, s, m, m, c, inherited + now, none, none, w1);
                if w2.fault is None {
                    lemma_rewritten_keeps(x, s, lo, q, e, inherited, none, now, copied(w2, s, c, q));
                    lemma_pieces(w.out, s, i, i + 4, m);
                    lemma_pieces(w.out, s, i, m, c);
                    lemma_pieces(w.out, s, i, c, q);
                    lemma_pieces(w.out, s, i, q, e);
                }
            }
        } else {
            match s[i] {
                TokV::Open(d) => {
                    let c = close_of(s, i, e);
                    let q = past_group(s, i, e);
                    lemma_close_from(s, i + 1, e, 0);
                    let w1 = copied(w, s, i, i + 1);
                    let w2 = rewritten(x, s, i + 1, i + 1, c, inherited + now, none, none, w1);
                    lemma_rewritten_keeps(x, s, i + 1, i + 1, c, inherited + now, none, none, w1);
                    if w2.fault is None {
                        let after = if d == Delim::Brace && !goes_on(s, q, e) {
                            none
                        } else {
                            now
                        };
                        lemma_rewritten_keeps(x, s, lo, q, e, inherited, none, after, copied(w2, s, c, q));
                        lemma_pieces(w.out, s, i, i + 1, c);
                        lemma_pieces(w.out, s, i, c, q);
                        lemma_pieces(w.out, s, i, q, e);
                    }
                },
                _ => {
                    let after = if is_punct(s[i], ';') || is_punct(s[i], ',') {
                        none
                    } else {
                        now
                    };
                    lemma_rewritten_keeps(
                        x,
                        s,
                        lo,
                        i + 1,
                        e,
                        inherited,
                        none,
                        after,
                        copied(w, s, i, i + 1),
                    );
                    lemma_pieces(w.out, s, i, i + 1, e);
                },
            }
        }
    }
}

/// A walk that is given no replacement leaves the body as it is.
pub proof fn a_walk_without_replies_changes_nothing(
    s: Seq<TokV>,
    node: Seq<char>,
    verbs: VerbTableV,
    replies: Seq<ReplyV>,
)
    requires
        forall|k: int| 0 <= k < replies.len() ==> (#[trigger] replies[k]) is Keep,
    ensures
        rewrite_of(s, node, verbs, replies) matches Ok(w) ==> w.out == s,
{
    lemma_rewritten_keeps(
        WalkV { node, verbs, replies },
        s,
        0,
        0,
        s.len() as int,
        Seq::empty(),
        Seq::empty(),
        Seq::empty(),
        RewriteV { out: Seq::empty(), calls: Seq::empty(), fault: None },
    );
    assert(Seq::<TokV>::empty() + s.subrange(0, s.len() as int) == s);
}

/// The two hold the same calls and the same fault.
spec fn found_alike(a: RewriteV, b: RewriteV) -> bool {
    a.calls == b.calls && a.fault == b.fault
}

#[verifier::spinoff_prover]
#[verifier::rlimit(60)]
proof fn lemma_rewritten_alike(
    x: WalkV,
    y: WalkV,
    s: Seq<TokV>,
    lo: int,
    i: int,
    e: int,
    inherited: Seq<Seq<char>>,
    pending: Seq<Seq<char>>,
    current: Seq<Seq<char>>,
    w: RewriteV,
    v: RewriteV,
)
    requires
        x.node == y.node,
        x.verbs == y.verbs,
        forall|k: int| 0 <= k < x.replies.len() ==> !((#[trigger] x.replies[k]) is Refuse),
        forall|k: int| 0 <= k < y.replies.len() ==> !((#[trigger] y.replies[k]) is Refuse),
        found_alike(w, v),
    ensures
        found_alike(
            rewritten(x, s, lo, i, e, inherited, pending, current, w),
            rewritten(y, s, lo, i, e, inherited, pending, current, v),
        ),
    decreases e - i,
{
    let none = Seq::<Seq<char>>::empty();
    if i >= e {
    } else if punct_at(s, i, e, '#') && open_at(s, i + 1, e, Delim::Bracket) {
        lemma_close_from(s, i + 2, e, 0);
        let q = past_group(s, i + 1, e);
        let p2 = if cfg_group(s, i + 1, e) {
            pending.push(cfg_predicate(s, i + 1, e))
        } else {
            pending
        };
        lemma_rewritten_alike(
            x,
            y,
            s,
            lo,
            q,
            e,
            inherited,
            p2,
            current,
            copied(w, s, i, q),
            copied(v, s, i, q),
        );
    } else {
        let now = current + pending;
        if word_at(s, i, e, "fn"@) && i + 1 < e && s[i + 1] is Ident {
            lemma_fn_end(s, i, e);
            let q = fn_end(s, i, e);
            lemma_rewritten_alike(
                x,
                y,
                s,
                lo,
                q,
                e,
                inherited,
                none,
                none,
                copied(w, s, i, q),
                copied(v, s, i, q),
            );
        } else if verb_at(x, s, lo, i, e) is Some {
            let write = verb_at(x, s, lo, i, e)->0;
            let c = close_of(s, i + 3, e);
            let q = past_group(s, i + 3, e);
            lemma_close_from(s, i + 4, e, 0);
            lemma_first_comma(s, i + 4, c, 0);
            let m = first_comma(s, i + 4, c, 0);
            let w1 = entered(x, s, i + 3, e, write, inherited + now, copied(w, s, i, i + 4));
            let v1 = entered(y, s, i + 3, e, write, inherited + now, copied(v, s, i, i + 4));
            assert(found_alike(w1, v1));
            if w1.fault is None {
                let w2 = rewritten(x, s, m, m, c, inherited + now, none, none, w1);
                let v2 = rewritten(y, s, m, m, c, inherited + now, none, none, v1);
                lemma_rewritten_alike(x, y, s, m, m, c, inherited + now, none, none, w1, v1);
                if w2.fault is None {
                    lemma_rewritten_alike(
                        x,
                        y,
                        s,
                        lo,
                        q,
                        e,
                        inherited,
                        none,
                        now,
                        copied(w2, s, c, q),
                        copied(v2, s, c, q),
                    );
                }
            }
        } else {
            match s[i] {
                TokV::Open(d) => {
                    let c = close_of(s, i, e);
                    let q = past_group(s, i, e);
                    lemma_close_from(s, i + 1, e, 0);
                    let w1 = copied(w, s, i, i + 1);
                    let v1 = copied(v, s, i, i + 1);
                    let w2 = rewritten(x, s, i + 1, i + 1, c, inherited + now, none, none, w1);
                    let v2 = rewritten(y, s, i + 1, i + 1, c, inherited + now, none, none, v1);
                    lemma_rewritten_alike(
                        x,
                        y,
                        s,
                        i + 1,
                        i + 1,
                        c,
                        inherited + now,
                        none,
                        none,
                        w1,
                        v1,
                    );
                    if w2.fault is None {
                        let after = if d == Delim::Brace && !goes_on(s, q, e) {
                            none
                        } else {
                            now
                        };
                        lemma_rewritten_alike(
                            x,
                            y,
                            s,
                            lo,
                            q,
                            e,
                            inherited,
                            none,
                            after,
                            copied(w2, s, c, q),
                            copied(v2, s, c, q),
                        );
                    }
                },
                _ => {
                    let after = if is_punct(s[i], ';') || is_punct(s[i], ',') {
                        none
                    } else {
                        now
                    };
                    lemma_rewritten_alike(
                        x,
                        y,
                        s,
                        lo,
                        i + 1,
                        e,
                        inherited,
                        none,
                        after,
                        copied(w, s, i, i + 1),
                        copied(v, s, i, i + 1),
                    );
                },
            }
        }
    }
}

/// Which calls a walk finds, and whether it fails, does not depend on what their arguments become,
/// where none is refused.
pub proof fn replies_do_not_change_what_is_found(
    s: Seq<TokV>,
    node: Seq<char>,
    verbs: VerbTableV,
    some: Seq<ReplyV>,
    other: Seq<ReplyV>,
)
    requires
        forall|k: int| 0 <= k < some.len() ==> !((#[trigger] some[k]) is Refuse),
        forall|k: int| 0 <= k < other.len() ==> !((#[trigger] other[k]) is Refuse),
    ensures
        walk_of(s, node, verbs, some).calls == walk_of(s, node, verbs, other).calls,
        walk_of(s, node, verbs, some).fault == walk_of(s, node, verbs, other).fault,
{
    let start = RewriteV { out: Seq::empty(), calls: Seq::empty(), fault: None };
    lemma_rewritten_alike(
        WalkV { node, verbs, replies: some },
        WalkV { node, verbs, replies: other },
        s,
        0,
        0,
        s.len() as int,
        Seq::empty(),
        Seq::empty(),
        Seq::empty(),
        start,
        start,
    );
}

} // verus!
