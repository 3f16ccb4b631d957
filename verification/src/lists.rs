//! The bracketed lists of the graph grammar: deps, signals, resources, modes, adopted functions
//! and provided slots.

use vstd::prelude::*;
use vstd::string::*;

use crate::ast::{
    path_string, path_to_string, signal_name, strip, stripped, AdoptedFn, AdoptedFnV, Dep, DepV,
    ProvideDecl, ProvideDeclV, ResourceDecl, ResourceDeclV, SignalDecl, SignalDeclV,
};
use crate::list::{put, Dup};
use crate::parse::{
    at_ident, at_open, at_punct, at_word, ident_at, name_of, open_at, outcome, past_comma, punct_at,
    read_attrs, read_expr, read_group, read_ident, read_path, read_punct, read_type, skip_comma,
    take_attrs, take_expr, take_group, take_ident, take_path, take_punct, take_type, verdict, Fault,
};
use crate::rust::{Attr, AttrV, ExprText, ExprTextV, PathText, PathTextV};
use crate::text::{cat2, cat3, cat5, same, text};
use crate::token::{
    after_group, close_from, close_of, group_end, is_punct, past_group, Delim, Tok, TokV,
};

verus! {

pub const DEP_MARKER_WANTED: &'static str = "expected `,`, `]`, or a dep marker (`ready`, `bound`), found `";

pub const BOUND_NEEDS_READY: &'static str = "`bound` implies `ready` — write `deps: [X ready bound]`";

/// Reads the markers of a dep.
pub open spec fn dep_marks(s: Seq<TokV>, p: int, e: int, ready: bool, bound: bool) -> Result<
    ((bool, bool), int),
    Fault,
>
    decreases e - p,
{
    if !ident_at(s, p, e) {
        Ok(((ready, bound), p))
    } else if name_of(s[p]) == "ready"@ {
        if ready {
            Err("duplicate `"@ + name_of(s[p]) + "` marker on this dep"@)
        } else {
            dep_marks(s, p + 1, e, true, bound)
        }
    } else if name_of(s[p]) == "bound"@ {
        if bound {
            Err("duplicate `"@ + name_of(s[p]) + "` marker on this dep"@)
        } else {
            dep_marks(s, p + 1, e, ready, true)
        }
    } else {
        Err(DEP_MARKER_WANTED@ + name_of(s[p]) + "`"@)
    }
}

fn read_dep_marks(toks: &Vec<Tok>, p: usize, e: usize) -> (r: Result<((bool, bool), usize), String>)
    requires
        p <= e <= toks@.len(),
    ensures
        outcome(r) == dep_marks(toks.deep_view(), p as int, e as int, false, false),
        r matches Ok((_, q)) ==> p <= q <= e,
{
    let mut ready = false;
    let mut bound = false;
    let mut q: usize = p;
    while at_ident(toks, q, e)
        invariant
            p <= q <= e <= toks@.len(),
            dep_marks(toks.deep_view(), p as int, e as int, false, false) == dep_marks(
                toks.deep_view(),
                q as int,
                e as int,
                ready,
                bound,
            ),
        decreases e - q,
    {
        let (marker, next) = read_ident(toks, q, e)?;
        if same(marker.as_str(), "ready") {
            if ready {
                return Err(cat3("duplicate `", marker.as_str(), "` marker on this dep"));
            }
            ready = true;
        } else if same(marker.as_str(), "bound") {
            if bound {
                return Err(cat3("duplicate `", marker.as_str(), "` marker on this dep"));
            }
            bound = true;
        } else {
            return Err(cat3(DEP_MARKER_WANTED, marker.as_str(), "`"));
        }
        q = next;
    }
    Ok(((ready, bound), q))
}

/// Reads one dep.
pub open spec fn take_dep(s: Seq<TokV>, p: int, e: int) -> Result<(DepV, int), Fault> {
    match take_attrs(s, p, e) {
        Err(m) => Err(m),
        Ok((cfg, a)) => match take_ident(s, a, e) {
            Err(m) => Err(m),
            Ok((ident, b)) => match dep_marks(s, b, e, false, false) {
                Err(m) => Err(m),
                Ok(((ready, bound), c)) => if bound && !ready {
                    Err(BOUND_NEEDS_READY@)
                } else {
                    Ok((DepV { cfg, ident, ready, bound }, skip_comma(s, c, e)))
                },
            },
        },
    }
}

fn read_dep(toks: &Vec<Tok>, p: usize, e: usize) -> (r: Result<(Dep, usize), String>)
    requires
        p <= e <= toks@.len(),
    ensures
        outcome(r) == take_dep(toks.deep_view(), p as int, e as int),
        r matches Ok((_, q)) ==> p < q <= e,
{
    let (cfg, a) = read_attrs(toks, p, e)?;
    let (ident, b) = read_ident(toks, a, e)?;
    let ((ready, bound), c) = read_dep_marks(toks, b, e)?;
    if bound && !ready {
        return Err(text(BOUND_NEEDS_READY));
    }
    Ok((Dep { cfg, ident, ready, bound }, past_comma(toks, c, e)))
}


pub proof fn lemma_dep_marks(s: Seq<TokV>, p: int, e: int, ready: bool, bound: bool)
    requires
        p <= e,
    ensures
        dep_marks(s, p, e, ready, bound) matches Ok((_, q)) ==> p <= q <= e,
    decreases e - p,
{
    if ident_at(s, p, e) {
        lemma_dep_marks(s, p + 1, e, true, bound);
        lemma_dep_marks(s, p + 1, e, ready, true);
    }
}

pub proof fn lemma_take_dep(s: Seq<TokV>, p: int, e: int)
    requires
        p <= e,
    ensures
        take_dep(s, p, e) matches Ok((_, q)) ==> p < q <= e,
{
    if let Ok((cfg, a)) = take_attrs(s, p, e) {
        if let Ok((ident, b)) = take_ident(s, a, e) {
            lemma_dep_marks(s, b, e, false, false);
        }
    }
}

/// The deps of `s[p..e]`, behind those of `acc`.
pub open spec fn dep_entries(s: Seq<TokV>, p: int, e: int, acc: Seq<DepV>) -> Result<Seq<DepV>, Fault>
    decreases e - p,
{
    if p >= e {
        Ok(acc)
    } else {
        match take_dep(s, p, e) {
            Err(m) => Err(m),
            Ok((d, q)) => {
                proof {
                    lemma_take_dep(s, p, e);
                }
                dep_entries(s, q, e, acc.push(d))
            },
        }
    }
}

/// Reads a bracketed list of deps.
pub open spec fn take_deps(s: Seq<TokV>, p: int, e: int) -> Result<(Seq<DepV>, int), Fault> {
    match take_group(s, p, e, Delim::Bracket) {
        Err(m) => Err(m),
        Ok((c, q)) => match dep_entries(s, p + 1, c, Seq::empty()) {
            Err(m) => Err(m),
            Ok(deps) => Ok((deps, q)),
        },
    }
}

/// Parses a bracketed dependency list such as `[A, B ready, C ready bound]`.
pub fn parse_dep_list(toks: &Vec<Tok>, p: usize, e: usize) -> (r: Result<(Vec<Dep>, usize), String>)
    requires
        p <= e <= toks@.len(),
    ensures
        outcome(r) == take_deps(toks.deep_view(), p as int, e as int),
        r matches Ok((_, q)) ==> p < q <= e,
{
    let (c, q) = read_group(toks, p, e, Delim::Bracket)?;
    let ghost s = toks.deep_view();
    let mut deps: Vec<Dep> = Vec::new();
    assert(deps.deep_view() == Seq::<DepV>::empty());
    let mut i: usize = p + 1;
    while i < c
        invariant
            p < i <= c <= e <= toks@.len(),
            s == toks.deep_view(),
            dep_entries(s, p + 1, c as int, Seq::empty()) == dep_entries(
                s,
                i as int,
                c as int,
                deps.deep_view(),
            ),
            take_group(s, p as int, e as int, Delim::Bracket) == Ok::<(int, int), Fault>(
                (c as int, q as int),
            ),
        decreases c - i,
    {
        let (d, next) = read_dep(toks, i, c)?;
        put(&mut deps, d);
        i = next;
    }
    Ok((deps, q))
}

pub const VIA_NEEDS_OBSERVED: &'static str = "`via` supplies the accessor for an `observed` entry: write `observed via <expr>`";

pub const VIA_ON_BEAT: &'static str = "`via` supplies the polling accessor, which only an `observed` entry has: `beat` only ever qualifies `observed`, and a heartbeat the body can state is stated by its verb";

pub const BARE_BEAT: &'static str = "a bare `beat` entry is not a declaration: write the heartbeat at the site that produces it, with `node.beat_put(&SIG, v)` / `node.beat_writer(&SIG)` or a `node.beat()` call in the body. `observed beat` is the form for a body the supervisor cannot see";

/// The markers of a signal entry.
pub struct Marks {
    pub observed: bool,
    pub beat: bool,
    pub via: Option<ExprText>,
}

/// What [`Marks`] mean.
pub struct MarksV {
    pub observed: bool,
    pub beat: bool,
    pub via: Option<ExprTextV>,
}

impl DeepView for Marks {
    type V = MarksV;

    open spec fn deep_view(&self) -> MarksV {
        MarksV { observed: self.observed, beat: self.beat, via: self.via.deep_view() }
    }
}

/// Reads the rest of the markers behind `observed` or `beat`: another `beat`, then an accessor.
pub open spec fn more_marks(s: Seq<TokV>, p: int, e: int, observed: bool, beat: bool) -> Result<
    (MarksV, int),
    Fault,
> {
    let again = !beat && ident_at(s, p, e) && name_of(s[p]) == "beat"@;
    let b = beat || again;
    let q = if again {
        p + 1
    } else {
        p
    };
    if !ident_at(s, q, e) {
        Ok((MarksV { observed, beat: b, via: None }, q))
    } else if name_of(s[q]) != "via"@ {
        Err("expected `beat`, `via <accessor>`, `,` or `]`, found `"@ + name_of(s[q]) + "`"@)
    } else if !observed {
        Err(VIA_ON_BEAT@)
    } else {
        match take_expr(s, q + 1, e) {
            Err(m) => Err(m),
            Ok((x, r)) => Ok((MarksV { observed, beat: b, via: Some(x) }, r)),
        }
    }
}

/// Reads the markers of a signal entry: `observed`? `beat`? `via ..`?, in that order.
pub open spec fn signal_marks(s: Seq<TokV>, p: int, e: int) -> Result<(MarksV, int), Fault> {
    if !ident_at(s, p, e) {
        Ok((MarksV { observed: false, beat: false, via: None }, p))
    } else if name_of(s[p]) == "observed"@ {
        more_marks(s, p + 1, e, true, false)
    } else if name_of(s[p]) == "beat"@ {
        more_marks(s, p + 1, e, false, true)
    } else if name_of(s[p]) == "via"@ {
        Err(VIA_NEEDS_OBSERVED@)
    } else {
        Err("expected `,`, `]`, or the `observed`/`beat` markers, found `"@ + name_of(s[p]) + "`"@)
    }
}

fn read_more_marks(toks: &Vec<Tok>, p: usize, e: usize, observed: bool, beat: bool) -> (r: Result<
    (Marks, usize),
    String,
>)
    requires
        p <= e <= toks@.len(),
    ensures
        outcome(r) == more_marks(toks.deep_view(), p as int, e as int, observed, beat),
        r matches Ok((_, q)) ==> p <= q <= e,
{
    let again = !beat && at_ident(toks, p, e) && at_word(toks, p, e, "beat");
    let b = beat || again;
    let q: usize = if again {
        p + 1
    } else {
        p
    };
    if !at_ident(toks, q, e) {
        return Ok((Marks { observed, beat: b, via: None }, q));
    }
    let (kw, next) = read_ident(toks, q, e)?;
    if !same(kw.as_str(), "via") {
        return Err(cat3("expected `beat`, `via <accessor>`, `,` or `]`, found `", kw.as_str(), "`"));
    }
    if !observed {
        return Err(text(VIA_ON_BEAT));
    }
    let (x, end) = read_expr(toks, next, e)?;
    Ok((Marks { observed, beat: b, via: Some(x) }, end))
}

fn read_signal_marks(toks: &Vec<Tok>, p: usize, e: usize) -> (r: Result<(Marks, usize), String>)
    requires
        p <= e <= toks@.len(),
    ensures
        outcome(r) == signal_marks(toks.deep_view(), p as int, e as int),
        r matches Ok((_, q)) ==> p <= q <= e,
{
    if !at_ident(toks, p, e) {
        return Ok((Marks { observed: false, beat: false, via: None }, p));
    }
    let (marker, next) = read_ident(toks, p, e)?;
    if same(marker.as_str(), "observed") {
        read_more_marks(toks, next, e, true, false)
    } else if same(marker.as_str(), "beat") {
        read_more_marks(toks, next, e, false, true)
    } else if same(marker.as_str(), "via") {
        Err(text(VIA_NEEDS_OBSERVED))
    } else {
        Err(
            cat3(
                "expected `,`, `]`, or the `observed`/`beat` markers, found `",
                marker.as_str(),
                "`",
            ),
        )
    }
}

/// Reads the index of a signal entry, where one stands at `p`.
pub open spec fn signal_index(s: Seq<TokV>, p: int, e: int) -> Result<(Option<ExprTextV>, int), Fault> {
    if open_at(s, p, e, Delim::Bracket) {
        let c = close_of(s, p, e);
        match take_expr(s, p + 1, c) {
            Err(m) => Err(m),
            Ok((x, _)) => Ok((Some(x), past_group(s, p, e))),
        }
    } else {
        Ok((None, p))
    }
}

/// Tokens stand behind the index of a signal entry in its brackets.
pub open spec fn loose_index(s: Seq<TokV>, p: int, e: int) -> bool {
    open_at(s, p, e, Delim::Bracket) && (take_expr(s, p + 1, close_of(s, p, e)) matches Ok((_, q))
        && q < close_of(s, p, e))
}

fn is_index_loose(toks: &Vec<Tok>, p: usize, e: usize) -> (r: bool)
    requires
        p <= e <= toks@.len(),
    ensures
        r == loose_index(toks.deep_view(), p as int, e as int),
{
    if at_open(toks, p, e, Delim::Bracket) {
        let c = group_end(toks, p, e);
        match read_expr(toks, p + 1, c) {
            Ok((_, q)) => q < c,
            Err(_) => false,
        }
    } else {
        false
    }
}

fn read_signal_index(toks: &Vec<Tok>, p: usize, e: usize) -> (r: Result<
    (Option<ExprText>, usize),
    String,
>)
    requires
        p <= e <= toks@.len(),
    ensures
        outcome(r) == signal_index(toks.deep_view(), p as int, e as int),
        r matches Ok((_, q)) ==> p <= q <= e,
{
    if at_open(toks, p, e, Delim::Bracket) {
        let c = group_end(toks, p, e);
        let (x, _) = read_expr(toks, p + 1, c)?;
        Ok((Some(x), after_group(toks, p, e)))
    } else {
        Ok((None, p))
    }
}

/// Reads one signal entry.
pub open spec fn take_signal(s: Seq<TokV>, p: int, e: int) -> Result<(SignalDeclV, int), Fault> {
    match take_attrs(s, p, e) {
        Err(m) => Err(m),
        Ok((cfg, a)) => match take_path(s, a, e) {
            Err(m) => Err(m),
            Ok((path, b)) => match signal_index(s, b, e) {
                Err(m) => Err(m),
                Ok((index, c)) => {
                    let veto = ident_at(s, c, e) && name_of(s[c]) == "veto"@;
                    let d = if veto {
                        c + 1
                    } else {
                        c
                    };
                    match signal_marks(s, d, e) {
                        Err(m) => Err(m),
                        Ok((k, q)) => if k.beat && !k.observed {
                            Err(BARE_BEAT@)
                        } else {
                            Ok(
                                (
                                    SignalDeclV {
                                        cfg,
                                        path,
                                        index,
                                        loose: loose_index(s, b, e),
                                        observed: k.observed,
                                        beat: k.beat,
                                        veto,
                                        via: k.via,
                                    },
                                    q,
                                ),
                            )
                        },
                    }
                },
            },
        },
    }
}

fn read_signal(toks: &Vec<Tok>, p: usize, e: usize) -> (r: Result<(SignalDecl, usize), String>)
    requires
        p < e <= toks@.len(),
    ensures
        outcome(r) == take_signal(toks.deep_view(), p as int, e as int),
        r matches Ok((_, q)) ==> p < q <= e,
{
    let (cfg, a) = read_attrs(toks, p, e)?;
    let (path, b) = read_path(toks, a, e)?;
    let (index, c) = read_signal_index(toks, b, e)?;
    let loose = is_index_loose(toks, b, e);
    let veto = at_ident(toks, c, e) && at_word(toks, c, e, "veto");
    let d: usize = if veto {
        c + 1
    } else {
        c
    };
    let (k, q) = read_signal_marks(toks, d, e)?;
    if k.beat && !k.observed {
        return Err(text(BARE_BEAT));
    }
    Ok(
        (
            SignalDecl {
                cfg,
                path,
                index,
                loose,
                observed: k.observed,
                beat: k.beat,
                veto,
                via: k.via,
            },
            q,
        ),
    )
}

pub proof fn lemma_close_from(s: Seq<TokV>, i: int, e: int, depth: nat)
    ensures
        i <= e ==> i <= close_from(s, i, e, depth) <= e,
    decreases e - i,
{
    if i < e {
        lemma_close_from(s, i + 1, e, depth + 1);
        lemma_close_from(s, i + 1, e, depth);
        if depth > 0 {
            lemma_close_from(s, i + 1, e, (depth - 1) as nat);
        }
    }
}

pub proof fn lemma_take_signal(s: Seq<TokV>, p: int, e: int)
    requires
        p < e,
    ensures
        take_signal(s, p, e) matches Ok((_, q)) ==> p < q,
{
    if let Ok((cfg, a)) = take_attrs(s, p, e) {
        if let Ok((path, b)) = take_path(s, a, e) {
            if open_at(s, b, e, Delim::Bracket) {
                lemma_close_from(s, b + 1, e, 0);
            }
        }
    }
}

/// The signal entries of `s[p..e]`, behind those of `acc`.
pub open spec fn signal_entries(s: Seq<TokV>, p: int, e: int, acc: Seq<SignalDeclV>) -> Result<
    Seq<SignalDeclV>,
    Fault,
>
    decreases e - p,
{
    if p >= e {
        Ok(acc)
    } else {
        match take_signal(s, p, e) {
            Err(m) => Err(m),
            Ok((d, q)) => {
                proof {
                    lemma_take_signal(s, p, e);
                }
                if q < e {
                    match take_punct(s, q, e, ',') {
                        Err(m) => Err(m),
                        Ok(r) => signal_entries(s, r, e, acc.push(d)),
                    }
                } else {
                    Ok(acc.push(d))
                }
            },
        }
    }
}

/// Reads a bracketed list of signal entries.
pub open spec fn take_signals(s: Seq<TokV>, p: int, e: int) -> Result<(Seq<SignalDeclV>, int), Fault> {
    match take_group(s, p, e, Delim::Bracket) {
        Err(m) => Err(m),
        Ok((c, q)) => match signal_entries(s, p + 1, c, Seq::empty()) {
            Err(m) => Err(m),
            Ok(d) => Ok((d, q)),
        },
    }
}

/// Parses a bracketed signal list such as `[S, T observed, U observed beat via it.get()]`.
pub fn parse_signal_list(toks: &Vec<Tok>, p: usize, e: usize) -> (r: Result<
    (Vec<SignalDecl>, usize),
    String,
>)
    requires
        p <= e <= toks@.len(),
    ensures
        outcome(r) == take_signals(toks.deep_view(), p as int, e as int),
        r matches Ok((_, q)) ==> p < q <= e,
{
    let (c, q) = read_group(toks, p, e, Delim::Bracket)?;
    let ghost s = toks.deep_view();
    let mut decls: Vec<SignalDecl> = Vec::new();
    assert(decls.deep_view() == Seq::<SignalDeclV>::empty());
    let mut i: usize = p + 1;
    while i < c
        invariant
            p < i <= c <= e <= toks@.len(),
            s == toks.deep_view(),
            signal_entries(s, p + 1, c as int, Seq::empty()) == signal_entries(
                s,
                i as int,
                c as int,
                decls.deep_view(),
            ),
            take_group(s, p as int, e as int, Delim::Bracket) == Ok::<(int, int), Fault>(
                (c as int, q as int),
            ),
        decreases c - i,
    {
        let (d, next) = read_signal(toks, i, c)?;
        put(&mut decls, d);
        if next < c {
            i = read_punct(toks, next, c, ',')?;
        } else {
            i = next;
        }
    }
    Ok((decls, q))
}



/// An entry before `i` has the name of entry `i`.
pub open spec fn named_before(d: Seq<SignalDeclV>, i: int) -> bool {
    exists|j: int| 0 <= j < i && signal_name(#[trigger] d[j]) == signal_name(d[i])
}

/// An entry before `i` has the path of entry `i`, one of the two with an index and one without.
pub open spec fn mixed_before(d: Seq<SignalDeclV>, i: int) -> bool {
    exists|j: int|
        0 <= j < i && path_string((#[trigger] d[j]).path) == path_string(d[i].path) && (d[j].index
            is Some) != (d[i].index is Some)
}

/// What is wrong with entry `i` of a signal list, given the entries before it.
pub open spec fn entry_fault(clause: Seq<char>, d: Seq<SignalDeclV>, i: int) -> Option<Fault> {
    if named_before(d, i) {
        Some("duplicate `"@ + clause + ":` entry `"@ + signal_name(d[i]) + "`"@)
    } else if mixed_before(d, i) {
        Some("`"@ + path_string(d[i].path) + WHOLE_AND_ELEMENT@)
    } else {
        None
    }
}

pub const WHOLE_AND_ELEMENT: &'static str = "` is declared both as a whole array and by element — pick one. An element-0 reference has the same address as the array, so nothing downstream can tell them apart";

pub const NO_SIGNAL: &'static str = ":` must declare at least one signal path — omit the clause entirely to declare nothing";

/// The first thing wrong with the entries from `i` on.
pub open spec fn entries_fault(clause: Seq<char>, d: Seq<SignalDeclV>, i: int) -> Option<Fault>
    decreases d.len() - i,
{
    if i >= d.len() {
        None
    } else {
        match entry_fault(clause, d, i) {
            Some(m) => Some(m),
            None => entries_fault(clause, d, i + 1),
        }
    }
}

/// What is wrong with a signal list: nothing in it, an entry twice, or an array both whole and by
/// element.
pub open spec fn signals_fault(clause: Seq<char>, d: Seq<SignalDeclV>) -> Option<Fault> {
    if d.len() == 0 {
        Some("`"@ + clause + NO_SIGNAL@)
    } else {
        entries_fault(clause, d, 0)
    }
}

/// A result that is a verdict alone.
pub open spec fn complaint(r: Result<(), String>) -> Option<Fault> {
    match r {
        Ok(_) => None,
        Err(m) => Some(m@),
    }
}

fn is_named_before(decls: &Vec<SignalDecl>, i: usize) -> (r: bool)
    requires
        i < decls@.len(),
    ensures
        r == named_before(decls.deep_view(), i as int),
{
    let name = decls[i].display();
    let ghost d = decls.deep_view();
    let mut j: usize = 0;
    while j < i
        invariant
            j <= i < decls@.len(),
            d == decls.deep_view(),
            name@ == signal_name(d[i as int]),
            forall|k: int| 0 <= k < j ==> signal_name(#[trigger] d[k]) != signal_name(d[i as int]),
        decreases i - j,
    {
        let other = decls[j].display();
        if same(other.as_str(), name.as_str()) {
            assert(signal_name(d[j as int]) == signal_name(d[i as int]));
            return true;
        }
        j = j + 1;
    }
    false
}

fn is_mixed_before(decls: &Vec<SignalDecl>, i: usize) -> (r: bool)
    requires
        i < decls@.len(),
    ensures
        r == mixed_before(decls.deep_view(), i as int),
{
    let bare = path_to_string(&decls[i].path);
    let ghost d = decls.deep_view();
    let mut j: usize = 0;
    while j < i
        invariant
            j <= i < decls@.len(),
            d == decls.deep_view(),
            bare@ == path_string(d[i as int].path),
            forall|k: int|
                0 <= k < j ==> path_string((#[trigger] d[k]).path) != path_string(d[i as int].path) || (
                d[k].index is Some) == (d[i as int].index is Some),
        decreases i - j,
    {
        let other = path_to_string(&decls[j].path);
        if same(other.as_str(), bare.as_str()) && decls[j].index.is_some()
            != decls[i].index.is_some() {
            assert(path_string(d[j as int].path) == path_string(d[i as int].path));
            return true;
        }
        j = j + 1;
    }
    false
}

/// Checks that a `reads:` or `writes:` list is not empty and names nothing twice.
pub fn check_signal_list(clause: &str, decls: &Vec<SignalDecl>) -> (r: Result<(), String>)
    ensures
        complaint(r) == signals_fault(clause@, decls.deep_view()),
{
    if decls.len() == 0 {
        return Err(cat3("`", clause, NO_SIGNAL));
    }
    let mut i: usize = 0;
    while i < decls.len()
        invariant
            i <= decls@.len(),
            decls@.len() > 0,
            signals_fault(clause@, decls.deep_view()) == entries_fault(
                clause@,
                decls.deep_view(),
                i as int,
            ),
        decreases decls@.len() - i,
    {
        if is_named_before(decls, i) {
            let name = decls[i].display();
            return Err(cat5("duplicate `", clause, ":` entry `", name.as_str(), "`"));
        }
        if is_mixed_before(decls, i) {
            let bare = path_to_string(&decls[i].path);
            return Err(cat3("`", bare.as_str(), WHOLE_AND_ELEMENT));
        }
        i = i + 1;
    }
    Ok(())
}

proof fn lemma_entries_clean(clause: Seq<char>, d: Seq<SignalDeclV>, from: int, i: int)
    requires
        0 <= from <= i < d.len(),
        entries_fault(clause, d, from) is None,
    ensures
        entry_fault(clause, d, i) is None,
    decreases i - from,
{
    if from < i {
        lemma_entries_clean(clause, d, from + 1, i);
    }
}

/// A signal list that passes the check names no signal twice, and no array both whole and by
/// element.
pub proof fn checked_signals_are_distinct(clause: Seq<char>, d: Seq<SignalDeclV>, i: int, j: int)
    requires
        signals_fault(clause, d) is None,
        0 <= i < j < d.len(),
    ensures
        signal_name(d[i]) != signal_name(d[j]),
        path_string(d[i].path) == path_string(d[j].path) ==> (d[i].index is Some) == (d[j].index
            is Some),
{
    lemma_entries_clean(clause, d, 0, j);
}

/// The identifiers of `s[p..e]`, separated by commas, behind those of `acc`.
pub open spec fn ident_entries(s: Seq<TokV>, p: int, e: int, acc: Seq<Seq<char>>) -> Result<
    Seq<Seq<char>>,
    Fault,
>
    decreases e - p,
{
    if p >= e {
        Ok(acc)
    } else {
        match take_ident(s, p, e) {
            Err(m) => Err(m),
            Ok((name, q)) => if q < e {
                match take_punct(s, q, e, ',') {
                    Err(m) => Err(m),
                    Ok(r) => ident_entries(s, r, e, acc.push(name)),
                }
            } else {
                Ok(acc.push(name))
            },
        }
    }
}

pub fn read_idents(toks: &Vec<Tok>, p: usize, e: usize) -> (r: Result<Vec<String>, String>)
    requires
        p <= e <= toks@.len(),
    ensures
        verdict(r) == ident_entries(toks.deep_view(), p as int, e as int, Seq::empty()),
{
    let ghost s = toks.deep_view();
    let mut out: Vec<String> = Vec::new();
    assert(out.deep_view() == Seq::<Seq<char>>::empty());
    let mut i: usize = p;
    while i < e
        invariant
            p <= i <= e <= toks@.len(),
            s == toks.deep_view(),
            ident_entries(s, p as int, e as int, Seq::empty()) == ident_entries(
                s,
                i as int,
                e as int,
                out.deep_view(),
            ),
        decreases e - i,
    {
        let (name, next) = read_ident(toks, i, e)?;
        put(&mut out, name);
        if next < e {
            i = read_punct(toks, next, e, ',')?;
        } else {
            i = next;
        }
    }
    Ok(out)
}

/// Reads a bracketed list of lifecycle modes.
pub open spec fn take_modes(s: Seq<TokV>, p: int, e: int) -> Result<(Seq<Seq<char>>, int), Fault> {
    match take_group(s, p, e, Delim::Bracket) {
        Err(m) => Err(m),
        Ok((c, q)) => match ident_entries(s, p + 1, c, Seq::empty()) {
            Err(m) => Err(m),
            Ok(names) => Ok((names, q)),
        },
    }
}

/// Parses a bracketed list of pool member modes.
pub fn parse_mode_list(toks: &Vec<Tok>, p: usize, e: usize) -> (r: Result<(Vec<String>, usize), String>)
    requires
        p <= e <= toks@.len(),
    ensures
        outcome(r) == take_modes(toks.deep_view(), p as int, e as int),
        r matches Ok((_, q)) ==> p < q <= e,
{
    let (c, q) = read_group(toks, p, e, Delim::Bracket)?;
    let names = read_idents(toks, p + 1, c)?;
    Ok((names, q))
}

pub const CONSUME_AND_SHARED: &'static str = "`consume` and `shared` are mutually exclusive — `consume` takes the single value out for one owner, `shared` copies it out to any number of consumers";

/// The kind markers of a resource.
#[derive(Clone, Copy)]
pub struct Kinds {
    pub local: bool,
    pub consume: bool,
    pub shared: bool,
    pub serialized: bool,
    pub divisible: bool,
}

impl DeepView for Kinds {
    type V = Kinds;

    open spec fn deep_view(&self) -> Kinds {
        *self
    }
}

/// The token at `p` ends a type's first word: the end, a `,`, a `::` or a `<`.
pub open spec fn ends_word(s: Seq<TokV>, p: int, e: int) -> bool {
    p >= e || punct_at(s, p, e, ',') || path_sep_at(s, p, e) || punct_at(s, p, e, '<')
}

/// `::` stands at `p`.
pub open spec fn path_sep_at(s: Seq<TokV>, p: int, e: int) -> bool {
    p + 1 < e && s[p] == (TokV::Punct { ch: ':', joint: true }) && is_punct(s[p + 1], ':')
}

/// The resource kind marker at `p`: a marker word that does not turn out to be the type itself.
/// A `divisible` budget needs no type behind it.
pub open spec fn kind_marker(s: Seq<TokV>, p: int, e: int) -> Option<Seq<char>> {
    if !ident_at(s, p, e) {
        None
    } else {
        let m = name_of(s[p]);
        if m == "local"@ || m == "consume"@ || m == "shared"@ || m == "serialized"@ {
            if ends_word(s, p + 1, e) {
                None
            } else {
                Some(m)
            }
        } else if m == "divisible"@ {
            if path_sep_at(s, p + 1, e) || punct_at(s, p + 1, e, '<') {
                None
            } else {
                Some(m)
            }
        } else {
            None
        }
    }
}


fn at_path_sep(toks: &Vec<Tok>, p: usize, e: usize) -> (r: bool)
    requires
        e <= toks@.len(),
    ensures
        r == path_sep_at(toks.deep_view(), p as int, e as int),
{
    if p < e && e - p > 1 {
        match &toks[p] {
            Tok::Punct { ch, joint } => *ch == ':' && *joint && toks[p + 1].is_punct(':'),
            _ => false,
        }
    } else {
        false
    }
}

/// Looks ahead for a resource kind marker.
pub fn peek_kind_marker(toks: &Vec<Tok>, p: usize, e: usize) -> (r: Option<String>)
    requires
        p <= e <= toks@.len(),
    ensures
        r.deep_view() == kind_marker(toks.deep_view(), p as int, e as int),
        r is Some ==> p < e,
{
    if !at_ident(toks, p, e) {
        return None;
    }
    let m = toks[p].text();
    if same(m.as_str(), "local") || same(m.as_str(), "consume") || same(m.as_str(), "shared") || same(
        m.as_str(),
        "serialized",
    ) {
        if p + 1 >= e || at_punct(toks, p + 1, e, ',') || at_path_sep(toks, p + 1, e) || at_punct(
            toks,
            p + 1,
            e,
            '<',
        ) {
            None
        } else {
            Some(m)
        }
    } else if same(m.as_str(), "divisible") {
        if at_path_sep(toks, p + 1, e) || at_punct(toks, p + 1, e, '<') {
            None
        } else {
            Some(m)
        }
    } else {
        None
    }
}

/// `k` with the marker `m` set; refused where it was set before.
pub open spec fn with_kind(k: Kinds, m: Seq<char>) -> Result<Kinds, Fault> {
    let twice = "duplicate `"@ + m + "` marker"@;
    if m == "local"@ {
        if k.local {
            Err(twice)
        } else {
            Ok(Kinds { local: true, ..k })
        }
    } else if m == "consume"@ {
        if k.consume {
            Err(twice)
        } else {
            Ok(Kinds { consume: true, ..k })
        }
    } else if m == "shared"@ {
        if k.shared {
            Err(twice)
        } else {
            Ok(Kinds { shared: true, ..k })
        }
    } else if m == "serialized"@ {
        if k.serialized {
            Err(twice)
        } else {
            Ok(Kinds { serialized: true, ..k })
        }
    } else {
        if k.divisible {
            Err(twice)
        } else {
            Ok(Kinds { divisible: true, ..k })
        }
    }
}

fn add_kind(k: Kinds, m: &str) -> (r: Result<Kinds, String>)
    ensures
        verdict(r) == with_kind(k, m@),
{
    let mut k = k;
    let twice: bool;
    if same(m, "local") {
        twice = k.local;
        k.local = true;
    } else if same(m, "consume") {
        twice = k.consume;
        k.consume = true;
    } else if same(m, "shared") {
        twice = k.shared;
        k.shared = true;
    } else if same(m, "serialized") {
        twice = k.serialized;
        k.serialized = true;
    } else {
        twice = k.divisible;
        k.divisible = true;
    }
    if twice {
        Err(cat3("duplicate `", m, "` marker"))
    } else {
        Ok(k)
    }
}

/// Reads the kind markers of a resource, beside those of `k`.
pub open spec fn take_kinds(s: Seq<TokV>, p: int, e: int, k: Kinds) -> Result<(Kinds, int), Fault>
    decreases e - p,
{
    match kind_marker(s, p, e) {
        None => Ok((k, p)),
        Some(m) => match with_kind(k, m) {
            Err(f) => Err(f),
            Ok(k2) => take_kinds(s, p + 1, e, k2),
        },
    }
}

pub proof fn lemma_take_kinds(s: Seq<TokV>, p: int, e: int, k: Kinds)
    requires
        p <= e,
    ensures
        take_kinds(s, p, e, k) matches Ok((_, q)) ==> p <= q <= e,
    decreases e - p,
{
    if let Some(m) = kind_marker(s, p, e) {
        if let Ok(k2) = with_kind(k, m) {
            lemma_take_kinds(s, p + 1, e, k2);
        }
    }
}

/// No marker.
pub open spec fn no_kinds() -> Kinds {
    Kinds { local: false, consume: false, shared: false, serialized: false, divisible: false }
}

fn read_kinds(toks: &Vec<Tok>, p: usize, e: usize) -> (r: Result<(Kinds, usize), String>)
    requires
        p <= e <= toks@.len(),
    ensures
        outcome(r) == take_kinds(toks.deep_view(), p as int, e as int, no_kinds()),
        r matches Ok((_, q)) ==> p <= q <= e,
{
    let mut k = Kinds {
        local: false,
        consume: false,
        shared: false,
        serialized: false,
        divisible: false,
    };
    let mut q: usize = p;
    loop
        invariant
            p <= q <= e <= toks@.len(),
            take_kinds(toks.deep_view(), p as int, e as int, no_kinds()) == take_kinds(
                toks.deep_view(),
                q as int,
                e as int,
                k,
            ),
        decreases e - q,
    {
        match peek_kind_marker(toks, q, e) {
            None => {
                return Ok((k, q));
            },
            Some(m) => {
                k = add_kind(k, m.as_str())?;
                q = q + 1;
            },
        }
    }
}

/// Reads the type of a resource; a `divisible` budget may go without.
pub open spec fn resource_type(s: Seq<TokV>, p: int, e: int, k: Kinds) -> Result<
    (Option<Seq<char>>, int),
    Fault,
> {
    if k.divisible && (p >= e || punct_at(s, p, e, ',')) {
        Ok((None, p))
    } else {
        match take_type(s, p, e) {
            Err(m) => Err(m),
            Ok((t, q)) => Ok((Some(t), q)),
        }
    }
}

fn read_resource_type(toks: &Vec<Tok>, p: usize, e: usize, k: Kinds) -> (r: Result<
    (Option<String>, usize),
    String,
>)
    requires
        p <= e <= toks@.len(),
    ensures
        outcome(r) == resource_type(toks.deep_view(), p as int, e as int, k),
        r matches Ok((_, q)) ==> p <= q <= e,
{
    if k.divisible && (p >= e || at_punct(toks, p, e, ',')) {
        Ok((None, p))
    } else {
        let (t, q) = read_type(toks, p, e)?;
        Ok((Some(t), q))
    }
}

/// Reads one resource.
pub open spec fn take_resource(s: Seq<TokV>, p: int, e: int) -> Result<(ResourceDeclV, int), Fault> {
    match take_attrs(s, p, e) {
        Err(m) => Err(m),
        Ok((cfg, a)) => match take_ident(s, a, e) {
            Err(m) => Err(m),
            Ok((ident, b)) => match take_punct(s, b, e, ':') {
                Err(m) => Err(m),
                Ok(c) => match take_kinds(s, c, e, no_kinds()) {
                    Err(m) => Err(m),
                    Ok((k, d)) => if k.consume && k.shared {
                        Err(CONSUME_AND_SHARED@)
                    } else {
                        match resource_type(s, d, e, k) {
                            Err(m) => Err(m),
                            Ok((ty, q)) => Ok(
                                (
                                    ResourceDeclV {
                                        cfg,
                                        ident,
                                        ty,
                                        local: k.local,
                                        consume: k.consume,
                                        shared: k.shared,
                                        serialized: k.serialized,
                                        divisible: k.divisible,
                                    },
                                    skip_comma(s, q, e),
                                ),
                            ),
                        }
                    },
                },
            },
        },
    }
}

pub proof fn lemma_take_resource(s: Seq<TokV>, p: int, e: int)
    requires
        p <= e,
    ensures
        take_resource(s, p, e) matches Ok((_, q)) ==> p < q <= e,
{
    if let Ok((cfg, a)) = take_attrs(s, p, e) {
        if let Ok((ident, b)) = take_ident(s, a, e) {
            if let Ok(c) = take_punct(s, b, e, ':') {
                lemma_take_kinds(s, c, e, no_kinds());
            }
        }
    }
}

fn read_resource(toks: &Vec<Tok>, p: usize, e: usize) -> (r: Result<(ResourceDecl, usize), String>)
    requires
        p <= e <= toks@.len(),
    ensures
        outcome(r) == take_resource(toks.deep_view(), p as int, e as int),
        r matches Ok((_, q)) ==> p < q <= e,
{
    let (cfg, a) = read_attrs(toks, p, e)?;
    let (ident, b) = read_ident(toks, a, e)?;
    let c = read_punct(toks, b, e, ':')?;
    let (k, d) = read_kinds(toks, c, e)?;
    if k.consume && k.shared {
        return Err(text(CONSUME_AND_SHARED));
    }
    let (ty, q) = read_resource_type(toks, d, e, k)?;
    Ok(
        (
            ResourceDecl {
                cfg,
                ident,
                ty,
                local: k.local,
                consume: k.consume,
                shared: k.shared,
                serialized: k.serialized,
                divisible: k.divisible,
            },
            past_comma(toks, q, e),
        ),
    )
}

/// The resources of `s[p..e]`, behind those of `acc`.
pub open spec fn resource_entries(s: Seq<TokV>, p: int, e: int, acc: Seq<ResourceDeclV>) -> Result<
    Seq<ResourceDeclV>,
    Fault,
>
    decreases e - p,
{
    if p >= e {
        Ok(acc)
    } else {
        match take_resource(s, p, e) {
            Err(m) => Err(m),
            Ok((d, q)) => {
                proof {
                    lemma_take_resource(s, p, e);
                }
                resource_entries(s, q, e, acc.push(d))
            },
        }
    }
}

/// Reads a bracketed list of resources.
pub open spec fn take_resources(
    s: Seq<TokV>,
    p: int,
    e: int,
) -> Result<(Seq<ResourceDeclV>, int), Fault> {
    match take_group(s, p, e, Delim::Bracket) {
        Err(m) => Err(m),
        Ok((c, q)) => match resource_entries(s, p + 1, c, Seq::empty()) {
            Err(m) => Err(m),
            Ok(d) => Ok((d, q)),
        },
    }
}

/// Parses a bracketed resource list such as `[SLOT: shared local Type]`.
pub fn parse_resource_list(toks: &Vec<Tok>, p: usize, e: usize) -> (r: Result<
    (Vec<ResourceDecl>, usize),
    String,
>)
    requires
        p <= e <= toks@.len(),
    ensures
        outcome(r) == take_resources(toks.deep_view(), p as int, e as int),
        r matches Ok((_, q)) ==> p < q <= e,
{
    let (c, q) = read_group(toks, p, e, Delim::Bracket)?;
    let ghost s = toks.deep_view();
    let mut out: Vec<ResourceDecl> = Vec::new();
    assert(out.deep_view() == Seq::<ResourceDeclV>::empty());
    let mut i: usize = p + 1;
    while i < c
        invariant
            p < i <= c <= e <= toks@.len(),
            s == toks.deep_view(),
            resource_entries(s, p + 1, c as int, Seq::empty()) == resource_entries(
                s,
                i as int,
                c as int,
                out.deep_view(),
            ),
            take_group(s, p as int, e as int, Delim::Bracket) == Ok::<(int, int), Fault>(
                (c as int, q as int),
            ),
        decreases c - i,
    {
        let (d, next) = read_resource(toks, i, c)?;
        put(&mut out, d);
        i = next;
    }
    Ok((out, q))
}

pub const ADOPTED_TWICE: &'static str = "duplicate `dataflow:` fn — one adoption binds its tables";

pub const NOTHING_ADOPTED: &'static str = "`dataflow:` must name at least one `#[dataflow]` fn — omit the clause entirely to adopt nothing";

/// A function of the list has the path `path`.
pub open spec fn adopts(fns: Seq<AdoptedFnV>, path: PathTextV) -> bool {
    exists|j: int| 0 <= j < fns.len() && stripped((#[trigger] fns[j]).path.text) == stripped(path.text)
}

fn has_adopted(fns: &Vec<AdoptedFn>, path: &PathText) -> (r: bool)
    ensures
        r == adopts(fns.deep_view(), path.deep_view()),
{
    let ghost f = fns.deep_view();
    let name = strip(path.text.as_str());
    let mut j: usize = 0;
    while j < fns.len()
        invariant
            j <= fns@.len(),
            f == fns.deep_view(),
            name@ == stripped(path.text@),
            forall|k: int| 0 <= k < j ==> stripped((#[trigger] f[k]).path.text) != stripped(path.text@),
        decreases fns@.len() - j,
    {
        let other = strip(fns[j].path.text.as_str());
        if same(other.as_str(), name.as_str()) {
            assert(stripped(f[j as int].path.text) == stripped(path.text@));
            return true;
        }
        j = j + 1;
    }
    false
}

/// The adopted functions of `s[p..e]`, behind those of `acc`.
pub open spec fn adopted_entries(s: Seq<TokV>, p: int, e: int, acc: Seq<AdoptedFnV>) -> Result<
    Seq<AdoptedFnV>,
    Fault,
>
    decreases e - p,
{
    if p >= e {
        Ok(acc)
    } else {
        match take_attrs(s, p, e) {
            Err(m) => Err(m),
            Ok((cfg, a)) => match take_path(s, a, e) {
                Err(m) => Err(m),
                Ok((path, b)) => if adopts(acc, path) {
                    Err(ADOPTED_TWICE@)
                } else {
                    adopted_entries(s, skip_comma(s, b, e), e, acc.push(AdoptedFnV { cfg, path }))
                },
            },
        }
    }
}

/// Reads a bracketed, non-empty list of adopted functions.
pub open spec fn take_adopted(s: Seq<TokV>, p: int, e: int) -> Result<(Seq<AdoptedFnV>, int), Fault> {
    match take_group(s, p, e, Delim::Bracket) {
        Err(m) => Err(m),
        Ok((c, q)) => match adopted_entries(s, p + 1, c, Seq::empty()) {
            Err(m) => Err(m),
            Ok(fns) => if fns.len() == 0 {
                Err(NOTHING_ADOPTED@)
            } else {
                Ok((fns, q))
            },
        },
    }
}

pub fn parse_adopted_list(toks: &Vec<Tok>, p: usize, e: usize) -> (r: Result<
    (Vec<AdoptedFn>, usize),
    String,
>)
    requires
        p <= e <= toks@.len(),
    ensures
        outcome(r) == take_adopted(toks.deep_view(), p as int, e as int),
        r matches Ok((_, q)) ==> p < q <= e,
{
    let (c, q) = read_group(toks, p, e, Delim::Bracket)?;
    let ghost s = toks.deep_view();
    let mut out: Vec<AdoptedFn> = Vec::new();
    assert(out.deep_view() == Seq::<AdoptedFnV>::empty());
    let mut i: usize = p + 1;
    while i < c
        invariant
            p < i <= c <= e <= toks@.len(),
            s == toks.deep_view(),
            adopted_entries(s, p + 1, c as int, Seq::empty()) == adopted_entries(
                s,
                i as int,
                c as int,
                out.deep_view(),
            ),
            take_group(s, p as int, e as int, Delim::Bracket) == Ok::<(int, int), Fault>(
                (c as int, q as int),
            ),
        decreases c - i,
    {
        let (cfg, a) = read_attrs(toks, i, c)?;
        let (path, b) = read_path(toks, a, c)?;
        if has_adopted(&out, &path) {
            return Err(text(ADOPTED_TWICE));
        }
        put(&mut out, AdoptedFn { cfg, path });
        i = past_comma(toks, b, c);
    }
    if out.len() == 0 {
        return Err(text(NOTHING_ADOPTED));
    }
    Ok((out, q))
}

/// The attribute is a `cfg(..)` list.
pub open spec fn is_cfg(a: AttrV) -> bool {
    a.list is Some && a.path == seq!["cfg"@]
}

pub fn is_cfg_list(a: &Attr) -> (r: bool)
    ensures
        r == is_cfg(a.deep_view()),
{
    let hit = a.list.is_some() && a.path.len() == 1 && same(a.path[0].as_str(), "cfg");
    proof {
        if a.path@.len() == 1 && a.path@[0]@ == "cfg"@ {
            assert(a.path.deep_view() == seq!["cfg"@]);
        }
        if a.path.deep_view() == seq!["cfg"@] {
            assert(a.path.deep_view()[0] == "cfg"@);
        }
    }
    hit
}

/// What is wrong with attributes that gate `what`: anything but `#[cfg(..)]`.
pub open spec fn gate_fault(attrs: Seq<AttrV>, what: Seq<char>) -> Option<Fault> {
    if forall|i: int| 0 <= i < attrs.len() ==> is_cfg(#[trigger] attrs[i]) {
        None
    } else {
        Some("only `#[cfg(...)]` attributes may gate a "@ + what)
    }
}

pub fn require_cfg_list(attrs: &Vec<Attr>, what: &str) -> (r: Result<(), String>)
    ensures
        complaint(r) == gate_fault(attrs.deep_view(), what@),
{
    let ghost a = attrs.deep_view();
    let mut i: usize = 0;
    while i < attrs.len()
        invariant
            i <= attrs@.len(),
            a == attrs.deep_view(),
            forall|k: int| 0 <= k < i ==> is_cfg(#[trigger] a[k]),
        decreases attrs@.len() - i,
    {
        if !is_cfg_list(&attrs[i]) {
            assert(!is_cfg(a[i as int]));
            return Err(cat2("only `#[cfg(...)]` attributes may gate a ", what));
        }
        i = i + 1;
    }
    Ok(())
}

pub const PROVIDED_TWICE: &'static str = "duplicate `provides:` slot — one entry clears it";

pub const NOTHING_PROVIDED: &'static str = "`provides:` must name at least one resource slot — omit the clause entirely to provide nothing";

/// A slot of the list has the name `slot`.
pub open spec fn provides_slot(list: Seq<ProvideDeclV>, slot: Seq<char>) -> bool {
    exists|j: int| 0 <= j < list.len() && (#[trigger] list[j]).ident == slot
}

fn has_slot(list: &Vec<ProvideDecl>, slot: &str) -> (r: bool)
    ensures
        r == provides_slot(list.deep_view(), slot@),
{
    let ghost l = list.deep_view();
    let mut j: usize = 0;
    while j < list.len()
        invariant
            j <= list@.len(),
            l == list.deep_view(),
            forall|k: int| 0 <= k < j ==> (#[trigger] l[k]).ident != slot@,
        decreases list@.len() - j,
    {
        if same(list[j].ident.as_str(), slot) {
            assert(l[j as int].ident == slot@);
            return true;
        }
        j = j + 1;
    }
    false
}

/// The provided slots of `s[p..e]`, behind those of `acc`.
pub open spec fn provide_entries(s: Seq<TokV>, p: int, e: int, acc: Seq<ProvideDeclV>) -> Result<
    Seq<ProvideDeclV>,
    Fault,
>
    decreases e - p,
{
    if p >= e {
        Ok(acc)
    } else {
        match take_attrs(s, p, e) {
            Err(m) => Err(m),
            Ok((cfg, a)) => match gate_fault(cfg, "`provides:` entry"@) {
                Some(m) => Err(m),
                None => match take_ident(s, a, e) {
                    Err(m) => Err(m),
                    Ok((ident, b)) => if provides_slot(acc, ident) {
                        Err(PROVIDED_TWICE@)
                    } else {
                        provide_entries(
                            s,
                            skip_comma(s, b, e),
                            e,
                            acc.push(ProvideDeclV { cfg, ident }),
                        )
                    },
                },
            },
        }
    }
}

/// Reads a bracketed, non-empty list of provided slots, behind those of `acc`.
pub open spec fn take_provided(s: Seq<TokV>, p: int, e: int, acc: Seq<ProvideDeclV>) -> Result<
    (Seq<ProvideDeclV>, int),
    Fault,
> {
    match take_group(s, p, e, Delim::Bracket) {
        Err(m) => Err(m),
        Ok((c, q)) => match provide_entries(s, p + 1, c, acc) {
            Err(m) => Err(m),
            Ok(slots) => if slots.len() == 0 {
                Err(NOTHING_PROVIDED@)
            } else {
                Ok((slots, q))
            },
        },
    }
}

pub fn parse_provided_list(toks: &Vec<Tok>, p: usize, e: usize, earlier: &Vec<ProvideDecl>) -> (r:
    Result<(Vec<ProvideDecl>, usize), String>)
    requires
        p <= e <= toks@.len(),
    ensures
        outcome(r) == take_provided(
            toks.deep_view(),
            p as int,
            e as int,
            earlier.deep_view(),
        ),
        r matches Ok((_, q)) ==> p < q <= e,
{
    let (c, q) = read_group(toks, p, e, Delim::Bracket)?;
    let ghost s = toks.deep_view();
    let mut out: Vec<ProvideDecl> = earlier.dup();
    let mut i: usize = p + 1;
    while i < c
        invariant
            p < i <= c <= e <= toks@.len(),
            s == toks.deep_view(),
            provide_entries(s, p + 1, c as int, earlier.deep_view()) == provide_entries(
                s,
                i as int,
                c as int,
                out.deep_view(),
            ),
            take_group(s, p as int, e as int, Delim::Bracket) == Ok::<(int, int), Fault>(
                (c as int, q as int),
            ),
        decreases c - i,
    {
        let (cfg, a) = read_attrs(toks, i, c)?;
        require_cfg_list(&cfg, "`provides:` entry")?;
        let (ident, b) = read_ident(toks, a, c)?;
        if has_slot(&out, ident.as_str()) {
            return Err(text(PROVIDED_TWICE));
        }
        put(&mut out, ProvideDecl { cfg, ident });
        i = past_comma(toks, b, c);
    }
    if out.len() == 0 {
        return Err(text(NOTHING_PROVIDED));
    }
    Ok((out, q))
}


} // verus!
