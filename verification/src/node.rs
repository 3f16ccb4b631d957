//! Node declarations: their clauses, and what a node must satisfy as a whole.

use vstd::prelude::*;
use vstd::string::*;

use crate::ast::{
    Dep, DepV, Gated, GatedV, NodeItem, NodeItemV, ProvideDecl, ProvideDeclV, ResourceDecl,
    ResourceDeclV, SignalDecl, SignalDeclV,
};
use crate::clauses::{
    cfg_text, cfg_to_text, clause_cfg, common_clause, dup_clause_text, no_clauses, once,
    parse_clause_cfg, source_of, task_source, ClauseHost, CommonClauses, CommonClausesV,
};
use crate::list::Dup;
use crate::lists::{
    complaint, lemma_close_from, parse_dep_list, parse_provided_list, take_deps, take_provided,
};
use crate::parse::{
    at_punct, at_word, expected, expected_text, open_at, outcome, punct_at, read_ident, read_int,
    read_punct, read_type, read_word, take_group, take_ident, take_int, take_punct, take_type,
    take_word, verdict, word_at, Fault,
};
use crate::rust::{Attr, AttrV, IntLit, IntLitV};
use crate::text::{cat3, same, text};
use crate::token::{line_of, Delim, Tok, TokV};

verus! {

/// The clauses of a node read so far.
#[derive(Debug)]
pub struct NodeClauses {
    /// Those that pools have too.
    pub common: CommonClauses,
    /// The `deps:` list.
    pub deps: Option<Vec<Dep>>,
    /// The `pool_size:` literal.
    pub pool_size: Option<IntLit>,
    /// The `disabled` marker.
    pub disabled: Option<Gated<()>>,
    /// The `beat_timeout:` milliseconds.
    pub beat_timeout: Option<Gated<IntLit>>,
    /// The `beat_window:` count.
    pub beat_window: Option<Gated<IntLit>>,
    /// The `ready_on_write` marker.
    pub ready_on_write: Option<Gated<()>>,
    /// The `exit:` type, as tokens.
    pub exit: Option<String>,
    /// The `provides:` list.
    pub provides: Vec<ProvideDecl>,
}

/// What a [`NodeClauses`] means.
pub struct NodeClausesV {
    pub common: CommonClausesV,
    pub deps: Option<Seq<DepV>>,
    pub pool_size: Option<IntLitV>,
    pub disabled: Option<GatedV<()>>,
    pub beat_timeout: Option<GatedV<IntLitV>>,
    pub beat_window: Option<GatedV<IntLitV>>,
    pub ready_on_write: Option<GatedV<()>>,
    pub exit: Option<Seq<char>>,
    pub provides: Seq<ProvideDeclV>,
}

impl DeepView for NodeClauses {
    type V = NodeClausesV;

    open spec fn deep_view(&self) -> NodeClausesV {
        NodeClausesV {
            common: self.common.deep_view(),
            deps: self.deps.deep_view(),
            pool_size: self.pool_size.deep_view(),
            disabled: self.disabled.deep_view(),
            beat_timeout: self.beat_timeout.deep_view(),
            beat_window: self.beat_window.deep_view(),
            ready_on_write: self.ready_on_write.deep_view(),
            exit: self.exit.deep_view(),
            provides: self.provides.deep_view(),
        }
    }
}

impl Dup for NodeClauses {
    fn dup(&self) -> (r: Self) {
        NodeClauses {
            common: self.common.dup(),
            deps: self.deps.dup(),
            pool_size: self.pool_size.dup(),
            disabled: self.disabled.dup(),
            beat_timeout: self.beat_timeout.dup(),
            beat_window: self.beat_window.dup(),
            ready_on_write: self.ready_on_write.dup(),
            exit: self.exit.dup(),
            provides: self.provides.dup(),
        }
    }
}


/// No clause.
pub open spec fn no_node_clauses() -> NodeClausesV {
    NodeClausesV {
        common: no_clauses(),
        deps: None,
        pool_size: None,
        disabled: None,
        beat_timeout: None,
        beat_window: None,
        ready_on_write: None,
        exit: None,
        provides: Seq::empty(),
    }
}

pub const DEPS_TWICE: &'static str = "duplicate `deps:` clause — one list declares them all";

pub const NODE_CLAUSE_WANTED: &'static str = "expected `task:`, `spawn:`, `executor:`, `resources:`, `reads:`, `writes:`, `discover`, `dataflow:`, `state:`, `slot_timeout:`, `ack_timeout:`, `cancel`, `deps:`, `pool_size:`, `beat_timeout:`, `beat_window:`, `ready_on_write`, `exit:`, `provides:`, or `disabled`";

/// A clause read behind its `name:`.
pub open spec fn behind_colon<T>(s: Seq<TokV>, p: int, e: int, value: Result<(T, int), Fault>) -> Result<
    (T, int),
    Fault,
> {
    match take_punct(s, p + 1, e, ':') {
        Err(m) => Err(m),
        Ok(_) => value,
    }
}

/// Reads a `deps:` clause, refused where it was given before.
pub open spec fn deps_clause(
    s: Seq<TokV>,
    p: int,
    e: int,
    given: bool,
) -> Result<(Seq<DepV>, int), Fault> {
    match take_punct(s, p + 1, e, ':') {
        Err(m) => Err(m),
        Ok(q) => if given {
            Err(DEPS_TWICE@)
        } else {
            take_deps(s, q, e)
        },
    }
}

pub fn read_deps_clause(toks: &Vec<Tok>, p: usize, e: usize, given: bool) -> (r: Result<
    (Vec<Dep>, usize),
    String,
>)
    requires
        p < e <= toks@.len(),
    ensures
        outcome(r) == deps_clause(toks.deep_view(), p as int, e as int, given),
        r matches Ok((_, q)) ==> p < q <= e,
{
    let q = read_punct(toks, p + 1, e, ':')?;
    if given {
        return Err(text(DEPS_TWICE));
    }
    parse_dep_list(toks, q, e)
}

/// Reads an integer clause, refused where it was given before.
pub open spec fn int_clause(s: Seq<TokV>, p: int, e: int, name: Seq<char>, given: bool) -> Result<
    (IntLitV, int),
    Fault,
> {
    once(s, p, e, name, given, take_int(s, p + 2, e))
}

fn read_int_clause(toks: &Vec<Tok>, p: usize, e: usize, name: &str, given: bool) -> (r: Result<
    (IntLit, usize),
    String,
>)
    requires
        p < e <= toks@.len(),
    ensures
        outcome(r) == int_clause(toks.deep_view(), p as int, e as int, name@, given),
        r matches Ok((_, q)) ==> p < q <= e,
{
    let q = read_punct(toks, p + 1, e, ':')?;
    if given {
        return Err(dup_clause_text(name));
    }
    read_int(toks, q, e)
}

/// Reads a clause that only nodes have.
pub open spec fn node_clause(a: NodeClausesV, s: Seq<TokV>, p: int, e: int, cfg: Seq<AttrV>) -> Result<
    (NodeClausesV, int),
    Fault,
> {
    if word_at(s, p, e, "deps"@) {
        match deps_clause(s, p, e, a.deps is Some) {
            Err(m) => Err(m),
            Ok((x, q)) => Ok((NodeClausesV { deps: Some(x), ..a }, q)),
        }
    } else if word_at(s, p, e, "pool_size"@) {
        match behind_colon(s, p, e, take_int(s, p + 2, e)) {
            Err(m) => Err(m),
            Ok((x, q)) => Ok((NodeClausesV { pool_size: Some(x), ..a }, q)),
        }
    } else if word_at(s, p, e, "disabled"@) {
        if a.disabled is Some {
            Err("duplicate `disabled` marker"@)
        } else {
            Ok((NodeClausesV { disabled: Some(GatedV { cfg, value: () }), ..a }, p + 1))
        }
    } else if word_at(s, p, e, "ready_on_write"@) {
        if a.ready_on_write is Some {
            Err("duplicate `ready_on_write` marker"@)
        } else {
            Ok((NodeClausesV { ready_on_write: Some(GatedV { cfg, value: () }), ..a }, p + 1))
        }
    } else if word_at(s, p, e, "beat_timeout"@) {
        match int_clause(s, p, e, "beat_timeout"@, a.beat_timeout is Some) {
            Err(m) => Err(m),
            Ok((x, q)) => Ok((NodeClausesV { beat_timeout: Some(GatedV { cfg, value: x }), ..a }, q)),
        }
    } else if word_at(s, p, e, "beat_window"@) {
        match int_clause(s, p, e, "beat_window"@, a.beat_window is Some) {
            Err(m) => Err(m),
            Ok((x, q)) => Ok((NodeClausesV { beat_window: Some(GatedV { cfg, value: x }), ..a }, q)),
        }
    } else if word_at(s, p, e, "exit"@) {
        match behind_colon(s, p, e, take_type(s, p + 2, e)) {
            Err(m) => Err(m),
            Ok((x, q)) => Ok((NodeClausesV { exit: Some(x), ..a }, q)),
        }
    } else if word_at(s, p, e, "provides"@) {
        match behind_colon(s, p, e, take_provided(s, p + 2, e, a.provides)) {
            Err(m) => Err(m),
            Ok((x, q)) => Ok((NodeClausesV { provides: x, ..a }, q)),
        }
    } else {
        Err(expected(p, e, NODE_CLAUSE_WANTED@))
    }
}

pub proof fn lemma_group_end(s: Seq<TokV>, p: int, e: int, d: Delim)
    requires
        p <= e,
    ensures
        take_group(s, p, e, d) matches Ok((c, q)) ==> p < c <= e && p < q <= e,
{
    if open_at(s, p, e, d) {
        lemma_close_from(s, p + 1, e, 0);
    }
}

pub proof fn lemma_common_clause(c: CommonClausesV, s: Seq<TokV>, p: int, e: int, cfg: Seq<AttrV>)
    requires
        p <= e,
    ensures
        common_clause(c, s, p, e, cfg) matches Ok(Some((_, q))) ==> p < q <= e,
{
    if p + 2 <= e {
        lemma_group_end(s, p + 2, e, Delim::Bracket);
    }
}

pub proof fn lemma_node_clause(a: NodeClausesV, s: Seq<TokV>, p: int, e: int, cfg: Seq<AttrV>)
    requires
        p <= e,
    ensures
        node_clause(a, s, p, e, cfg) matches Ok((_, q)) ==> p < q <= e,
{
    if p + 2 <= e {
        lemma_group_end(s, p + 2, e, Delim::Bracket);
    }
}

/// Reads the clauses of a node, each behind a comma, beside those of `a`.
pub open spec fn node_clauses(a: NodeClausesV, s: Seq<TokV>, p: int, e: int) -> Result<
    (NodeClausesV, int),
    Fault,
>
    decreases e - p,
{
    if !punct_at(s, p, e, ',') {
        Ok((a, p))
    } else {
        match clause_cfg(s, p + 1, e, ClauseHost::Node) {
            Err(m) => Err(m),
            Ok((cfg, q)) => {
                proof {
                    if q <= e {
                        lemma_common_clause(a.common, s, q, e, cfg);
                        lemma_node_clause(a, s, q, e, cfg);
                    }
                }
                match common_clause(a.common, s, q, e, cfg) {
                    Err(m) => Err(m),
                    Ok(Some((c, r))) => node_clauses(NodeClausesV { common: c, ..a }, s, r, e),
                    Ok(None) => match node_clause(a, s, q, e, cfg) {
                        Err(m) => Err(m),
                        Ok((b, r)) => node_clauses(b, s, r, e),
                    },
                }
            },
        }
    }
}

impl NodeClauses {
    fn empty() -> (r: NodeClauses)
        ensures
            r.deep_view() == no_node_clauses(),
    {
        let r = NodeClauses {
            common: CommonClauses::empty(),
            deps: None,
            pool_size: None,
            disabled: None,
            beat_timeout: None,
            beat_window: None,
            ready_on_write: None,
            exit: None,
            provides: Vec::new(),
        };
        assert(r.provides.deep_view() == Seq::<ProvideDeclV>::empty());
        r
    }

    fn read_own(&mut self, toks: &Vec<Tok>, p: usize, e: usize, cfg: Vec<Attr>) -> (r: Result<
        usize,
        String,
    >)
        requires
            p <= e <= toks@.len(),
        ensures
            match r {
                Ok(q) => node_clause(
                    old(self).deep_view(),
                    toks.deep_view(),
                    p as int,
                    e as int,
                    cfg.deep_view(),
                ) == Ok::<(NodeClausesV, int), Fault>((final(self).deep_view(), q as int)) && p < q
                    <= e,
                Err(m) => node_clause(
                    old(self).deep_view(),
                    toks.deep_view(),
                    p as int,
                    e as int,
                    cfg.deep_view(),
                ) == Err::<(NodeClausesV, int), Fault>(m@),
            },
    {
        if at_word(toks, p, e, "deps") {
            let (x, q) = read_deps_clause(toks, p, e, self.deps.is_some())?;
            self.deps = Some(x);
            Ok(q)
        } else if at_word(toks, p, e, "pool_size") {
            let c = read_punct(toks, p + 1, e, ':')?;
            let (x, q) = read_int(toks, c, e)?;
            self.pool_size = Some(x);
            Ok(q)
        } else if at_word(toks, p, e, "disabled") {
            if self.disabled.is_some() {
                return Err(text("duplicate `disabled` marker"));
            }
            self.disabled = Some(Gated { cfg, value: () });
            Ok(p + 1)
        } else if at_word(toks, p, e, "ready_on_write") {
            if self.ready_on_write.is_some() {
                return Err(text("duplicate `ready_on_write` marker"));
            }
            self.ready_on_write = Some(Gated { cfg, value: () });
            Ok(p + 1)
        } else if at_word(toks, p, e, "beat_timeout") {
            let (x, q) = read_int_clause(toks, p, e, "beat_timeout", self.beat_timeout.is_some())?;
            self.beat_timeout = Some(Gated { cfg, value: x });
            Ok(q)
        } else if at_word(toks, p, e, "beat_window") {
            let (x, q) = read_int_clause(toks, p, e, "beat_window", self.beat_window.is_some())?;
            self.beat_window = Some(Gated { cfg, value: x });
            Ok(q)
        } else if at_word(toks, p, e, "exit") {
            let c = read_punct(toks, p + 1, e, ':')?;
            let (x, q) = read_type(toks, c, e)?;
            self.exit = Some(x);
            Ok(q)
        } else if at_word(toks, p, e, "provides") {
            let c = read_punct(toks, p + 1, e, ':')?;
            let (x, q) = parse_provided_list(toks, c, e, &self.provides)?;
            self.provides = x;
            Ok(q)
        } else {
            Err(expected_text(p, e, NODE_CLAUSE_WANTED))
        }
    }
}

fn read_node_clauses(toks: &Vec<Tok>, p: usize, e: usize) -> (r: Result<(NodeClauses, usize), String>)
    requires
        p <= e <= toks@.len(),
    ensures
        outcome(r) == node_clauses(no_node_clauses(), toks.deep_view(), p as int, e as int),
        r matches Ok((_, q)) ==> p <= q <= e,
{
    let ghost s = toks.deep_view();
    let mut a = NodeClauses::empty();
    let mut i: usize = p;
    while at_punct(toks, i, e, ',')
        invariant
            p <= i <= e <= toks@.len(),
            s == toks.deep_view(),
            node_clauses(no_node_clauses(), s, p as int, e as int) == node_clauses(
                a.deep_view(),
                s,
                i as int,
                e as int,
            ),
        decreases e - i,
    {
        let (cfg, q) = parse_clause_cfg(toks, i + 1, e, ClauseHost::Node)?;
        match a.common.parse_one(toks, q, e, &cfg)? {
            Some(r) => {
                i = r;
            },
            None => {
                i = a.read_own(toks, q, e, cfg)?;
            },
        }
    }
    Ok((a, i))
}

/// The first complaint of two.
pub open spec fn first(a: Option<Fault>, b: Option<Fault>) -> Option<Fault> {
    match a {
        Some(m) => Some(m),
        None => b,
    }
}

pub const BEAT_TIMEOUT_ZERO: &'static str = "`beat_timeout:` must be at least 1 (milliseconds) — omit the clause to leave the node unpoliced";

pub open spec fn beat_timeout_fault(a: NodeClausesV) -> Option<Fault> {
    match a.beat_timeout {
        None => None,
        Some(g) => match g.value.value {
            None => Some(g.value.fault),
            Some(n) => if n == 0 {
                Some(BEAT_TIMEOUT_ZERO@)
            } else {
                None
            },
        },
    }
}

fn check_beat_timeout(a: &NodeClauses) -> (r: Result<(), String>)
    ensures
        complaint(r) == beat_timeout_fault(a.deep_view()),
{
    match &a.beat_timeout {
        None => Ok(()),
        Some(g) => match g.value.value {
            None => Err(g.value.fault.clone()),
            Some(n) => if n == 0 {
                Err(text(BEAT_TIMEOUT_ZERO))
            } else {
                Ok(())
            },
        },
    }
}

pub const WINDOW_NEEDS_TIMEOUT: &'static str = "`beat_window:` requires `beat_timeout:` — the window counts consecutive sweeps that found the node past its beat budget";

pub const WINDOW_RANGE: &'static str = "`beat_window:` must be in 1..=255 — omit the clause for the default of 1, which reports on the first stale sweep";

pub open spec fn beat_window_fault(a: NodeClausesV) -> Option<Fault> {
    match a.beat_window {
        None => None,
        Some(g) => if a.beat_timeout is None {
            Some(WINDOW_NEEDS_TIMEOUT@)
        } else {
            match g.value.value {
                None => Some(g.value.fault),
                Some(n) => if 1 <= n <= 255 {
                    None
                } else {
                    Some(WINDOW_RANGE@)
                },
            }
        },
    }
}

fn check_beat_window(a: &NodeClauses) -> (r: Result<(), String>)
    ensures
        complaint(r) == beat_window_fault(a.deep_view()),
{
    match &a.beat_window {
        None => Ok(()),
        Some(g) => if a.beat_timeout.is_none() {
            Err(text(WINDOW_NEEDS_TIMEOUT))
        } else {
            match g.value.value {
                None => Err(g.value.fault.clone()),
                Some(n) => if 1 <= n && n <= 255 {
                    Ok(())
                } else {
                    Err(text(WINDOW_RANGE))
                },
            }
        },
    }
}

pub const WINDOW_GATE: &'static str = "`beat_window:` must carry the same `#[cfg]` predicate as its `beat_timeout:` — the window counts sweeps of a budget that gate compiles out";

pub const READY_GATE: &'static str = "`ready_on_write` must carry the same `#[cfg]` predicate as its `beat_timeout:` — readiness is asserted by the monitor sweep, which that gate compiles out";

/// Under a gated `beat_timeout:`, its companions carry the same gate.
pub open spec fn beat_gate_fault(a: NodeClausesV) -> Option<Fault> {
    match a.beat_timeout {
        None => None,
        Some(bt) => if bt.cfg.len() == 0 {
            None
        } else if a.beat_window matches Some(bw) && cfg_text(bw.cfg) != cfg_text(bt.cfg) {
            Some(WINDOW_GATE@)
        } else if a.ready_on_write matches Some(row) && cfg_text(row.cfg) != cfg_text(bt.cfg) {
            Some(READY_GATE@)
        } else {
            None
        },
    }
}

fn check_beat_gate(a: &NodeClauses) -> (r: Result<(), String>)
    ensures
        complaint(r) == beat_gate_fault(a.deep_view()),
{
    if let Some(bt) = &a.beat_timeout {
        if bt.cfg.len() > 0 {
            let gate = cfg_to_text(&bt.cfg);
            if let Some(bw) = &a.beat_window {
                let own = cfg_to_text(&bw.cfg);
                if !same(own.as_str(), gate.as_str()) {
                    return Err(text(WINDOW_GATE));
                }
            }
            if let Some(row) = &a.ready_on_write {
                let own = cfg_to_text(&row.cfg);
                if !same(own.as_str(), gate.as_str()) {
                    return Err(text(READY_GATE));
                }
            }
        }
    }
    Ok(())
}

pub const BEAT_ON_READ: &'static str = "`beat` belongs on a `writes:` entry — a node's heartbeat is something it produces, not something it consumes";

pub open spec fn read_beat_fault(a: NodeClausesV) -> Option<Fault> {
    if exists|i: int| 0 <= i < a.common.reads.len() && (#[trigger] a.common.reads[i]).beat {
        Some(BEAT_ON_READ@)
    } else {
        None
    }
}

fn check_read_beat(a: &NodeClauses) -> (r: Result<(), String>)
    ensures
        complaint(r) == read_beat_fault(a.deep_view()),
{
    let ghost d = a.common.reads.deep_view();
    let mut i: usize = 0;
    while i < a.common.reads.len()
        invariant
            i <= a.common.reads@.len(),
            d == a.common.reads.deep_view(),
            forall|k: int| 0 <= k < i ==> !(#[trigger] d[k]).beat,
        decreases a.common.reads@.len() - i,
    {
        if a.common.reads[i].beat {
            assert(d[i as int].beat);
            return Err(text(BEAT_ON_READ));
        }
        i = i + 1;
    }
    Ok(())
}

/// An entry that is neither `observed` nor `beat`.
pub open spec fn unmarked(d: Seq<SignalDeclV>) -> bool {
    exists|i: int|
        0 <= i < d.len() && !(#[trigger] d[i]).observed && !d[i].beat
}

fn has_unmarked(list: &Vec<SignalDecl>) -> (r: bool)
    ensures
        r == unmarked(list.deep_view()),
{
    let ghost d = list.deep_view();
    let mut i: usize = 0;
    while i < list.len()
        invariant
            i <= list@.len(),
            d == list.deep_view(),
            forall|k: int| 0 <= k < i ==> (#[trigger] d[k]).observed || d[k].beat,
        decreases list@.len() - i,
    {
        if !list[i].observed && !list[i].beat {
            assert(!d[i as int].observed);
            return true;
        }
        i = i + 1;
    }
    false
}

pub const DISCOVER_MARKERS: &'static str = "beside `discover`, a `reads:`/`writes:` entry may only add markers (`observed`, `beat`) to a signal the task fn already accesses — this one carries none, so it would declare a coupling the scan did not find. Drop the entry, or drop `discover` and declare the whole relation";

pub const DISCOVER_PARKED: &'static str = "`discover` needs a `task:`/`spawn:` fn to take its tables from — a parked node has nothing to scan";

pub open spec fn discover_fault(a: NodeClausesV) -> Option<Fault> {
    if a.common.discover is None {
        None
    } else if unmarked(a.common.reads) || unmarked(a.common.writes) {
        Some(DISCOVER_MARKERS@)
    } else if a.common.spawn is None && a.common.task is None {
        Some(DISCOVER_PARKED@)
    } else {
        None
    }
}

fn check_discover(a: &NodeClauses) -> (r: Result<(), String>)
    ensures
        complaint(r) == discover_fault(a.deep_view()),
{
    if a.common.discover.is_none() {
        Ok(())
    } else if has_unmarked(&a.common.reads) || has_unmarked(&a.common.writes) {
        Err(text(DISCOVER_MARKERS))
    } else if a.common.spawn.is_none() && a.common.task.is_none() {
        Err(text(DISCOVER_PARKED))
    } else {
        Ok(())
    }
}

pub const READY_NEEDS_BEAT: &'static str = "`ready_on_write` requires an `observed beat` entry in `writes:` — the sweep's own poll of that write is what asserts the readiness. A body that beats through its verbs asserts readiness itself, with `set_ready()` at the same write";

pub const READY_NEEDS_TIMEOUT: &'static str = "`ready_on_write` requires `beat_timeout:` — readiness is asserted from the monitor sweep, which only visits nodes that declare a beat budget";

/// An entry marked `observed beat`.
pub open spec fn observed_beat(d: Seq<SignalDeclV>) -> bool {
    exists|i: int| 0 <= i < d.len() && (#[trigger] d[i]).observed && d[i].beat
}

fn has_observed_beat(list: &Vec<SignalDecl>) -> (r: bool)
    ensures
        r == observed_beat(list.deep_view()),
{
    let ghost d = list.deep_view();
    let mut i: usize = 0;
    while i < list.len()
        invariant
            i <= list@.len(),
            d == list.deep_view(),
            forall|k: int| 0 <= k < i ==> !(#[trigger] d[k]).observed || !d[k].beat,
        decreases list@.len() - i,
    {
        if list[i].observed && list[i].beat {
            assert(d[i as int].observed);
            return true;
        }
        i = i + 1;
    }
    false
}

pub open spec fn ready_fault(a: NodeClausesV) -> Option<Fault> {
    if a.ready_on_write is None {
        None
    } else if !observed_beat(a.common.writes) {
        Some(READY_NEEDS_BEAT@)
    } else if a.beat_timeout is None {
        Some(READY_NEEDS_TIMEOUT@)
    } else {
        None
    }
}

fn check_ready(a: &NodeClauses) -> (r: Result<(), String>)
    ensures
        complaint(r) == ready_fault(a.deep_view()),
{
    if a.ready_on_write.is_none() {
        Ok(())
    } else if !has_observed_beat(&a.common.writes) {
        Err(text(READY_NEEDS_BEAT))
    } else if a.beat_timeout.is_none() {
        Err(text(READY_NEEDS_TIMEOUT))
    } else {
        Ok(())
    }
}

pub const POOL_SIZE_TASK: &'static str = "`pool_size:` requires `task:` — a `spawn:` task fn sets its own `#[embassy_executor::task(pool_size = ...)]`";

pub const POOL_SIZE_ZERO: &'static str = "`pool_size:` must be at least 1";

pub const NUMBER_TOO_LARGE: &'static str = "number too large to fit in target type";

pub open spec fn pool_size_task_fault(a: NodeClausesV) -> Option<Fault> {
    if a.pool_size is Some && a.common.task is None {
        Some(POOL_SIZE_TASK@)
    } else {
        None
    }
}

pub open spec fn pool_size_fault(a: NodeClausesV) -> Option<Fault> {
    match a.pool_size {
        None => None,
        Some(lit) => match lit.value {
            None => Some(lit.fault),
            Some(n) => if n > usize::MAX {
                Some(NUMBER_TOO_LARGE@)
            } else if n == 0 {
                Some(POOL_SIZE_ZERO@)
            } else {
                None
            },
        },
    }
}

fn check_pool_size(a: &NodeClauses) -> (r: Result<(), String>)
    ensures
        complaint(r) == pool_size_fault(a.deep_view()),
{
    match &a.pool_size {
        None => Ok(()),
        Some(lit) => match lit.value {
            None => Err(lit.fault.clone()),
            Some(n) => if n > usize::MAX as u64 {
                Err(text(NUMBER_TOO_LARGE))
            } else if n == 0 {
                Err(text(POOL_SIZE_ZERO))
            } else {
                Ok(())
            },
        },
    }
}

pub const RESOURCES_TASK: &'static str = "`resources:` requires `task:` — resources are handed to the generated shell as owned arguments and restored by it; a `spawn:` task fn manages its own arguments";

pub const RESOURCES_EMPTY: &'static str = "`resources:` must declare at least one `NAME: Type` entry";

/// A resource before `i` has the name of resource `i`.
pub open spec fn slot_before(d: Seq<ResourceDeclV>, i: int) -> bool {
    exists|j: int| 0 <= j < i && (#[trigger] d[j]).ident == d[i].ident
}

/// The first name given twice, from resource `i` on.
pub open spec fn slot_twice(d: Seq<ResourceDeclV>, i: int) -> Option<Fault>
    decreases d.len() - i,
{
    if i >= d.len() {
        None
    } else if slot_before(d, i) {
        Some("duplicate resource name `"@ + d[i].ident + "`"@)
    } else {
        slot_twice(d, i + 1)
    }
}

fn is_slot_before(d: &Vec<ResourceDecl>, i: usize) -> (r: bool)
    requires
        i < d@.len(),
    ensures
        r == slot_before(d.deep_view(), i as int),
{
    let ghost v = d.deep_view();
    let mut j: usize = 0;
    while j < i
        invariant
            j <= i < d@.len(),
            v == d.deep_view(),
            forall|k: int| 0 <= k < j ==> (#[trigger] v[k]).ident != v[i as int].ident,
        decreases i - j,
    {
        if same(d[j].ident.as_str(), d[i].ident.as_str()) {
            assert(v[j as int].ident == v[i as int].ident);
            return true;
        }
        j = j + 1;
    }
    false
}

fn check_slots(d: &Vec<ResourceDecl>) -> (r: Result<(), String>)
    ensures
        complaint(r) == slot_twice(d.deep_view(), 0),
{
    let mut i: usize = 0;
    while i < d.len()
        invariant
            i <= d@.len(),
            slot_twice(d.deep_view(), 0) == slot_twice(d.deep_view(), i as int),
        decreases d@.len() - i,
    {
        if is_slot_before(d, i) {
            return Err(cat3("duplicate resource name `", d[i].ident.as_str(), "`"));
        }
        i = i + 1;
    }
    Ok(())
}

pub open spec fn resources_fault(a: NodeClausesV) -> Option<Fault> {
    match a.common.resources {
        None => None,
        Some(d) => if a.common.task is None {
            Some(RESOURCES_TASK@)
        } else if d.len() == 0 {
            Some(RESOURCES_EMPTY@)
        } else {
            slot_twice(d, 0)
        },
    }
}

fn check_resources(a: &NodeClauses) -> (r: Result<(), String>)
    ensures
        complaint(r) == resources_fault(a.deep_view()),
{
    match &a.common.resources {
        None => Ok(()),
        Some(d) => if a.common.task.is_none() {
            Err(text(RESOURCES_TASK))
        } else if d.len() == 0 {
            Err(text(RESOURCES_EMPTY))
        } else {
            check_slots(d)
        },
    }
}

pub const STATE_TASK: &'static str = "`state:` requires `task:` — the generated shell owns the boxed state across the worker call and drops it on exit; a `spawn:` task fn can Box its own state";

pub const EXIT_TASK: &'static str = "`exit:` requires `task:` — the generated shell is what captures the worker's return value; a `spawn:` task fn can provide() into a slot itself";

pub const CANCEL_TASK: &'static str = "`cancel` requires `task:` — it wraps the generated shell's call to the worker; a `spawn:` task fn can call `node.run_cancellable(..)` itself";

pub const CANCEL_PAUSE: &'static str = "`cancel` cannot be combined with `Mode::Pause` — a Pause worker must survive the stop and park on `wait_resume()`, but `cancel` drops its future and records an exit; use `Mode::Terminate` (or `OnDemand`), or drive the pause by hand in the worker";

/// The clauses that only make sense beside `task:`.
pub open spec fn shell_fault(a: NodeClausesV, mode: Seq<char>) -> Option<Fault> {
    if a.common.state is Some && a.common.task is None {
        Some(STATE_TASK@)
    } else if a.exit is Some && a.common.task is None {
        Some(EXIT_TASK@)
    } else if a.common.cancel && a.common.task is None {
        Some(CANCEL_TASK@)
    } else if a.common.cancel && mode == "Pause"@ {
        Some(CANCEL_PAUSE@)
    } else {
        None
    }
}

fn check_shell(a: &NodeClauses, mode: &str) -> (r: Result<(), String>)
    ensures
        complaint(r) == shell_fault(a.deep_view(), mode@),
{
    if a.common.state.is_some() && a.common.task.is_none() {
        Err(text(STATE_TASK))
    } else if a.exit.is_some() && a.common.task.is_none() {
        Err(text(EXIT_TASK))
    } else if a.common.cancel && a.common.task.is_none() {
        Err(text(CANCEL_TASK))
    } else if a.common.cancel && same(mode, "Pause") {
        Err(text(CANCEL_PAUSE))
    } else {
        Ok(())
    }
}

/// What is wrong with the clauses of a node taken together.
pub open spec fn node_fault(a: NodeClausesV, mode: Seq<char>) -> Option<Fault> {
    first(
        beat_timeout_fault(a),
        first(
            beat_window_fault(a),
            first(
                beat_gate_fault(a),
                first(
                    read_beat_fault(a),
                    first(
                        discover_fault(a),
                        first(
                            ready_fault(a),
                            first(
                                pool_size_task_fault(a),
                                first(
                                    resources_fault(a),
                                    first(pool_size_fault(a), shell_fault(a, mode)),
                                ),
                            ),
                        ),
                    ),
                ),
            ),
        ),
    )
}

fn check_node(a: &NodeClauses, mode: &str) -> (r: Result<(), String>)
    ensures
        complaint(r) == node_fault(a.deep_view(), mode@),
{
    check_beat_timeout(a)?;
    check_beat_window(a)?;
    check_beat_gate(a)?;
    check_read_beat(a)?;
    check_discover(a)?;
    check_ready(a)?;
    if a.pool_size.is_some() && a.common.task.is_none() {
        return Err(text(POOL_SIZE_TASK));
    }
    check_resources(a)?;
    check_pool_size(a)?;
    check_shell(a, mode)
}

/// An optional list, empty where it is not given.
pub open spec fn given<T>(list: Option<Seq<T>>) -> Seq<T> {
    match list {
        Some(v) => v,
        None => Seq::empty(),
    }
}

pub fn given_list<T: DeepView>(list: Option<Vec<T>>) -> (r: Vec<T>)
    ensures
        r.deep_view() == given(list.deep_view()),
{
    match list {
        Some(v) => v,
        None => {
            let v: Vec<T> = Vec::new();
            assert(v.deep_view() == Seq::<T::V>::empty());
            v
        },
    }
}

/// Reads a node declaration.
pub open spec fn take_node(
    s: Seq<TokV>,
    p: int,
    e: int,
    cfg: Seq<AttrV>,
) -> Result<(NodeItemV, int), Fault> {
    match take_word(s, p, e, "node"@) {
        Err(m) => Err(m),
        Ok(a) => match take_ident(s, a, e) {
            Err(m) => Err(m),
            Ok((ident, b)) => match take_punct(s, b, e, '=') {
                Err(m) => Err(m),
                Ok(c) => match take_ident(s, c, e) {
                    Err(m) => Err(m),
                    Ok((mode, d)) => match node_clauses(no_node_clauses(), s, d, e) {
                        Err(m) => Err(m),
                        Ok((k, f)) => match take_punct(s, f, e, ';') {
                            Err(m) => Err(m),
                            Ok(q) => match node_of(k, cfg, ident, line_of(s[a]), mode) {
                                Err(m) => Err(m),
                                Ok(n) => Ok((n, q)),
                            },
                        },
                    },
                },
            },
        },
    }
}

/// The node that its clauses make, or what is wrong with them.
pub open spec fn node_of(
    k: NodeClausesV,
    cfg: Seq<AttrV>,
    ident: Seq<char>,
    line: usize,
    mode: Seq<char>,
) -> Result<NodeItemV, Fault> {
    match node_fault(k, mode) {
        Some(m) => Err(m),
        None => match source_of(k.common.spawn, k.common.task) {
            Err(m) => Err(m),
            Ok(source) => Ok(
                NodeItemV {
                    cfg,
                    ident,
                    line,
                    mode,
                    deps: given(k.deps),
                    source,
                    pool_size: k.pool_size,
                    resources: given(k.common.resources),
                    disabled: k.disabled,
                    executor: k.common.executor,
                    executor_defaulted: false,
                    slot_timeout: k.common.slot_timeout,
                    ack_timeout: k.common.ack_timeout,
                    beat_timeout: k.beat_timeout,
                    beat_window: k.beat_window,
                    ready_on_write: k.ready_on_write,
                    reads: k.common.reads,
                    writes: k.common.writes,
                    exit: k.exit,
                    state: k.common.state,
                    cancel: k.common.cancel,
                    discover: k.common.discover,
                    dataflow: given(k.common.dataflow),
                    provides: k.provides,
                    fragment: None,
                },
            ),
        },
    }
}

fn finish_node(k: NodeClauses, cfg: Vec<Attr>, ident: String, line: usize, mode: String) -> (r: Result<
    NodeItem,
    String,
>)
    ensures
        verdict(r) == node_of(k.deep_view(), cfg.deep_view(), ident@, line, mode@),
{
    check_node(&k, mode.as_str())?;
    let source = task_source(k.common.spawn, k.common.task)?;
    Ok(
        NodeItem {
            cfg,
            ident,
            line,
            mode,
            deps: given_list(k.deps),
            source,
            pool_size: k.pool_size,
            resources: given_list(k.common.resources),
            disabled: k.disabled,
            executor: k.common.executor,
            executor_defaulted: false,
            slot_timeout: k.common.slot_timeout,
            ack_timeout: k.common.ack_timeout,
            beat_timeout: k.beat_timeout,
            beat_window: k.beat_window,
            ready_on_write: k.ready_on_write,
            reads: k.common.reads,
            writes: k.common.writes,
            exit: k.exit,
            state: k.common.state,
            cancel: k.common.cancel,
            discover: k.common.discover,
            dataflow: given_list(k.common.dataflow),
            provides: k.provides,
            fragment: None,
        },
    )
}

/// The line of the identifier at `p`.
pub fn line_at(toks: &Vec<Tok>, p: usize) -> (r: usize)
    requires
        p < toks@.len(),
    ensures
        r == line_of(toks.deep_view()[p as int]),
{
    match &toks[p] {
        Tok::Ident { name, line } => *line,
        _ => 0,
    }
}

/// Parses a `node NAME = Mode, ..;` declaration that stands behind the attributes `cfg`.
pub fn parse_node(toks: &Vec<Tok>, p: usize, e: usize, cfg: Vec<Attr>) -> (r: Result<
    (NodeItem, usize),
    String,
>)
    requires
        p <= e <= toks@.len(),
    ensures
        outcome(r) == take_node(toks.deep_view(), p as int, e as int, cfg.deep_view()),
        r matches Ok((_, q)) ==> p < q <= e,
{
    let a = read_word(toks, p, e, "node")?;
    let (ident, b) = read_ident(toks, a, e)?;
    let line = line_at(toks, a);
    let c = read_punct(toks, b, e, '=')?;
    let (mode, d) = read_ident(toks, c, e)?;
    let (k, f) = read_node_clauses(toks, d, e)?;
    let q = read_punct(toks, f, e, ';')?;
    let n = finish_node(k, cfg, ident, line, mode)?;
    Ok((n, q))
}

} // verus!
