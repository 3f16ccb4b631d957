//! Clauses that nodes and pools share.

use vstd::prelude::*;
use vstd::string::*;

use crate::ast::{
    stripped, strip, AdoptedFn, AdoptedFnV, Gated, GatedV, ResourceDecl, ResourceDeclV, SignalDecl,
    SignalDeclV, StateDecl, StateDeclV, StateInit, StateInitV, TaskSource, TaskSourceV,
};
use crate::list::{put, Dup};
use crate::lists::{
    check_signal_list, gate_fault, parse_adopted_list, parse_resource_list, parse_signal_list,
    require_cfg_list, signals_fault, take_adopted, take_resources, take_signals,
};
use crate::parse::{
    at_punct, at_word, expected, expected_text, outcome, punct_at, read_attrs, read_expr, read_ident,
    read_int, read_punct, read_type, take_attrs, take_expr, take_ident, take_int, take_punct,
    take_type, verdict, word_at, Fault,
};
use crate::rust::{Attr, AttrV, ExprText, ExprTextV, IntLit, IntLitV};
use crate::text::{cat3, join, joined, text};
use crate::token::{Tok, TokV};

verus! {

/// The clauses read so far that a node and a pool have in common.
#[derive(Debug)]
pub struct CommonClauses {
    /// The `executor:` name.
    pub executor: Option<String>,
    /// The `spawn:` expression.
    pub spawn: Option<ExprText>,
    /// The `task:` expression.
    pub task: Option<ExprText>,
    /// The `resources:` list.
    pub resources: Option<Vec<ResourceDecl>>,
    /// The `reads:` list.
    pub reads: Vec<SignalDecl>,
    /// The `writes:` list.
    pub writes: Vec<SignalDecl>,
    /// The `state:` clause.
    pub state: Option<StateDecl>,
    /// The `slot_timeout:` milliseconds.
    pub slot_timeout: Option<Gated<IntLit>>,
    /// The `ack_timeout:` milliseconds.
    pub ack_timeout: Option<Gated<IntLit>>,
    /// Marked `cancel`.
    pub cancel: bool,
    /// The `discover` marker.
    pub discover: Option<Gated<()>>,
    /// The `dataflow:` list.
    pub dataflow: Option<Vec<AdoptedFn>>,
}

/// What a [`CommonClauses`] means.
pub struct CommonClausesV {
    pub executor: Option<Seq<char>>,
    pub spawn: Option<ExprTextV>,
    pub task: Option<ExprTextV>,
    pub resources: Option<Seq<ResourceDeclV>>,
    pub reads: Seq<SignalDeclV>,
    pub writes: Seq<SignalDeclV>,
    pub state: Option<StateDeclV>,
    pub slot_timeout: Option<GatedV<IntLitV>>,
    pub ack_timeout: Option<GatedV<IntLitV>>,
    pub cancel: bool,
    pub discover: Option<GatedV<()>>,
    pub dataflow: Option<Seq<AdoptedFnV>>,
}

impl DeepView for CommonClauses {
    type V = CommonClausesV;

    open spec fn deep_view(&self) -> CommonClausesV {
        CommonClausesV {
            executor: self.executor.deep_view(),
            spawn: self.spawn.deep_view(),
            task: self.task.deep_view(),
            resources: self.resources.deep_view(),
            reads: self.reads.deep_view(),
            writes: self.writes.deep_view(),
            state: self.state.deep_view(),
            slot_timeout: self.slot_timeout.deep_view(),
            ack_timeout: self.ack_timeout.deep_view(),
            cancel: self.cancel.deep_view(),
            discover: self.discover.deep_view(),
            dataflow: self.dataflow.deep_view(),
        }
    }
}

impl Dup for CommonClauses {
    fn dup(&self) -> (r: Self) {
        CommonClauses {
            executor: self.executor.dup(),
            spawn: self.spawn.dup(),
            task: self.task.dup(),
            resources: self.resources.dup(),
            reads: self.reads.dup(),
            writes: self.writes.dup(),
            state: self.state.dup(),
            slot_timeout: self.slot_timeout.dup(),
            ack_timeout: self.ack_timeout.dup(),
            cancel: self.cancel.dup(),
            discover: self.discover.dup(),
            dataflow: self.dataflow.dup(),
        }
    }
}


/// No clause.
pub open spec fn no_clauses() -> CommonClausesV {
    CommonClausesV {
        executor: None,
        spawn: None,
        task: None,
        resources: None,
        reads: Seq::empty(),
        writes: Seq::empty(),
        state: None,
        slot_timeout: None,
        ack_timeout: None,
        cancel: false,
        discover: None,
        dataflow: None,
    }
}

/// What is said of a clause given twice.
pub open spec fn dup_clause(name: Seq<char>) -> Fault {
    "duplicate `"@ + name + CLAUSE_TWICE@
}

pub const CLAUSE_TWICE: &'static str = ":` clause — one declaration is the contract";

pub fn dup_clause_text(name: &str) -> (r: String)
    ensures
        r@ == dup_clause(name@),
{
    cat3("duplicate `", name, CLAUSE_TWICE)
}

/// Attributes as text, normalized for comparing predicates.
pub open spec fn cfg_text(attrs: Seq<AttrV>) -> Seq<char> {
    joined(Seq::new(attrs.len(), |i: int| stripped(attrs[i].text)), ","@)
}

/// The attributes' text, normalized for comparing predicates.
pub fn cfg_to_text(attrs: &Vec<Attr>) -> (r: String)
    ensures
        r@ == cfg_text(attrs.deep_view()),
{
    let ghost all = Seq::new(attrs.deep_view().len(), |i: int| stripped(attrs.deep_view()[i].text));
    let mut parts: Vec<String> = Vec::new();
    let mut i: usize = 0;
    while i < attrs.len()
        invariant
            i <= attrs@.len(),
            all == Seq::new(
                attrs.deep_view().len(),
                |i: int| stripped(attrs.deep_view()[i].text),
            ),
            parts.deep_view() == all.take(i as int),
        decreases attrs@.len() - i,
    {
        let t = strip(attrs[i].text.as_str());
        put(&mut parts, t);
        i = i + 1;
        assert(parts.deep_view() == all.take(i as int));
    }
    assert(all.take(all.len() as int) == all);
    join(&parts, ",")
}

/// What a clause belongs to.
#[derive(Clone, Copy, PartialEq, Eq, Structural)]
pub enum ClauseHost {
    Node,
    Pool,
}

/// The clause at `p` may stand behind `#[cfg(..)]`.
pub open spec fn gateable(s: Seq<TokV>, p: int, e: int, host: ClauseHost) -> bool {
    ||| word_at(s, p, e, "slot_timeout"@)
    ||| word_at(s, p, e, "ack_timeout"@)
    ||| word_at(s, p, e, "discover"@)
    ||| host == ClauseHost::Node && (word_at(s, p, e, "beat_timeout"@) || word_at(
        s,
        p,
        e,
        "beat_window"@,
    ) || word_at(s, p, e, "ready_on_write"@) || word_at(s, p, e, "disabled"@))
}

pub const NODE_GATES: &'static str = "`#[cfg(...)]` may only gate `slot_timeout:`, `ack_timeout:`, `beat_timeout:`, `beat_window:`, `ready_on_write`, `disabled`, or `discover` — gate the whole node, or a single entry inside `deps:`/`resources:`/`reads:`/`writes:`/`dataflow:`/`provides:`, for anything structural";

pub const POOL_GATES: &'static str = "`#[cfg(...)]` may only gate `slot_timeout:`, `ack_timeout:`, or `discover` — gate the whole pool, or a single entry inside `deps:`/`resources:`/`reads:`/`writes:`/`dataflow:`, for anything structural";

/// Reads the attributes that gate the clause behind them.
pub open spec fn clause_cfg(s: Seq<TokV>, p: int, e: int, host: ClauseHost) -> Result<
    (Seq<AttrV>, int),
    Fault,
> {
    if !punct_at(s, p, e, '#') {
        Ok((Seq::empty(), p))
    } else {
        match take_attrs(s, p, e) {
            Err(m) => Err(m),
            Ok((a, q)) => match gate_fault(a, "clause"@) {
                Some(m) => Err(m),
                None => if gateable(s, q, e, host) {
                    Ok((a, q))
                } else {
                    Err(
                        expected(
                            q,
                            e,
                            match host {
                                ClauseHost::Node => NODE_GATES@,
                                ClauseHost::Pool => POOL_GATES@,
                            },
                        ),
                    )
                },
            },
        }
    }
}

pub fn parse_clause_cfg(toks: &Vec<Tok>, p: usize, e: usize, host: ClauseHost) -> (r: Result<
    (Vec<Attr>, usize),
    String,
>)
    requires
        p <= e <= toks@.len(),
    ensures
        outcome(r) == clause_cfg(toks.deep_view(), p as int, e as int, host),
        r matches Ok((_, q)) ==> p <= q <= e,
{
    if !at_punct(toks, p, e, '#') {
        let none: Vec<Attr> = Vec::new();
        assert(none.deep_view() == Seq::<AttrV>::empty());
        return Ok((none, p));
    }
    let (a, q) = read_attrs(toks, p, e)?;
    require_cfg_list(&a, "clause")?;
    let node = match host {
        ClauseHost::Node => true,
        ClauseHost::Pool => false,
    };
    if at_word(toks, q, e, "slot_timeout") || at_word(toks, q, e, "ack_timeout") || at_word(
        toks,
        q,
        e,
        "discover",
    ) || (node && (at_word(toks, q, e, "beat_timeout") || at_word(toks, q, e, "beat_window")
        || at_word(toks, q, e, "ready_on_write") || at_word(toks, q, e, "disabled"))) {
        Ok((a, q))
    } else {
        Err(
            expected_text(
                q,
                e,
                match host {
                    ClauseHost::Node => NODE_GATES,
                    ClauseHost::Pool => POOL_GATES,
                },
            ),
        )
    }
}

/// Reads a number of milliseconds that is at least one.
pub open spec fn take_timeout(s: Seq<TokV>, p: int, e: int, name: Seq<char>) -> Result<
    (IntLitV, int),
    Fault,
> {
    match take_int(s, p, e) {
        Err(m) => Err(m),
        Ok((lit, q)) => match lit.value {
            None => Err(lit.fault),
            Some(n) => if n == 0 {
                Err("`"@ + name + ":` must be at least 1 (milliseconds)"@)
            } else {
                Ok((lit, q))
            },
        },
    }
}

fn read_timeout(toks: &Vec<Tok>, p: usize, e: usize, name: &str) -> (r: Result<(IntLit, usize), String>)
    requires
        p <= e <= toks@.len(),
    ensures
        outcome(r) == take_timeout(toks.deep_view(), p as int, e as int, name@),
        r matches Ok((_, q)) ==> p <= q <= e,
{
    let (lit, q) = read_int(toks, p, e)?;
    match lit.value {
        None => Err(lit.fault),
        Some(n) => if n == 0 {
            Err(cat3("`", name, ":` must be at least 1 (milliseconds)"))
        } else {
            Ok((lit, q))
        },
    }
}

/// Reads the value of a `state:` clause.
pub open spec fn take_state(s: Seq<TokV>, p: int, e: int) -> Result<(StateDeclV, int), Fault> {
    if word_at(s, p, e, "zeroed"@) && !punct_at(s, p + 1, e, '=') {
        match take_type(s, p + 1, e) {
            Err(m) => Err(m),
            Ok((ty, q)) => Ok((StateDeclV { ty, init: StateInitV::Zeroed }, q)),
        }
    } else {
        match take_type(s, p, e) {
            Err(m) => Err(m),
            Ok((ty, a)) => match take_punct(s, a, e, '=') {
                Err(m) => Err(m),
                Ok(b) => match take_expr(s, b, e) {
                    Err(m) => Err(m),
                    Ok((x, q)) => Ok((StateDeclV { ty, init: StateInitV::Expr(x) }, q)),
                },
            },
        }
    }
}

fn read_state(toks: &Vec<Tok>, p: usize, e: usize) -> (r: Result<(StateDecl, usize), String>)
    requires
        p <= e <= toks@.len(),
    ensures
        outcome(r) == take_state(toks.deep_view(), p as int, e as int),
        r matches Ok((_, q)) ==> p <= q <= e,
{
    if at_word(toks, p, e, "zeroed") && !at_punct(toks, p + 1, e, '=') {
        let (ty, q) = read_type(toks, p + 1, e)?;
        Ok((StateDecl { ty, init: StateInit::Zeroed }, q))
    } else {
        let (ty, a) = read_type(toks, p, e)?;
        let b = read_punct(toks, a, e, '=')?;
        let (x, q) = read_expr(toks, b, e)?;
        Ok((StateDecl { ty, init: StateInit::Expr(x) }, q))
    }
}

/// Reads a non-empty signal list whose entries are all different.
pub open spec fn take_checked_signals(s: Seq<TokV>, p: int, e: int, clause: Seq<char>) -> Result<
    (Seq<SignalDeclV>, int),
    Fault,
> {
    match take_signals(s, p, e) {
        Err(m) => Err(m),
        Ok((d, q)) => match signals_fault(clause, d) {
            Some(m) => Err(m),
            None => Ok((d, q)),
        },
    }
}

fn read_checked_signals(toks: &Vec<Tok>, p: usize, e: usize, clause: &str) -> (r: Result<
    (Vec<SignalDecl>, usize),
    String,
>)
    requires
        p <= e <= toks@.len(),
    ensures
        outcome(r) == take_checked_signals(toks.deep_view(), p as int, e as int, clause@),
        r matches Ok((_, q)) ==> p <= q <= e,
{
    let (d, q) = parse_signal_list(toks, p, e)?;
    check_signal_list(clause, &d)?;
    Ok((d, q))
}

pub const DISCOVER_BARE: &'static str = "`discover` takes no argument — the tables come from the task fn's `#[dataflow]` attribute, sized by its scan";

/// A clause read behind its `name:`, refused where it was given before.
pub open spec fn once<T>(
    s: Seq<TokV>,
    p: int,
    e: int,
    name: Seq<char>,
    given: bool,
    value: Result<(T, int), Fault>,
) -> Result<(T, int), Fault> {
    match take_punct(s, p + 1, e, ':') {
        Err(m) => Err(m),
        Ok(q) => if given {
            Err(dup_clause(name))
        } else {
            value
        },
    }
}

/// Reads the colon behind the clause name at `p`, and refuses a clause given before.
fn begin(toks: &Vec<Tok>, p: usize, e: usize, name: &str, given: bool) -> (r: Result<usize, String>)
    requires
        p < e <= toks@.len(),
    ensures
        match r {
            Ok(q) => !given && q == p + 2 && take_punct(toks.deep_view(), p + 1, e as int, ':') == Ok::<
                int,
                Fault,
            >(p + 2),
            Err(m) => match take_punct(toks.deep_view(), p + 1, e as int, ':') {
                Err(f) => f == m@,
                Ok(_) => given && m@ == dup_clause(name@),
            },
        },
        r matches Ok(q) ==> q <= e,
{
    let q = read_punct(toks, p + 1, e, ':')?;
    if given {
        return Err(dup_clause_text(name));
    }
    Ok(q)
}

/// Reads the common clause at `p` into `c`, gated by `cfg`; `None` where none stands there.
pub open spec fn common_clause(
    c: CommonClausesV,
    s: Seq<TokV>,
    p: int,
    e: int,
    cfg: Seq<AttrV>,
) -> Result<Option<(CommonClausesV, int)>, Fault> {
    if word_at(s, p, e, "spawn"@) {
        match once(s, p, e, "spawn"@, c.spawn is Some, take_expr(s, p + 2, e)) {
            Err(m) => Err(m),
            Ok((x, q)) => Ok(Some((CommonClausesV { spawn: Some(x), ..c }, q))),
        }
    } else if word_at(s, p, e, "task"@) {
        match once(s, p, e, "task"@, c.task is Some, take_expr(s, p + 2, e)) {
            Err(m) => Err(m),
            Ok((x, q)) => Ok(Some((CommonClausesV { task: Some(x), ..c }, q))),
        }
    } else if word_at(s, p, e, "executor"@) {
        match once(s, p, e, "executor"@, c.executor is Some, take_ident(s, p + 2, e)) {
            Err(m) => Err(m),
            Ok((x, q)) => Ok(Some((CommonClausesV { executor: Some(x), ..c }, q))),
        }
    } else if word_at(s, p, e, "resources"@) {
        match once(s, p, e, "resources"@, c.resources is Some, take_resources(s, p + 2, e)) {
            Err(m) => Err(m),
            Ok((x, q)) => Ok(Some((CommonClausesV { resources: Some(x), ..c }, q))),
        }
    } else if word_at(s, p, e, "reads"@) {
        match once(s, p, e, "reads"@, c.reads.len() > 0, take_checked_signals(s, p + 2, e, "reads"@)) {
            Err(m) => Err(m),
            Ok((x, q)) => Ok(Some((CommonClausesV { reads: x, ..c }, q))),
        }
    } else if word_at(s, p, e, "writes"@) {
        match once(s, p, e, "writes"@, c.writes.len() > 0, take_checked_signals(s, p + 2, e, "writes"@)) {
            Err(m) => Err(m),
            Ok((x, q)) => Ok(Some((CommonClausesV { writes: x, ..c }, q))),
        }
    } else if word_at(s, p, e, "state"@) {
        match once(s, p, e, "state"@, c.state is Some, take_state(s, p + 2, e)) {
            Err(m) => Err(m),
            Ok((x, q)) => Ok(Some((CommonClausesV { state: Some(x), ..c }, q))),
        }
    } else if word_at(s, p, e, "slot_timeout"@) {
        match once(s, p, e, "slot_timeout"@, c.slot_timeout is Some, take_timeout(s, p + 2, e, "slot_timeout"@)) {
            Err(m) => Err(m),
            Ok((x, q)) => Ok(Some((CommonClausesV { slot_timeout: Some(GatedV { cfg, value: x }), ..c }, q))),
        }
    } else if word_at(s, p, e, "ack_timeout"@) {
        match once(s, p, e, "ack_timeout"@, c.ack_timeout is Some, take_timeout(s, p + 2, e, "ack_timeout"@)) {
            Err(m) => Err(m),
            Ok((x, q)) => Ok(Some((CommonClausesV { ack_timeout: Some(GatedV { cfg, value: x }), ..c }, q))),
        }
    } else if word_at(s, p, e, "discover"@) {
        if c.discover is Some {
            Err("duplicate `discover` marker"@)
        } else if punct_at(s, p + 1, e, ':') {
            Err(DISCOVER_BARE@)
        } else {
            Ok(
                Some(
                    (CommonClausesV { discover: Some(GatedV { cfg, value: () }), ..c }, p + 1),
                ),
            )
        }
    } else if word_at(s, p, e, "dataflow"@) {
        match once(s, p, e, "dataflow"@, c.dataflow is Some, take_adopted(s, p + 2, e)) {
            Err(m) => Err(m),
            Ok((x, q)) => Ok(Some((CommonClausesV { dataflow: Some(x), ..c }, q))),
        }
    } else if word_at(s, p, e, "cancel"@) {
        if c.cancel {
            Err("duplicate `cancel` marker"@)
        } else {
            Ok(Some((CommonClausesV { cancel: true, ..c }, p + 1)))
        }
    } else {
        Ok(None)
    }
}

impl CommonClauses {
    pub fn empty() -> (r: CommonClauses)
        ensures
            r.deep_view() == no_clauses(),
    {
        let r = CommonClauses {
            executor: None,
            spawn: None,
            task: None,
            resources: None,
            reads: Vec::new(),
            writes: Vec::new(),
            state: None,
            slot_timeout: None,
            ack_timeout: None,
            cancel: false,
            discover: None,
            dataflow: None,
        };
        assert(r.reads.deep_view() == Seq::<SignalDeclV>::empty());
        assert(r.writes.deep_view() == Seq::<SignalDeclV>::empty());
        r
    }

    /// Reads the common clause at `p` into `self`; `None` where none stands there.
    pub fn parse_one(&mut self, toks: &Vec<Tok>, p: usize, e: usize, cfg: &Vec<Attr>) -> (r: Result<
        Option<usize>,
        String,
    >)
        requires
            p <= e <= toks@.len(),
        ensures
            match r {
                Ok(Some(q)) => common_clause(
                    old(self).deep_view(),
                    toks.deep_view(),
                    p as int,
                    e as int,
                    cfg.deep_view(),
                ) == Ok::<Option<(CommonClausesV, int)>, Fault>(Some((final(self).deep_view(), q as int))),
                Ok(None) => common_clause(
                    old(self).deep_view(),
                    toks.deep_view(),
                    p as int,
                    e as int,
                    cfg.deep_view(),
                ) == Ok::<Option<(CommonClausesV, int)>, Fault>(None) && final(self).deep_view()
                    == old(self).deep_view(),
                Err(m) => common_clause(
                    old(self).deep_view(),
                    toks.deep_view(),
                    p as int,
                    e as int,
                    cfg.deep_view(),
                ) == Err::<Option<(CommonClausesV, int)>, Fault>(m@),
            },
            r matches Ok(Some(q)) ==> p < q <= e,
    {
        if at_word(toks, p, e, "spawn") {
            let q = begin(toks, p, e, "spawn", self.spawn.is_some())?;
            let (x, end) = read_expr(toks, q, e)?;
            self.spawn = Some(x);
            Ok(Some(end))
        } else if at_word(toks, p, e, "task") {
            let q = begin(toks, p, e, "task", self.task.is_some())?;
            let (x, end) = read_expr(toks, q, e)?;
            self.task = Some(x);
            Ok(Some(end))
        } else if at_word(toks, p, e, "executor") {
            let q = begin(toks, p, e, "executor", self.executor.is_some())?;
            let (x, end) = read_ident(toks, q, e)?;
            self.executor = Some(x);
            Ok(Some(end))
        } else if at_word(toks, p, e, "resources") {
            let q = begin(toks, p, e, "resources", self.resources.is_some())?;
            let (x, end) = parse_resource_list(toks, q, e)?;
            self.resources = Some(x);
            Ok(Some(end))
        } else if at_word(toks, p, e, "reads") {
            let q = begin(toks, p, e, "reads", self.reads.len() > 0)?;
            let (x, end) = read_checked_signals(toks, q, e, "reads")?;
            self.reads = x;
            Ok(Some(end))
        } else if at_word(toks, p, e, "writes") {
            let q = begin(toks, p, e, "writes", self.writes.len() > 0)?;
            let (x, end) = read_checked_signals(toks, q, e, "writes")?;
            self.writes = x;
            Ok(Some(end))
        } else if at_word(toks, p, e, "state") {
            let q = begin(toks, p, e, "state", self.state.is_some())?;
            let (x, end) = read_state(toks, q, e)?;
            self.state = Some(x);
            Ok(Some(end))
        } else if at_word(toks, p, e, "slot_timeout") {
            let q = begin(toks, p, e, "slot_timeout", self.slot_timeout.is_some())?;
            let (x, end) = read_timeout(toks, q, e, "slot_timeout")?;
            self.slot_timeout = Some(Gated { cfg: cfg.dup(), value: x });
            Ok(Some(end))
        } else if at_word(toks, p, e, "ack_timeout") {
            let q = begin(toks, p, e, "ack_timeout", self.ack_timeout.is_some())?;
            let (x, end) = read_timeout(toks, q, e, "ack_timeout")?;
            self.ack_timeout = Some(Gated { cfg: cfg.dup(), value: x });
            Ok(Some(end))
        } else if at_word(toks, p, e, "discover") {
            if self.discover.is_some() {
                return Err(text("duplicate `discover` marker"));
            }
            if at_punct(toks, p + 1, e, ':') {
                return Err(text(DISCOVER_BARE));
            }
            self.discover = Some(Gated { cfg: cfg.dup(), value: () });
            Ok(Some(p + 1))
        } else if at_word(toks, p, e, "dataflow") {
            let q = begin(toks, p, e, "dataflow", self.dataflow.is_some())?;
            let (x, end) = parse_adopted_list(toks, q, e)?;
            self.dataflow = Some(x);
            Ok(Some(end))
        } else if at_word(toks, p, e, "cancel") {
            if self.cancel {
                return Err(text("duplicate `cancel` marker"));
            }
            self.cancel = true;
            Ok(Some(p + 1))
        } else {
            Ok(None)
        }
    }
}

pub const TASK_AND_SPAWN: &'static str = "`task:` and `spawn:` are mutually exclusive — `spawn:` names a hand-written `#[embassy_executor::task]` fn, `task:` generates one";

/// The task source that `spawn:` and `task:` make together; both is an error.
pub open spec fn source_of(spawn: Option<ExprTextV>, task: Option<ExprTextV>) -> Result<
    Option<TaskSourceV>,
    Fault,
> {
    match (spawn, task) {
        (Some(_), Some(_)) => Err(TASK_AND_SPAWN@),
        (Some(x), None) => Ok(Some(TaskSourceV::Spawn(x))),
        (None, Some(x)) => Ok(Some(TaskSourceV::Shell(x))),
        (None, None) => Ok(None),
    }
}

/// Resolves the optional `spawn:` and `task:` clauses into a task source.
pub fn task_source(spawn: Option<ExprText>, task: Option<ExprText>) -> (r: Result<
    Option<TaskSource>,
    String,
>)
    ensures
        verdict(r) == source_of(spawn.deep_view(), task.deep_view()),
{
    match (spawn, task) {
        (Some(_), Some(_)) => Err(text(TASK_AND_SPAWN)),
        (Some(x), None) => Ok(Some(TaskSource::Spawn(x))),
        (None, Some(x)) => Ok(Some(TaskSource::Shell(x))),
        (None, None) => Ok(None),
    }
}

} // verus!
