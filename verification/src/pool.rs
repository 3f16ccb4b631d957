//! Pool declarations: their clauses, and what a pool must satisfy as a whole.

use vstd::prelude::*;
use vstd::string::*;

use crate::ast::{Dep, DepV, PoolItem, PoolItemV, ResourceDecl, ResourceDeclV, TaskSource, TaskSourceV};
use crate::clauses::{
    clause_cfg, common_clause, dup_clause_text, no_clauses, once, parse_clause_cfg, source_of,
    task_source, ClauseHost, CommonClauses, CommonClausesV,
};
use crate::list::{put, Dup};
use crate::lists::{complaint, parse_mode_list, take_modes};
use crate::node::{
    deps_clause, given, given_list, lemma_common_clause, lemma_group_end, line_at, read_deps_clause,
};
use crate::parse::{
    at_punct, at_word, expected, expected_text, outcome, punct_at, read_expr, read_ident, read_punct,
    read_type, read_word, take_expr, take_ident, take_punct, take_type, take_word, verdict, word_at,
    Fault,
};
use crate::rust::{Attr, AttrV, ExprText, ExprTextV};
use crate::text::{cat5, join, joined, same, text};
use crate::token::{line_of, Delim, Tok, TokV};

verus! {

/// The clauses of a pool read so far.
#[derive(Debug)]
pub struct PoolClauses {
    /// Those that nodes have too.
    pub common: CommonClauses,
    /// The `deps:` list.
    pub deps: Option<Vec<Dep>>,
    /// The `policy:` expression.
    pub policy: Option<ExprText>,
    /// The explicit policy type, as tokens.
    pub policy_ty: Option<String>,
    /// The `min:` expression.
    pub min: Option<ExprText>,
    /// The `max:` expression.
    pub max: Option<ExprText>,
}

/// What a [`PoolClauses`] means.
pub struct PoolClausesV {
    pub common: CommonClausesV,
    pub deps: Option<Seq<DepV>>,
    pub policy: Option<ExprTextV>,
    pub policy_ty: Option<Seq<char>>,
    pub min: Option<ExprTextV>,
    pub max: Option<ExprTextV>,
}

impl DeepView for PoolClauses {
    type V = PoolClausesV;

    open spec fn deep_view(&self) -> PoolClausesV {
        PoolClausesV {
            common: self.common.deep_view(),
            deps: self.deps.deep_view(),
            policy: self.policy.deep_view(),
            policy_ty: self.policy_ty.deep_view(),
            min: self.min.deep_view(),
            max: self.max.deep_view(),
        }
    }
}

impl Dup for PoolClauses {
    fn dup(&self) -> (r: Self) {
        PoolClauses {
            common: self.common.dup(),
            deps: self.deps.dup(),
            policy: self.policy.dup(),
            policy_ty: self.policy_ty.dup(),
            min: self.min.dup(),
            max: self.max.dup(),
        }
    }
}


/// No clause.
pub open spec fn no_pool_clauses() -> PoolClausesV {
    PoolClausesV {
        common: no_clauses(),
        deps: None,
        policy: None,
        policy_ty: None,
        min: None,
        max: None,
    }
}

pub const POOL_CLAUSE_WANTED: &'static str = "expected `task:`, `spawn:`, `executor:`, `resources:`, `reads:`, `writes:`, `discover`, `dataflow:`, `state:`, `slot_timeout:`, `ack_timeout:`, `cancel`, `deps:`, `policy:`, `min:`, or `max:`";

pub const POOL_EXIT: &'static str = "`exit:` is not supported on `pool` — the K members share one shell, so per-member exit values need per-member storage; use per-node `exit:` declarations, or have the worker provide() into an app-declared slot itself";

/// Reads a policy: `Type = expr`, or an expression alone.
pub open spec fn take_policy(s: Seq<TokV>, p: int, e: int) -> Result<
    ((Option<Seq<char>>, ExprTextV), int),
    Fault,
> {
    match take_type(s, p, e) {
        Ok((ty, q)) => if punct_at(s, q, e, '=') {
            match take_expr(s, q + 1, e) {
                Err(m) => Err(m),
                Ok((x, r)) => Ok(((Some(ty), x), r)),
            }
        } else {
            bare_policy(s, p, e)
        },
        Err(_) => bare_policy(s, p, e),
    }
}

/// Reads a policy that is an expression alone.
pub open spec fn bare_policy(s: Seq<TokV>, p: int, e: int) -> Result<
    ((Option<Seq<char>>, ExprTextV), int),
    Fault,
> {
    match take_expr(s, p, e) {
        Err(m) => Err(m),
        Ok((x, r)) => Ok(((None, x), r)),
    }
}

fn read_policy(toks: &Vec<Tok>, p: usize, e: usize) -> (r: Result<
    ((Option<String>, ExprText), usize),
    String,
>)
    requires
        p <= e <= toks@.len(),
    ensures
        outcome(r) == take_policy(toks.deep_view(), p as int, e as int),
        r matches Ok((_, q)) ==> p <= q <= e,
{
    if let Ok((ty, q)) = read_type(toks, p, e) {
        if at_punct(toks, q, e, '=') {
            let (x, r) = read_expr(toks, q + 1, e)?;
            return Ok(((Some(ty), x), r));
        }
    }
    let (x, r) = read_expr(toks, p, e)?;
    Ok(((None, x), r))
}

/// Reads an expression clause, refused where it was given before.
pub open spec fn expr_clause(s: Seq<TokV>, p: int, e: int, name: Seq<char>, given: bool) -> Result<
    (ExprTextV, int),
    Fault,
> {
    once(s, p, e, name, given, take_expr(s, p + 2, e))
}

fn read_expr_clause(toks: &Vec<Tok>, p: usize, e: usize, name: &str, given: bool) -> (r: Result<
    (ExprText, usize),
    String,
>)
    requires
        p < e <= toks@.len(),
    ensures
        outcome(r) == expr_clause(toks.deep_view(), p as int, e as int, name@, given),
        r matches Ok((_, q)) ==> p < q <= e,
{
    let q = read_punct(toks, p + 1, e, ':')?;
    if given {
        return Err(dup_clause_text(name));
    }
    read_expr(toks, q, e)
}

/// Reads a clause that only pools have.
pub open spec fn pool_clause(a: PoolClausesV, s: Seq<TokV>, p: int, e: int) -> Result<
    (PoolClausesV, int),
    Fault,
> {
    if word_at(s, p, e, "deps"@) {
        match deps_clause(s, p, e, a.deps is Some) {
            Err(m) => Err(m),
            Ok((x, q)) => Ok((PoolClausesV { deps: Some(x), ..a }, q)),
        }
    } else if word_at(s, p, e, "policy"@) {
        match once(s, p, e, "policy"@, a.policy is Some, take_policy(s, p + 2, e)) {
            Err(m) => Err(m),
            Ok(((ty, x), q)) => Ok((PoolClausesV { policy: Some(x), policy_ty: ty, ..a }, q)),
        }
    } else if word_at(s, p, e, "min"@) {
        match expr_clause(s, p, e, "min"@, a.min is Some) {
            Err(m) => Err(m),
            Ok((x, q)) => Ok((PoolClausesV { min: Some(x), ..a }, q)),
        }
    } else if word_at(s, p, e, "max"@) {
        match expr_clause(s, p, e, "max"@, a.max is Some) {
            Err(m) => Err(m),
            Ok((x, q)) => Ok((PoolClausesV { max: Some(x), ..a }, q)),
        }
    } else if word_at(s, p, e, "exit"@) {
        Err(POOL_EXIT@)
    } else {
        Err(expected(p, e, POOL_CLAUSE_WANTED@))
    }
}

pub proof fn lemma_pool_clause(a: PoolClausesV, s: Seq<TokV>, p: int, e: int)
    requires
        p <= e,
    ensures
        pool_clause(a, s, p, e) matches Ok((_, q)) ==> p < q <= e,
{
    if p + 2 <= e {
        lemma_group_end(s, p + 2, e, Delim::Bracket);
    }
}

/// Reads the clauses of a pool, each behind a comma, beside those of `a`.
pub open spec fn pool_clauses(a: PoolClausesV, s: Seq<TokV>, p: int, e: int) -> Result<
    (PoolClausesV, int),
    Fault,
>
    decreases e - p,
{
    if !punct_at(s, p, e, ',') {
        Ok((a, p))
    } else {
        match clause_cfg(s, p + 1, e, ClauseHost::Pool) {
            Err(m) => Err(m),
            Ok((cfg, q)) => {
                proof {
                    if q <= e {
                        lemma_common_clause(a.common, s, q, e, cfg);
                        lemma_pool_clause(a, s, q, e);
                    }
                }
                match common_clause(a.common, s, q, e, cfg) {
                    Err(m) => Err(m),
                    Ok(Some((c, r))) => pool_clauses(PoolClausesV { common: c, ..a }, s, r, e),
                    Ok(None) => match pool_clause(a, s, q, e) {
                        Err(m) => Err(m),
                        Ok((b, r)) => pool_clauses(b, s, r, e),
                    },
                }
            },
        }
    }
}

impl PoolClauses {
    fn read_own(&mut self, toks: &Vec<Tok>, p: usize, e: usize) -> (r: Result<usize, String>)
        requires
            p <= e <= toks@.len(),
        ensures
            match r {
                Ok(q) => pool_clause(old(self).deep_view(), toks.deep_view(), p as int, e as int)
                    == Ok::<(PoolClausesV, int), Fault>((final(self).deep_view(), q as int)) && p < q
                    <= e,
                Err(m) => pool_clause(old(self).deep_view(), toks.deep_view(), p as int, e as int)
                    == Err::<(PoolClausesV, int), Fault>(m@),
            },
    {
        if at_word(toks, p, e, "deps") {
            let (x, q) = read_deps_clause(toks, p, e, self.deps.is_some())?;
            self.deps = Some(x);
            Ok(q)
        } else if at_word(toks, p, e, "policy") {
            let c = read_punct(toks, p + 1, e, ':')?;
            if self.policy.is_some() {
                return Err(dup_clause_text("policy"));
            }
            let ((ty, x), q) = read_policy(toks, c, e)?;
            self.policy = Some(x);
            self.policy_ty = ty;
            Ok(q)
        } else if at_word(toks, p, e, "min") {
            let (x, q) = read_expr_clause(toks, p, e, "min", self.min.is_some())?;
            self.min = Some(x);
            Ok(q)
        } else if at_word(toks, p, e, "max") {
            let (x, q) = read_expr_clause(toks, p, e, "max", self.max.is_some())?;
            self.max = Some(x);
            Ok(q)
        } else if at_word(toks, p, e, "exit") {
            Err(text(POOL_EXIT))
        } else {
            Err(expected_text(p, e, POOL_CLAUSE_WANTED))
        }
    }
}

fn read_pool_clauses(toks: &Vec<Tok>, p: usize, e: usize) -> (r: Result<(PoolClauses, usize), String>)
    requires
        p <= e <= toks@.len(),
    ensures
        outcome(r) == pool_clauses(no_pool_clauses(), toks.deep_view(), p as int, e as int),
        r matches Ok((_, q)) ==> p <= q <= e,
{
    let ghost s = toks.deep_view();
    let mut a = PoolClauses {
        common: CommonClauses::empty(),
        deps: None,
        policy: None,
        policy_ty: None,
        min: None,
        max: None,
    };
    let mut i: usize = p;
    while at_punct(toks, i, e, ',')
        invariant
            p <= i <= e <= toks@.len(),
            s == toks.deep_view(),
            pool_clauses(no_pool_clauses(), s, p as int, e as int) == pool_clauses(
                a.deep_view(),
                s,
                i as int,
                e as int,
            ),
        decreases e - i,
    {
        let (cfg, q) = parse_clause_cfg(toks, i + 1, e, ClauseHost::Pool)?;
        match a.common.parse_one(toks, q, e, &cfg)? {
            Some(r) => {
                i = r;
            },
            None => {
                i = a.read_own(toks, q, e)?;
            },
        }
    }
    Ok((a, i))
}

pub const POOL_LOCAL: &'static str = "`local` is not supported on take-kind `pool` resources (the single-core slot contract + per-member restore is deferred); a `shared local` entry works (one pool-wide fan-out slot), or declare the take-kind `local` resource on a node";

/// A resource that is `local` and not `shared`.
pub open spec fn takes_local(d: Seq<ResourceDeclV>) -> bool {
    exists|i: int| 0 <= i < d.len() && (#[trigger] d[i]).local && !d[i].shared
}

fn has_taken_local(list: &Vec<ResourceDecl>) -> (r: bool)
    ensures
        r == takes_local(list.deep_view()),
{
    let ghost d = list.deep_view();
    let mut i: usize = 0;
    while i < list.len()
        invariant
            i <= list@.len(),
            d == list.deep_view(),
            forall|k: int| 0 <= k < i ==> !(#[trigger] d[k]).local || d[k].shared,
        decreases list@.len() - i,
    {
        if list[i].local && !list[i].shared {
            assert(d[i as int].local);
            return true;
        }
        i = i + 1;
    }
    false
}

/// `part` alone where it is missing, nothing where it is there.
pub open spec fn lacking(missing: bool, part: Seq<char>) -> Seq<Seq<char>> {
    if missing {
        seq![part]
    } else {
        Seq::empty()
    }
}

/// The clauses that a pool needs and does not have.
pub open spec fn absent(k: PoolClausesV, source: Option<TaskSourceV>) -> Seq<Seq<char>> {
    lacking(source is None, "`task:` or `spawn:`"@) + lacking(k.policy is None, "`policy:`"@) + lacking(
        k.min is None,
        "`min:`"@,
    ) + lacking(k.max is None, "`max:`"@)
}

fn note_absent(out: &mut Vec<String>, missing: bool, part: &str)
    ensures
        final(out).deep_view() == old(out).deep_view() + lacking(missing, part@),
{
    if missing {
        let ghost before = out.deep_view();
        put(out, text(part));
        assert(before + seq![part@] == before.push(part@));
    } else {
        assert(out.deep_view() + Seq::<Seq<char>>::empty() == out.deep_view());
    }
}

pub const POOL_NEEDS: &'static str = " — an elastic pool needs its dependencies, a member task, a scaling policy, and the floor/ceiling the policy scales between";

pub const POOL_CANCEL_TASK: &'static str = "`cancel` requires `task:` — it wraps the generated shell's call to the member worker; a `spawn:` member fn can call `node.run_cancellable(..)` itself";

pub const POOL_CANCEL_PAUSE: &'static str = "`cancel` cannot be combined with a `Pause` member — a Pause worker must survive the stop and park on `wait_resume()`, but `cancel` drops its future and records an exit; use `Terminate` (or `OnDemand`) members, or drive the pause by hand in the worker";

/// What is wrong with the clauses of a pool taken together.
pub open spec fn pool_fault(
    k: PoolClausesV,
    ident: Seq<char>,
    modes: Seq<Seq<char>>,
    source: Option<TaskSourceV>,
) -> Option<Fault> {
    if takes_local(given(k.common.resources)) {
        Some(POOL_LOCAL@)
    } else if absent(k, source).len() > 0 {
        Some("`pool "@ + ident + "` is missing "@ + joined(absent(k, source), ", "@) + POOL_NEEDS@)
    } else if k.common.cancel && source matches Some(TaskSourceV::Spawn(_)) {
        Some(POOL_CANCEL_TASK@)
    } else if k.common.cancel && modes.contains("Pause"@) {
        Some(POOL_CANCEL_PAUSE@)
    } else {
        None
    }
}

/// Whether a list of names holds `name`.
pub fn holds(list: &Vec<String>, name: &str) -> (r: bool)
    ensures
        r == list.deep_view().contains(name@),
{
    let ghost d = list.deep_view();
    let mut i: usize = 0;
    while i < list.len()
        invariant
            i <= list@.len(),
            d == list.deep_view(),
            forall|k: int| 0 <= k < i ==> #[trigger] d[k] != name@,
        decreases list@.len() - i,
    {
        if same(list[i].as_str(), name) {
            assert(d[i as int] == name@);
            return true;
        }
        i = i + 1;
    }
    false
}

fn check_pool(
    k: &PoolClauses,
    resources: &Vec<ResourceDecl>,
    ident: &str,
    modes: &Vec<String>,
    source: &Option<TaskSource>,
) -> (r: Result<(), String>)
    requires
        resources.deep_view() == given(k.deep_view().common.resources),
    ensures
        complaint(r) == pool_fault(k.deep_view(), ident@, modes.deep_view(), source.deep_view()),
{
    if has_taken_local(resources) {
        return Err(text(POOL_LOCAL));
    }
    let mut missing: Vec<String> = Vec::new();
    assert(missing.deep_view() == Seq::<Seq<char>>::empty());
    note_absent(&mut missing, source.is_none(), "`task:` or `spawn:`");
    note_absent(&mut missing, k.policy.is_none(), "`policy:`");
    note_absent(&mut missing, k.min.is_none(), "`min:`");
    note_absent(&mut missing, k.max.is_none(), "`max:`");
    assert(missing.deep_view() == absent(k.deep_view(), source.deep_view()));
    if missing.len() > 0 {
        let parts = join(&missing, ", ");
        return Err(cat5("`pool ", ident, "` is missing ", parts.as_str(), POOL_NEEDS));
    }
    if k.common.cancel {
        if let Some(TaskSource::Spawn(_)) = source {
            return Err(text(POOL_CANCEL_TASK));
        }
        if holds(modes, "Pause") {
            return Err(text(POOL_CANCEL_PAUSE));
        }
    }
    Ok(())
}

/// The pool that its clauses make, or what is wrong with them.
pub open spec fn pool_of(
    k: PoolClausesV,
    cfg: Seq<AttrV>,
    ident: Seq<char>,
    line: usize,
    modes: Seq<Seq<char>>,
) -> Result<PoolItemV, Fault> {
    match source_of(k.common.spawn, k.common.task) {
        Err(m) => Err(m),
        Ok(source) => match pool_fault(k, ident, modes, source) {
            Some(m) => Err(m),
            None => Ok(
                PoolItemV {
                    cfg,
                    ident,
                    line,
                    modes,
                    deps: given(k.deps),
                    source: source->0,
                    policy: k.policy->0,
                    policy_ty: k.policy_ty,
                    executor: k.common.executor,
                    executor_defaulted: false,
                    resources: given(k.common.resources),
                    slot_timeout: k.common.slot_timeout,
                    ack_timeout: k.common.ack_timeout,
                    reads: k.common.reads,
                    writes: k.common.writes,
                    min: k.min->0,
                    max: k.max->0,
                    state: k.common.state,
                    cancel: k.common.cancel,
                    discover: k.common.discover,
                    dataflow: given(k.common.dataflow),
                    fragment: None,
                },
            ),
        },
    }
}

fn finish_pool(k: PoolClauses, cfg: Vec<Attr>, ident: String, line: usize, modes: Vec<String>) -> (r:
    Result<PoolItem, String>)
    ensures
        verdict(r) == pool_of(k.deep_view(), cfg.deep_view(), ident@, line, modes.deep_view()),
{
    let source = task_source(k.common.spawn.dup(), k.common.task.dup())?;
    let resources = given_list(k.common.resources.dup());
    check_pool(&k, &resources, ident.as_str(), &modes, &source)?;
    match (source, k.policy, k.min, k.max) {
        (Some(source), Some(policy), Some(min), Some(max)) => Ok(
            PoolItem {
                cfg,
                ident,
                line,
                modes,
                deps: given_list(k.deps),
                source,
                policy,
                policy_ty: k.policy_ty,
                executor: k.common.executor,
                executor_defaulted: false,
                resources,
                slot_timeout: k.common.slot_timeout,
                ack_timeout: k.common.ack_timeout,
                reads: k.common.reads,
                writes: k.common.writes,
                min,
                max,
                state: k.common.state,
                cancel: k.common.cancel,
                discover: k.common.discover,
                dataflow: given_list(k.common.dataflow),
                fragment: None,
            },
        ),
        _ => {
            assert(false);
            Err(text(""))
        },
    }
}

/// Reads a pool declaration.
pub open spec fn take_pool(
    s: Seq<TokV>,
    p: int,
    e: int,
    cfg: Seq<AttrV>,
) -> Result<(PoolItemV, int), Fault> {
    match take_word(s, p, e, "pool"@) {
        Err(m) => Err(m),
        Ok(a) => match take_ident(s, a, e) {
            Err(m) => Err(m),
            Ok((ident, b)) => match take_punct(s, b, e, '=') {
                Err(m) => Err(m),
                Ok(c) => match take_modes(s, c, e) {
                    Err(m) => Err(m),
                    Ok((modes, d)) => match pool_clauses(no_pool_clauses(), s, d, e) {
                        Err(m) => Err(m),
                        Ok((k, f)) => match take_punct(s, f, e, ';') {
                            Err(m) => Err(m),
                            Ok(q) => match pool_of(k, cfg, ident, line_of(s[a]), modes) {
                                Err(m) => Err(m),
                                Ok(n) => Ok((n, q)),
                            },
                        },
                    },
                },
            },
        },
    }
}

/// Parses a `pool NAME = [Mode, ..], ..;` declaration that stands behind the attributes `cfg`.
pub fn parse_pool(toks: &Vec<Tok>, p: usize, e: usize, cfg: Vec<Attr>) -> (r: Result<
    (PoolItem, usize),
    String,
>)
    requires
        p <= e <= toks@.len(),
    ensures
        outcome(r) == take_pool(toks.deep_view(), p as int, e as int, cfg.deep_view()),
        r matches Ok((_, q)) ==> p < q <= e,
{
    let a = read_word(toks, p, e, "pool")?;
    let (ident, b) = read_ident(toks, a, e)?;
    let line = line_at(toks, a);
    let c = read_punct(toks, b, e, '=')?;
    let (modes, d) = parse_mode_list(toks, c, e)?;
    let (k, f) = read_pool_clauses(toks, d, e)?;
    let q = read_punct(toks, f, e, ';')?;
    let n = finish_pool(k, cfg, ident, line, modes)?;
    Ok((n, q))
}

} // verus!
