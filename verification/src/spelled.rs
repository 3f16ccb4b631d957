//! What a parsed declaration holds, and where in its text that stands: every clause is read into
//! its own field, and every field was read behind its own word.

use vstd::prelude::*;

use crate::ast::{
    AdoptedFnV, DepV, GraphSpecV, ItemV, NodeItemV, PoolItemV, ResourceDeclV, SignalDeclV,
    StateDeclV, TaskSourceV,
};
use crate::clauses::{clause_cfg, common_clause, take_state, ClauseHost, CommonClausesV};
use crate::graph::{
    default_executor, defaulted, graph_of, graph_step, graph_steps, lemma_graph_step, no_graph,
    take_item, take_name, GraphStateV,
};
use crate::lists::{
    dep_marks, kind_marker, no_kinds, take_adopted, take_dep, take_deps, take_kinds, take_resource,
    take_resources, take_signal, take_signals, with_kind, Kinds,
};
use crate::node::{
    given, lemma_common_clause, lemma_node_clause, no_node_clauses, node_clause, node_clauses,
    take_node, NodeClausesV,
};
use crate::parse::{
    ident_at, name_of, punct_at, take_attrs, take_expr, take_ident, take_int, take_type, word_at,
    Fault,
};
use crate::pool::{
    lemma_pool_clause, no_pool_clauses, pool_clause, pool_clauses, take_policy, take_pool,
    PoolClausesV,
};
use crate::rust::{AttrV, ExprTextV, IntLitV};
use crate::token::TokV;

verus! {

/// The clause `word:` stands at `q`.
pub open spec fn clause_at(s: Seq<TokV>, q: int, e: int, word: Seq<char>) -> bool {
    word_at(s, q, e, word) && punct_at(s, q + 1, e, ':')
}

/// What was read is `x`.
pub open spec fn gave<T>(r: Result<(T, int), Fault>, x: T) -> bool {
    r matches Ok((y, _)) && y == x
}

/// An expression that stands behind `word:`, from `p` on.
pub open spec fn expr_behind(s: Seq<TokV>, p: int, e: int, word: Seq<char>, x: ExprTextV) -> bool {
    exists|q: int| p <= q && #[trigger] clause_at(s, q, e, word) && gave(take_expr(s, q + 2, e), x)
}

/// A name that stands behind `word:`.
pub open spec fn name_behind(s: Seq<TokV>, p: int, e: int, word: Seq<char>, x: Seq<char>) -> bool {
    exists|q: int|
        p <= q && #[trigger] clause_at(s, q, e, word) && ident_at(s, q + 2, e) && name_of(s[q + 2])
            == x
}

/// A list of signals that stands behind `word:`.
pub open spec fn signals_behind(
    s: Seq<TokV>,
    p: int,
    e: int,
    word: Seq<char>,
    x: Seq<SignalDeclV>,
) -> bool {
    exists|q: int|
        p <= q && #[trigger] clause_at(s, q, e, word) && gave(take_signals(s, q + 2, e), x)
}

/// A list of resources that stands behind `resources:`.
pub open spec fn resources_behind(s: Seq<TokV>, p: int, e: int, x: Seq<ResourceDeclV>) -> bool {
    exists|q: int|
        p <= q && #[trigger] clause_at(s, q, e, "resources"@) && gave(take_resources(s, q + 2, e), x)
}

/// A state that stands behind `state:`.
pub open spec fn state_behind(s: Seq<TokV>, p: int, e: int, x: StateDeclV) -> bool {
    exists|q: int|
        p <= q && #[trigger] clause_at(s, q, e, "state"@) && gave(take_state(s, q + 2, e), x)
}

/// A number that stands behind `word:`.
pub open spec fn int_behind(s: Seq<TokV>, p: int, e: int, word: Seq<char>, x: IntLitV) -> bool {
    exists|q: int| p <= q && #[trigger] clause_at(s, q, e, word) && gave(take_int(s, q + 2, e), x)
}

/// A list of functions that stands behind `dataflow:`.
pub open spec fn adopted_behind(s: Seq<TokV>, p: int, e: int, x: Seq<AdoptedFnV>) -> bool {
    exists|q: int|
        p <= q && #[trigger] clause_at(s, q, e, "dataflow"@) && gave(take_adopted(s, q + 2, e), x)
}

/// A list of deps that stands behind `deps:`.
pub open spec fn deps_behind(s: Seq<TokV>, p: int, e: int, x: Seq<DepV>) -> bool {
    exists|q: int|
        p <= q && #[trigger] clause_at(s, q, e, "deps"@) && gave(take_deps(s, q + 2, e), x)
}

/// A type that stands behind `word:`.
pub open spec fn type_behind(s: Seq<TokV>, p: int, e: int, word: Seq<char>, x: Seq<char>) -> bool {
    exists|q: int| p <= q && #[trigger] clause_at(s, q, e, word) && gave(take_type(s, q + 2, e), x)
}

/// The word stands somewhere from `p` on.
pub open spec fn word_from(s: Seq<TokV>, p: int, e: int, word: Seq<char>) -> bool {
    exists|q: int| p <= q && #[trigger] word_at(s, q, e, word)
}

spec fn common_founded(c: CommonClausesV, s: Seq<TokV>, p: int, e: int) -> bool {
    &&& c.spawn matches Some(x) ==> expr_behind(s, p, e, "spawn"@, x)
    &&& c.task matches Some(x) ==> expr_behind(s, p, e, "task"@, x)
    &&& c.executor matches Some(x) ==> name_behind(s, p, e, "executor"@, x)
    &&& c.resources matches Some(x) ==> resources_behind(s, p, e, x)
    &&& c.reads.len() > 0 ==> signals_behind(s, p, e, "reads"@, c.reads)
    &&& c.writes.len() > 0 ==> signals_behind(s, p, e, "writes"@, c.writes)
    &&& c.state matches Some(x) ==> state_behind(s, p, e, x)
    &&& c.slot_timeout matches Some(x) ==> int_behind(s, p, e, "slot_timeout"@, x.value)
    &&& c.ack_timeout matches Some(x) ==> int_behind(s, p, e, "ack_timeout"@, x.value)
    &&& c.cancel ==> word_from(s, p, e, "cancel"@)
    &&& c.discover is Some ==> word_from(s, p, e, "discover"@)
    &&& c.dataflow matches Some(x) ==> adopted_behind(s, p, e, x)
}

proof fn lemma_common_founded(
    c: CommonClausesV,
    s: Seq<TokV>,
    p: int,
    q: int,
    e: int,
    cfg: Seq<AttrV>,
)
    requires
        p <= q,
        common_founded(c, s, p, e),
    ensures
        common_clause(c, s, q, e, cfg) matches Ok(Some((d, _))) ==> common_founded(d, s, p, e),
{
    if let Ok(Some((d, _))) = common_clause(c, s, q, e, cfg) {
        if word_at(s, q, e, "spawn"@) {
            assert(clause_at(s, q, e, "spawn"@));
        } else if word_at(s, q, e, "task"@) {
            assert(clause_at(s, q, e, "task"@));
        } else if word_at(s, q, e, "executor"@) {
            assert(clause_at(s, q, e, "executor"@));
        } else if word_at(s, q, e, "resources"@) {
            assert(clause_at(s, q, e, "resources"@));
        } else if word_at(s, q, e, "reads"@) {
            assert(clause_at(s, q, e, "reads"@));
        } else if word_at(s, q, e, "writes"@) {
            assert(clause_at(s, q, e, "writes"@));
        } else if word_at(s, q, e, "state"@) {
            assert(clause_at(s, q, e, "state"@));
        } else if word_at(s, q, e, "slot_timeout"@) {
            assert(clause_at(s, q, e, "slot_timeout"@));
        } else if word_at(s, q, e, "ack_timeout"@) {
            assert(clause_at(s, q, e, "ack_timeout"@));
        } else if word_at(s, q, e, "discover"@) {
            assert(d.discover is Some);
        } else if word_at(s, q, e, "dataflow"@) {
            assert(clause_at(s, q, e, "dataflow"@));
        }
    }
}

spec fn node_founded(a: NodeClausesV, s: Seq<TokV>, p: int, e: int) -> bool {
    &&& common_founded(a.common, s, p, e)
    &&& a.deps matches Some(x) ==> deps_behind(s, p, e, x)
    &&& a.pool_size matches Some(x) ==> int_behind(s, p, e, "pool_size"@, x)
    &&& a.disabled is Some ==> word_from(s, p, e, "disabled"@)
    &&& a.ready_on_write is Some ==> word_from(s, p, e, "ready_on_write"@)
    &&& a.beat_timeout matches Some(x) ==> int_behind(s, p, e, "beat_timeout"@, x.value)
    &&& a.beat_window matches Some(x) ==> int_behind(s, p, e, "beat_window"@, x.value)
    &&& a.exit matches Some(x) ==> type_behind(s, p, e, "exit"@, x)
    &&& a.provides.len() > 0 ==> word_from(s, p, e, "provides"@)
}

proof fn lemma_node_founded_one(
    a: NodeClausesV,
    s: Seq<TokV>,
    p: int,
    q: int,
    e: int,
    cfg: Seq<AttrV>,
)
    requires
        p <= q,
        node_founded(a, s, p, e),
    ensures
        node_clause(a, s, q, e, cfg) matches Ok((b, _)) ==> node_founded(b, s, p, e),
{
    if let Ok((b, _)) = node_clause(a, s, q, e, cfg) {
        if word_at(s, q, e, "deps"@) {
            assert(clause_at(s, q, e, "deps"@));
        } else if word_at(s, q, e, "pool_size"@) {
            assert(clause_at(s, q, e, "pool_size"@));
        } else if word_at(s, q, e, "disabled"@) {
            assert(b.disabled is Some);
        } else if word_at(s, q, e, "ready_on_write"@) {
            assert(b.ready_on_write is Some);
        } else if word_at(s, q, e, "beat_timeout"@) {
            assert(clause_at(s, q, e, "beat_timeout"@));
        } else if word_at(s, q, e, "beat_window"@) {
            assert(clause_at(s, q, e, "beat_window"@));
        } else if word_at(s, q, e, "exit"@) {
            assert(clause_at(s, q, e, "exit"@));
        }
    }
}

proof fn lemma_cfg_on(s: Seq<TokV>, p: int, e: int, host: ClauseHost)
    requires
        p <= e,
    ensures
        clause_cfg(s, p, e, host) matches Ok((_, q)) ==> p <= q <= e,
{
}

proof fn lemma_node_founded(a: NodeClausesV, s: Seq<TokV>, p: int, q: int, e: int)
    requires
        p <= q <= e,
        node_founded(a, s, p, e),
    ensures
        node_clauses(a, s, q, e) matches Ok((b, _)) ==> node_founded(b, s, p, e),
    decreases e - q,
{
    if punct_at(s, q, e, ',') {
        if let Ok((cfg, r)) = clause_cfg(s, q + 1, e, ClauseHost::Node) {
            lemma_cfg_on(s, q + 1, e, ClauseHost::Node);
            lemma_common_clause(a.common, s, r, e, cfg);
            lemma_node_clause(a, s, r, e, cfg);
            lemma_common_founded(a.common, s, p, r, e, cfg);
            lemma_node_founded_one(a, s, p, r, e, cfg);
            match common_clause(a.common, s, r, e, cfg) {
                Ok(Some((c, t))) => {
                    lemma_node_founded(NodeClausesV { common: c, ..a }, s, p, t, e);
                },
                Ok(None) => {
                    if let Ok((b, t)) = node_clause(a, s, r, e, cfg) {
                        lemma_node_founded(b, s, p, t, e);
                    }
                },
                Err(_) => {},
            }
        }
    }
}

/// A parsed node has the name and the mode that its declaration begins with, and everything else
/// that it holds stands behind a word of its own: its writes behind `writes:`, its reads behind
/// `reads:`, and so on for each clause.
pub proof fn a_node_holds_what_its_clauses_say(
    s: Seq<TokV>,
    p: int,
    e: int,
    cfg: Seq<AttrV>,
    n: NodeItemV,
    end: int,
)
    requires
        0 <= p <= e <= s.len(),
        take_node(s, p, e, cfg) == Ok::<(NodeItemV, int), Fault>((n, end)),
    ensures
        word_at(s, p, e, "node"@),
        ident_at(s, p + 1, e) && n.ident == name_of(s[p + 1]),
        punct_at(s, p + 2, e, '='),
        ident_at(s, p + 3, e) && n.mode == name_of(s[p + 3]),
        n.cfg == cfg,
        n.line == crate::token::line_of(s[p + 1]),
        match n.source {
            Some(TaskSourceV::Spawn(x)) => expr_behind(s, p + 4, e, "spawn"@, x),
            Some(TaskSourceV::Shell(x)) => expr_behind(s, p + 4, e, "task"@, x),
            None => true,
        },
        n.executor matches Some(x) ==> name_behind(s, p + 4, e, "executor"@, x),
        !n.executor_defaulted,
        n.resources.len() > 0 ==> resources_behind(s, p + 4, e, n.resources),
        n.reads.len() > 0 ==> signals_behind(s, p + 4, e, "reads"@, n.reads),
        n.writes.len() > 0 ==> signals_behind(s, p + 4, e, "writes"@, n.writes),
        n.state matches Some(x) ==> state_behind(s, p + 4, e, x),
        n.slot_timeout matches Some(x) ==> int_behind(s, p + 4, e, "slot_timeout"@, x.value),
        n.ack_timeout matches Some(x) ==> int_behind(s, p + 4, e, "ack_timeout"@, x.value),
        n.cancel ==> word_from(s, p + 4, e, "cancel"@),
        n.discover is Some ==> word_from(s, p + 4, e, "discover"@),
        n.dataflow.len() > 0 ==> adopted_behind(s, p + 4, e, n.dataflow),
        n.deps.len() > 0 ==> deps_behind(s, p + 4, e, n.deps),
        n.pool_size matches Some(x) ==> int_behind(s, p + 4, e, "pool_size"@, x),
        n.disabled is Some ==> word_from(s, p + 4, e, "disabled"@),
        n.ready_on_write is Some ==> word_from(s, p + 4, e, "ready_on_write"@),
        n.beat_timeout matches Some(x) ==> int_behind(s, p + 4, e, "beat_timeout"@, x.value),
        n.beat_window matches Some(x) ==> int_behind(s, p + 4, e, "beat_window"@, x.value),
        n.exit matches Some(x) ==> type_behind(s, p + 4, e, "exit"@, x),
        n.provides.len() > 0 ==> word_from(s, p + 4, e, "provides"@),
        n.fragment is None,
{
    lemma_node_founded(no_node_clauses(), s, p + 4, p + 4, e);
}

spec fn pool_founded(a: PoolClausesV, s: Seq<TokV>, p: int, e: int) -> bool {
    &&& common_founded(a.common, s, p, e)
    &&& a.deps matches Some(x) ==> deps_behind(s, p, e, x)
    &&& a.policy matches Some(x) ==> policy_behind(s, p, e, a.policy_ty, x)
    &&& a.min matches Some(x) ==> expr_behind(s, p, e, "min"@, x)
    &&& a.max matches Some(x) ==> expr_behind(s, p, e, "max"@, x)
}

/// A policy that stands behind `policy:`, with its type where one is given.
pub open spec fn policy_behind(
    s: Seq<TokV>,
    p: int,
    e: int,
    ty: Option<Seq<char>>,
    x: ExprTextV,
) -> bool {
    exists|q: int|
        p <= q && #[trigger] clause_at(s, q, e, "policy"@) && gave(take_policy(s, q + 2, e), (ty, x))
}

proof fn lemma_pool_founded_one(a: PoolClausesV, s: Seq<TokV>, p: int, q: int, e: int)
    requires
        p <= q,
        pool_founded(a, s, p, e),
    ensures
        pool_clause(a, s, q, e) matches Ok((b, _)) ==> pool_founded(b, s, p, e),
{
    if let Ok((b, _)) = pool_clause(a, s, q, e) {
        if word_at(s, q, e, "deps"@) {
            assert(clause_at(s, q, e, "deps"@));
        } else if word_at(s, q, e, "policy"@) {
            assert(clause_at(s, q, e, "policy"@));
        } else if word_at(s, q, e, "min"@) {
            assert(clause_at(s, q, e, "min"@));
        } else if word_at(s, q, e, "max"@) {
            assert(clause_at(s, q, e, "max"@));
        }
    }
}

proof fn lemma_pool_founded(a: PoolClausesV, s: Seq<TokV>, p: int, q: int, e: int)
    requires
        p <= q <= e,
        pool_founded(a, s, p, e),
    ensures
        pool_clauses(a, s, q, e) matches Ok((b, _)) ==> pool_founded(b, s, p, e),
    decreases e - q,
{
    if punct_at(s, q, e, ',') {
        if let Ok((cfg, r)) = clause_cfg(s, q + 1, e, ClauseHost::Pool) {
            lemma_cfg_on(s, q + 1, e, ClauseHost::Pool);
            lemma_common_clause(a.common, s, r, e, cfg);
            lemma_pool_clause(a, s, r, e);
            lemma_common_founded(a.common, s, p, r, e, cfg);
            lemma_pool_founded_one(a, s, p, r, e);
            match common_clause(a.common, s, r, e, cfg) {
                Ok(Some((c, t))) => {
                    lemma_pool_founded(PoolClausesV { common: c, ..a }, s, p, t, e);
                },
                Ok(None) => {
                    if let Ok((b, t)) = pool_clause(a, s, r, e) {
                        lemma_pool_founded(b, s, p, t, e);
                    }
                },
                Err(_) => {},
            }
        }
    }
}

/// A parsed pool has the name that its declaration begins with, and everything else that it holds
/// stands behind a word of its own.
pub proof fn a_pool_holds_what_its_clauses_say(
    s: Seq<TokV>,
    p: int,
    e: int,
    cfg: Seq<AttrV>,
    n: PoolItemV,
    end: int,
)
    requires
        0 <= p <= e <= s.len(),
        take_pool(s, p, e, cfg) == Ok::<(PoolItemV, int), Fault>((n, end)),
    ensures
        word_at(s, p, e, "pool"@),
        ident_at(s, p + 1, e) && n.ident == name_of(s[p + 1]),
        punct_at(s, p + 2, e, '='),
        gave(crate::lists::take_modes(s, p + 3, e), n.modes),
        n.cfg == cfg,
        n.line == crate::token::line_of(s[p + 1]),
        match n.source {
            TaskSourceV::Spawn(x) => expr_behind(s, p + 3, e, "spawn"@, x),
            TaskSourceV::Shell(x) => expr_behind(s, p + 3, e, "task"@, x),
        },
        policy_behind(s, p + 3, e, n.policy_ty, n.policy),
        expr_behind(s, p + 3, e, "min"@, n.min),
        expr_behind(s, p + 3, e, "max"@, n.max),
        n.executor matches Some(x) ==> name_behind(s, p + 3, e, "executor"@, x),
        !n.executor_defaulted,
        n.resources.len() > 0 ==> resources_behind(s, p + 3, e, n.resources),
        n.reads.len() > 0 ==> signals_behind(s, p + 3, e, "reads"@, n.reads),
        n.writes.len() > 0 ==> signals_behind(s, p + 3, e, "writes"@, n.writes),
        n.state matches Some(x) ==> state_behind(s, p + 3, e, x),
        n.slot_timeout matches Some(x) ==> int_behind(s, p + 3, e, "slot_timeout"@, x.value),
        n.ack_timeout matches Some(x) ==> int_behind(s, p + 3, e, "ack_timeout"@, x.value),
        n.cancel ==> word_from(s, p + 3, e, "cancel"@),
        n.discover is Some ==> word_from(s, p + 3, e, "discover"@),
        n.dataflow.len() > 0 ==> adopted_behind(s, p + 3, e, n.dataflow),
        n.deps.len() > 0 ==> deps_behind(s, p + 3, e, n.deps),
        n.fragment is None,
{
    let (modes, d) = crate::lists::take_modes(s, p + 3, e)->Ok_0;
    crate::node::lemma_group_end(s, p + 3, e, crate::token::Delim::Bracket);
    let (k, f) = pool_clauses(no_pool_clauses(), s, d, e)->Ok_0;
    lemma_pool_founded(no_pool_clauses(), s, p + 3, d, e);
    assert(crate::pool::absent(
        k,
        crate::clauses::source_of(k.common.spawn, k.common.task)->Ok_0,
    ).len() == 0);
    assert(k.policy is Some && k.min is Some && k.max is Some);
}

proof fn lemma_words_differ()
    ensures
        ({
            let words = seq![
                "spawn"@,
                "task"@,
                "executor"@,
                "resources"@,
                "reads"@,
                "writes"@,
                "state"@,
                "slot_timeout"@,
                "ack_timeout"@,
                "discover"@,
                "dataflow"@,
                "cancel"@,
                "deps"@,
                "pool_size"@,
                "disabled"@,
                "ready_on_write"@,
                "beat_timeout"@,
                "beat_window"@,
                "exit"@,
                "provides"@,
                "policy"@,
                "min"@,
                "max"@,
            ];
            forall|i: int, j: int|
                0 <= i < j < words.len() ==> #[trigger] words[i] != #[trigger] words[j]
        }),
{
    reveal_strlit("spawn");
    reveal_strlit("task");
    reveal_strlit("executor");
    reveal_strlit("resources");
    reveal_strlit("reads");
    reveal_strlit("writes");
    reveal_strlit("state");
    reveal_strlit("slot_timeout");
    reveal_strlit("ack_timeout");
    reveal_strlit("discover");
    reveal_strlit("dataflow");
    reveal_strlit("cancel");
    reveal_strlit("deps");
    reveal_strlit("pool_size");
    reveal_strlit("disabled");
    reveal_strlit("ready_on_write");
    reveal_strlit("beat_timeout");
    reveal_strlit("beat_window");
    reveal_strlit("exit");
    reveal_strlit("provides");
    reveal_strlit("policy");
    reveal_strlit("min");
    reveal_strlit("max");
    assert("spawn"@.len() == 5 && "spawn"@[1] == 'p');
    assert("reads"@.len() == 5 && "reads"@[1] == 'e');
    assert("state"@.len() == 5 && "state"@[1] == 't');
    assert("task"@.len() == 4 && "task"@[0] == 't');
    assert("deps"@.len() == 4 && "deps"@[0] == 'd');
    assert("exit"@.len() == 4 && "exit"@[0] == 'e');
    assert("executor"@.len() == 8 && "executor"@[3] == 'c' && "executor"@[0] == 'e');
    assert("discover"@.len() == 8 && "discover"@[3] == 'c' && "discover"@[0] == 'd');
    assert("dataflow"@.len() == 8 && "dataflow"@[3] == 'a' && "dataflow"@[1] == 'a');
    assert("disabled"@.len() == 8 && "disabled"@[3] == 'a' && "disabled"@[1] == 'i');
    assert("provides"@.len() == 8 && "provides"@[3] == 'v');
    assert("resources"@.len() == 9 && "resources"@[0] == 'r');
    assert("pool_size"@.len() == 9 && "pool_size"@[0] == 'p');
    assert("writes"@.len() == 6 && "writes"@[0] == 'w');
    assert("cancel"@.len() == 6 && "cancel"@[0] == 'c');
    assert("policy"@.len() == 6 && "policy"@[0] == 'p');
    assert("slot_timeout"@.len() == 12 && "slot_timeout"@[0] == 's');
    assert("beat_timeout"@.len() == 12 && "beat_timeout"@[0] == 'b');
    assert("ack_timeout"@.len() == 11 && "ack_timeout"@[0] == 'a');
    assert("beat_window"@.len() == 11 && "beat_window"@[0] == 'b');
    assert("ready_on_write"@.len() == 14);
    assert("min"@.len() == 3 && "min"@[1] == 'i');
    assert("max"@.len() == 3 && "max"@[1] == 'a');
}

proof fn lemma_word_alone(s: Seq<TokV>, q: int, e: int, a: Seq<char>, b: Seq<char>)
    requires
        word_at(s, q, e, a),
        a != b,
    ensures
        !word_at(s, q, e, b),
{
}

/// A clause that nodes and pools share is read into the field of its name, and no other field
/// changes: each field is as before, or was read behind its own word at `q`.
pub proof fn a_shared_clause_sets_its_own_field(
    c: CommonClausesV,
    s: Seq<TokV>,
    q: int,
    e: int,
    cfg: Seq<AttrV>,
    d: CommonClausesV,
    end: int,
)
    requires
        common_clause(c, s, q, e, cfg) == Ok::<Option<(CommonClausesV, int)>, Fault>(
            Some((d, end)),
        ),
    ensures
        d.spawn != c.spawn ==> c.spawn is None && clause_at(s, q, e, "spawn"@) && gave(
            take_expr(s, q + 2, e),
            d.spawn->0,
        ),
        d.task != c.task ==> c.task is None && clause_at(s, q, e, "task"@) && gave(
            take_expr(s, q + 2, e),
            d.task->0,
        ),
        d.executor != c.executor ==> c.executor is None && clause_at(s, q, e, "executor"@) && gave(
            take_ident(s, q + 2, e),
            d.executor->0,
        ),
        d.resources != c.resources ==> c.resources is None && clause_at(s, q, e, "resources"@)
            && gave(take_resources(s, q + 2, e), d.resources->0),
        d.reads != c.reads ==> c.reads.len() == 0 && clause_at(s, q, e, "reads"@) && gave(
            take_signals(s, q + 2, e),
            d.reads,
        ),
        d.writes != c.writes ==> c.writes.len() == 0 && clause_at(s, q, e, "writes"@) && gave(
            take_signals(s, q + 2, e),
            d.writes,
        ),
        d.state != c.state ==> c.state is None && clause_at(s, q, e, "state"@),
        d.slot_timeout != c.slot_timeout ==> c.slot_timeout is None && clause_at(
            s,
            q,
            e,
            "slot_timeout"@,
        ) && d.slot_timeout->0.cfg == cfg,
        d.ack_timeout != c.ack_timeout ==> c.ack_timeout is None && clause_at(
            s,
            q,
            e,
            "ack_timeout"@,
        ) && d.ack_timeout->0.cfg == cfg,
        d.cancel != c.cancel ==> d.cancel && word_at(s, q, e, "cancel"@),
        d.discover != c.discover ==> c.discover is None && word_at(s, q, e, "discover"@)
            && d.discover->0.cfg == cfg,
        d.dataflow != c.dataflow ==> c.dataflow is None && clause_at(s, q, e, "dataflow"@) && gave(
            take_adopted(s, q + 2, e),
            d.dataflow->0,
        ),
        word_at(s, q, e, "spawn"@) ==> d.spawn is Some,
        word_at(s, q, e, "task"@) ==> d.task is Some,
        word_at(s, q, e, "executor"@) ==> d.executor is Some,
        word_at(s, q, e, "resources"@) ==> d.resources is Some,
        word_at(s, q, e, "reads"@) ==> gave(take_signals(s, q + 2, e), d.reads),
        word_at(s, q, e, "writes"@) ==> gave(take_signals(s, q + 2, e), d.writes),
        word_at(s, q, e, "state"@) ==> d.state is Some,
        word_at(s, q, e, "slot_timeout"@) ==> d.slot_timeout is Some,
        word_at(s, q, e, "ack_timeout"@) ==> d.ack_timeout is Some,
        word_at(s, q, e, "cancel"@) ==> d.cancel,
        word_at(s, q, e, "discover"@) ==> d.discover is Some,
        word_at(s, q, e, "dataflow"@) ==> d.dataflow is Some,
{
    lemma_words_differ();
    let words = seq![
        "spawn"@,
        "task"@,
        "executor"@,
        "resources"@,
        "reads"@,
        "writes"@,
        "state"@,
        "slot_timeout"@,
        "ack_timeout"@,
        "discover"@,
        "dataflow"@,
        "cancel"@,
        "deps"@,
        "pool_size"@,
        "disabled"@,
        "ready_on_write"@,
        "beat_timeout"@,
        "beat_window"@,
        "exit"@,
        "provides"@,
        "policy"@,
        "min"@,
        "max"@,
    ];
    assert forall|i: int, j: int|
        0 <= i < j < 12 && word_at(s, q, e, #[trigger] words[i]) implies !word_at(
        s,
        q,
        e,
        #[trigger] words[j],
    ) by {
        lemma_word_alone(s, q, e, words[i], words[j]);
    }
    assert(words[0] == "spawn"@ && words[1] == "task"@ && words[2] == "executor"@ && words[3]
        == "resources"@ && words[4] == "reads"@ && words[5] == "writes"@ && words[6] == "state"@
        && words[7] == "slot_timeout"@ && words[8] == "ack_timeout"@ && words[9] == "discover"@
        && words[10] == "dataflow"@ && words[11] == "cancel"@);
}

/// A clause that only nodes have is read into the field of its name, and no other field changes.
pub proof fn a_clause_of_a_node_sets_its_own_field(
    a: NodeClausesV,
    s: Seq<TokV>,
    q: int,
    e: int,
    cfg: Seq<AttrV>,
    b: NodeClausesV,
    end: int,
)
    requires
        node_clause(a, s, q, e, cfg) == Ok::<(NodeClausesV, int), Fault>((b, end)),
    ensures
        b.common == a.common,
        b.deps != a.deps ==> a.deps is None && clause_at(s, q, e, "deps"@) && gave(
            take_deps(s, q + 2, e),
            b.deps->0,
        ),
        b.pool_size != a.pool_size ==> clause_at(s, q, e, "pool_size"@) && gave(
            take_int(s, q + 2, e),
            b.pool_size->0,
        ),
        b.disabled != a.disabled ==> a.disabled is None && word_at(s, q, e, "disabled"@)
            && b.disabled->0.cfg == cfg,
        b.ready_on_write != a.ready_on_write ==> a.ready_on_write is None && word_at(
            s,
            q,
            e,
            "ready_on_write"@,
        ) && b.ready_on_write->0.cfg == cfg,
        b.beat_timeout != a.beat_timeout ==> a.beat_timeout is None && clause_at(
            s,
            q,
            e,
            "beat_timeout"@,
        ) && b.beat_timeout->0.cfg == cfg && gave(take_int(s, q + 2, e), b.beat_timeout->0.value),
        b.beat_window != a.beat_window ==> a.beat_window is None && clause_at(
            s,
            q,
            e,
            "beat_window"@,
        ) && b.beat_window->0.cfg == cfg && gave(take_int(s, q + 2, e), b.beat_window->0.value),
        b.exit != a.exit ==> clause_at(s, q, e, "exit"@) && gave(
            take_type(s, q + 2, e),
            b.exit->0,
        ),
        b.provides != a.provides ==> clause_at(s, q, e, "provides"@),
        word_at(s, q, e, "deps"@) ==> b.deps is Some,
        word_at(s, q, e, "pool_size"@) ==> b.pool_size is Some && gave(
            take_int(s, q + 2, e),
            b.pool_size->0,
        ),
        word_at(s, q, e, "disabled"@) ==> b.disabled is Some,
        word_at(s, q, e, "ready_on_write"@) ==> b.ready_on_write is Some,
        word_at(s, q, e, "beat_timeout"@) ==> b.beat_timeout is Some,
        word_at(s, q, e, "beat_window"@) ==> b.beat_window is Some,
        word_at(s, q, e, "exit"@) ==> b.exit is Some && gave(take_type(s, q + 2, e), b.exit->0),
        word_at(s, q, e, "provides"@) ==> b.provides.len() > 0,
{
    lemma_words_differ();
    let words = seq![
        "spawn"@,
        "task"@,
        "executor"@,
        "resources"@,
        "reads"@,
        "writes"@,
        "state"@,
        "slot_timeout"@,
        "ack_timeout"@,
        "discover"@,
        "dataflow"@,
        "cancel"@,
        "deps"@,
        "pool_size"@,
        "disabled"@,
        "ready_on_write"@,
        "beat_timeout"@,
        "beat_window"@,
        "exit"@,
        "provides"@,
        "policy"@,
        "min"@,
        "max"@,
    ];
    assert forall|i: int, j: int|
        12 <= i < j < 20 && word_at(s, q, e, #[trigger] words[i]) implies !word_at(
        s,
        q,
        e,
        #[trigger] words[j],
    ) by {
        lemma_word_alone(s, q, e, words[i], words[j]);
    }
    assert(words[12] == "deps"@ && words[13] == "pool_size"@ && words[14] == "disabled"@
        && words[15] == "ready_on_write"@ && words[16] == "beat_timeout"@ && words[17]
        == "beat_window"@ && words[18] == "exit"@ && words[19] == "provides"@);
}

/// A clause that only pools have is read into the field of its name, and no other field changes.
pub proof fn a_clause_of_a_pool_sets_its_own_field(
    a: PoolClausesV,
    s: Seq<TokV>,
    q: int,
    e: int,
    b: PoolClausesV,
    end: int,
)
    requires
        pool_clause(a, s, q, e) == Ok::<(PoolClausesV, int), Fault>((b, end)),
    ensures
        b.common == a.common,
        b.deps != a.deps ==> a.deps is None && clause_at(s, q, e, "deps"@) && gave(
            take_deps(s, q + 2, e),
            b.deps->0,
        ),
        b.policy != a.policy || b.policy_ty != a.policy_ty ==> a.policy is None && clause_at(
            s,
            q,
            e,
            "policy"@,
        ) && gave(take_policy(s, q + 2, e), (b.policy_ty, b.policy->0)),
        b.min != a.min ==> a.min is None && clause_at(s, q, e, "min"@) && gave(
            take_expr(s, q + 2, e),
            b.min->0,
        ),
        b.max != a.max ==> a.max is None && clause_at(s, q, e, "max"@) && gave(
            take_expr(s, q + 2, e),
            b.max->0,
        ),
        word_at(s, q, e, "deps"@) ==> b.deps is Some,
        word_at(s, q, e, "policy"@) ==> b.policy is Some,
        word_at(s, q, e, "min"@) ==> b.min is Some,
        word_at(s, q, e, "max"@) ==> b.max is Some,
{
    lemma_words_differ();
    let words = seq![
        "spawn"@,
        "task"@,
        "executor"@,
        "resources"@,
        "reads"@,
        "writes"@,
        "state"@,
        "slot_timeout"@,
        "ack_timeout"@,
        "discover"@,
        "dataflow"@,
        "cancel"@,
        "deps"@,
        "pool_size"@,
        "disabled"@,
        "ready_on_write"@,
        "beat_timeout"@,
        "beat_window"@,
        "exit"@,
        "provides"@,
        "policy"@,
        "min"@,
        "max"@,
    ];
    assert(words[12] == "deps"@ && words[20] == "policy"@ && words[21] == "min"@ && words[22]
        == "max"@);
}

/// The name at `q` is `word`.
pub open spec fn says(s: Seq<TokV>, q: int, e: int, word: Seq<char>) -> bool {
    ident_at(s, q, e) && name_of(s[q]) == word
}

/// A dep has the attributes and the name that its entry begins with, and a marker where that word
/// stands behind the name.
pub proof fn a_dep_holds_what_its_entry_says(s: Seq<TokV>, p: int, e: int, d: DepV, end: int)
    requires
        0 <= p <= e <= s.len(),
        take_dep(s, p, e) == Ok::<(DepV, int), Fault>((d, end)),
    ensures
        take_attrs(s, p, e) matches Ok((cfg, a)) && d.cfg == cfg && ident_at(s, a, e) && d.ident
            == name_of(s[a]) && (d.ready <==> (says(s, a + 1, e, "ready"@) || says(
            s,
            a + 2,
            e,
            "ready"@,
        ) && says(s, a + 1, e, "bound"@))) && (d.bound ==> d.ready) && (d.bound <==> (says(
            s,
            a + 1,
            e,
            "bound"@,
        ) || says(s, a + 2, e, "bound"@) && says(s, a + 1, e, "ready"@))),
{
    reveal_strlit("ready");
    reveal_strlit("bound");
    assert("ready"@[0] == 'r');
    assert("bound"@[0] == 'b');
    let (cfg, a) = take_attrs(s, p, e)->Ok_0;
    reveal_with_fuel(dep_marks, 4);
}

/// A signal entry has a marker where that word stands in it.
pub proof fn a_signal_holds_the_markers_of_its_entry(
    s: Seq<TokV>,
    p: int,
    e: int,
    x: SignalDeclV,
    end: int,
)
    requires
        0 <= p <= e <= s.len(),
        take_signal(s, p, e) == Ok::<(SignalDeclV, int), Fault>((x, end)),
    ensures
        ({
            let (cfg, a) = take_attrs(s, p, e)->Ok_0;
            let (path, b) = crate::parse::take_path(s, a, e)->Ok_0;
            let (index, c) = crate::lists::signal_index(s, b, e)->Ok_0;
            let m = if x.veto {
                c + 1
            } else {
                c
            };
            &&& x.cfg == cfg
            &&& x.path == path
            &&& x.index == index
            &&& x.veto <==> says(s, c, e, "veto"@)
            &&& x.observed <==> says(s, m, e, "observed"@)
            &&& x.beat <==> x.observed && says(s, m + 1, e, "beat"@)
            &&& x.via is Some ==> x.observed && (says(s, m + 1, e, "via"@) || says(
                s,
                m + 2,
                e,
                "via"@,
            ))
        }),
{
    reveal_strlit("observed");
    reveal_strlit("beat");
    assert("observed"@.len() == 8);
    assert("beat"@.len() == 4);
}

spec fn kind_said(s: Seq<TokV>, p: int, q: int, e: int, word: Seq<char>) -> bool {
    exists|i: int| p <= i < q && #[trigger] says(s, i, e, word)
}

spec fn kinds_said(k: Kinds, s: Seq<TokV>, p: int, q: int, e: int) -> bool {
    &&& k.local <==> kind_said(s, p, q, e, "local"@)
    &&& k.consume <==> kind_said(s, p, q, e, "consume"@)
    &&& k.shared <==> kind_said(s, p, q, e, "shared"@)
    &&& k.serialized <==> kind_said(s, p, q, e, "serialized"@)
    &&& k.divisible <==> kind_said(s, p, q, e, "divisible"@)
}

proof fn lemma_kind_on(s: Seq<TokV>, p: int, q: int, e: int, word: Seq<char>)
    requires
        p <= q,
    ensures
        kind_said(s, p, q + 1, e, word) <==> kind_said(s, p, q, e, word) || says(s, q, e, word),
{
    if kind_said(s, p, q, e, word) {
        let i = choose|i: int| p <= i < q && #[trigger] says(s, i, e, word);
        assert(says(s, i, e, word));
    }
}

proof fn lemma_kinds_said(s: Seq<TokV>, p: int, q: int, e: int, k: Kinds)
    requires
        p <= q <= e,
        kinds_said(k, s, p, q, e),
    ensures
        take_kinds(s, q, e, k) matches Ok((m, r)) ==> q <= r && kinds_said(m, s, p, r, e),
    decreases e - q,
{
    if let Some(word) = kind_marker(s, q, e) {
        if let Ok(k2) = with_kind(k, word) {
            reveal_strlit("local");
            reveal_strlit("consume");
            reveal_strlit("shared");
            reveal_strlit("serialized");
            reveal_strlit("divisible");
            assert("local"@.len() == 5);
            assert("consume"@.len() == 7);
            assert("shared"@.len() == 6);
            assert("serialized"@.len() == 10);
            assert("divisible"@.len() == 9);
            lemma_kind_on(s, p, q, e, "local"@);
            lemma_kind_on(s, p, q, e, "consume"@);
            lemma_kind_on(s, p, q, e, "shared"@);
            lemma_kind_on(s, p, q, e, "serialized"@);
            lemma_kind_on(s, p, q, e, "divisible"@);
            lemma_kinds_said(s, p, q + 1, e, k2);
        }
    }
}

/// A resource entry has the name that it begins with, and a marker exactly where that word stands
/// between the colon and the type.
pub proof fn a_resource_holds_what_its_entry_says(
    s: Seq<TokV>,
    p: int,
    e: int,
    x: ResourceDeclV,
    end: int,
) -> (at: (int, int))
    requires
        0 <= p <= e <= s.len(),
        take_resource(s, p, e) == Ok::<(ResourceDeclV, int), Fault>((x, end)),
    ensures
        take_attrs(s, p, e) == Ok::<(Seq<AttrV>, int), Fault>((x.cfg, at.0 - 2)),
        ident_at(s, at.0 - 2, e) && x.ident == name_of(s[at.0 - 2]),
        punct_at(s, at.0 - 1, e, ':'),
        at.0 <= at.1,
        x.local <==> exists|i: int| at.0 <= i < at.1 && #[trigger] says(s, i, e, "local"@),
        x.consume <==> exists|i: int| at.0 <= i < at.1 && #[trigger] says(s, i, e, "consume"@),
        x.shared <==> exists|i: int| at.0 <= i < at.1 && #[trigger] says(s, i, e, "shared"@),
        x.serialized <==> exists|i: int|
            at.0 <= i < at.1 && #[trigger] says(s, i, e, "serialized"@),
        x.divisible <==> exists|i: int| at.0 <= i < at.1 && #[trigger] says(s, i, e, "divisible"@),
        x.ty matches Some(t) ==> gave(take_type(s, at.1, e), t),
        x.ty is None ==> x.divisible,
{
    let (cfg, a) = take_attrs(s, p, e)->Ok_0;
    let c = a + 2;
    let (k, d) = take_kinds(s, c, e, no_kinds())->Ok_0;
    lemma_kinds_said(s, c, c, e, no_kinds());
    (c, d)
}

/// The entry stands at `q`, in brackets that close before `e`.
pub open spec fn dep_stands(x: DepV, s: Seq<TokV>, q: int, e: int) -> bool {
    exists|c: int| c <= e && gave(#[trigger] take_dep(s, q, c), x)
}

/// The entry stands at `q`, in brackets that close before `e`.
pub open spec fn signal_stands(x: SignalDeclV, s: Seq<TokV>, q: int, e: int) -> bool {
    exists|c: int| c <= e && gave(#[trigger] take_signal(s, q, c), x)
}

/// The entry stands at `q`, in brackets that close before `e`.
pub open spec fn resource_stands(x: ResourceDeclV, s: Seq<TokV>, q: int, e: int) -> bool {
    exists|c: int| c <= e && gave(#[trigger] take_resource(s, q, c), x)
}

/// The entries of a list stand one behind the other.
pub open spec fn in_order(at: Seq<int>) -> bool {
    forall|i: int, j: int| 0 <= i < j < at.len() ==> #[trigger] at[i] < #[trigger] at[j]
}

proof fn lemma_deps_in_order(s: Seq<TokV>, p: int, e: int, acc: Seq<DepV>, at: Seq<int>) -> (r: Seq<
    int,
>)
    requires
        0 <= p,
        at.len() == acc.len(),
        in_order(at),
        forall|i: int| 0 <= i < at.len() ==> #[trigger] at[i] < p,
        forall|i: int| 0 <= i < at.len() ==> gave(take_dep(s, #[trigger] at[i], e), acc[i]),
    ensures
        crate::lists::dep_entries(s, p, e, acc) matches Ok(d) ==> r.len() == d.len() && in_order(r)
            && (forall|i: int| 0 <= i < r.len() ==> gave(take_dep(s, #[trigger] r[i], e), d[i])),
    decreases e - p,
{
    if p >= e {
        at
    } else {
        match take_dep(s, p, e) {
            Err(_) => at,
            Ok((d, q)) => {
                crate::lists::lemma_take_dep(s, p, e);
                lemma_deps_in_order(s, q, e, acc.push(d), at.push(p))
            },
        }
    }
}

proof fn lemma_signals_in_order(
    s: Seq<TokV>,
    p: int,
    e: int,
    acc: Seq<SignalDeclV>,
    at: Seq<int>,
) -> (r: Seq<int>)
    requires
        0 <= p,
        at.len() == acc.len(),
        in_order(at),
        forall|i: int| 0 <= i < at.len() ==> #[trigger] at[i] < p,
        forall|i: int| 0 <= i < at.len() ==> gave(take_signal(s, #[trigger] at[i], e), acc[i]),
    ensures
        crate::lists::signal_entries(s, p, e, acc) matches Ok(d) ==> r.len() == d.len() && in_order(
            r,
        ) && (forall|i: int| 0 <= i < r.len() ==> gave(take_signal(s, #[trigger] r[i], e), d[i])),
    decreases e - p,
{
    if p >= e {
        at
    } else {
        match take_signal(s, p, e) {
            Err(_) => at,
            Ok((d, q)) => {
                crate::lists::lemma_take_signal(s, p, e);
                if q < e {
                    lemma_signals_in_order(s, q + 1, e, acc.push(d), at.push(p))
                } else {
                    at.push(p)
                }
            },
        }
    }
}

proof fn lemma_resources_in_order(
    s: Seq<TokV>,
    p: int,
    e: int,
    acc: Seq<ResourceDeclV>,
    at: Seq<int>,
) -> (r: Seq<int>)
    requires
        0 <= p,
        at.len() == acc.len(),
        in_order(at),
        forall|i: int| 0 <= i < at.len() ==> #[trigger] at[i] < p,
        forall|i: int| 0 <= i < at.len() ==> gave(take_resource(s, #[trigger] at[i], e), acc[i]),
    ensures
        crate::lists::resource_entries(s, p, e, acc) matches Ok(d) ==> r.len() == d.len()
            && in_order(r) && (forall|i: int|
            0 <= i < r.len() ==> gave(take_resource(s, #[trigger] r[i], e), d[i])),
    decreases e - p,
{
    if p >= e {
        at
    } else {
        match take_resource(s, p, e) {
            Err(_) => at,
            Ok((d, q)) => {
                crate::lists::lemma_take_resource(s, p, e);
                lemma_resources_in_order(s, q, e, acc.push(d), at.push(p))
            },
        }
    }
}

/// A list of deps has one entry for each that stands in its brackets, in that order.
pub proof fn a_list_of_deps_has_its_entries_in_order(s: Seq<TokV>, p: int, e: int) -> (at: Seq<int>)
    requires
        0 <= p,
        take_deps(s, p, e) is Ok,
    ensures
        at.len() == take_deps(s, p, e)->Ok_0.0.len(),
        in_order(at),
        forall|i: int|
            0 <= i < at.len() ==> dep_stands(take_deps(s, p, e)->Ok_0.0[i], s, #[trigger] at[i], e),
{
    let (c, q) = crate::parse::take_group(s, p, e, crate::token::Delim::Bracket)->Ok_0;
    crate::node::lemma_group_end(s, p, e, crate::token::Delim::Bracket);
    let d = take_deps(s, p, e)->Ok_0.0;
    let at = lemma_deps_in_order(s, p + 1, c, Seq::empty(), Seq::empty());
    assert forall|i: int| 0 <= i < at.len() implies dep_stands(d[i], s, #[trigger] at[i], e) by {
        assert(gave(take_dep(s, at[i], c), d[i]));
    }
    at
}

/// A list of signals has one entry for each that stands in its brackets, in that order.
pub proof fn a_list_of_signals_has_its_entries_in_order(s: Seq<TokV>, p: int, e: int) -> (at: Seq<
    int,
>)
    requires
        0 <= p,
        take_signals(s, p, e) is Ok,
    ensures
        at.len() == take_signals(s, p, e)->Ok_0.0.len(),
        in_order(at),
        forall|i: int|
            0 <= i < at.len() ==> signal_stands(take_signals(s, p, e)->Ok_0.0[i], s, #[trigger] at[i], e),
{
    let (c, q) = crate::parse::take_group(s, p, e, crate::token::Delim::Bracket)->Ok_0;
    crate::node::lemma_group_end(s, p, e, crate::token::Delim::Bracket);
    let d = take_signals(s, p, e)->Ok_0.0;
    let at = lemma_signals_in_order(s, p + 1, c, Seq::empty(), Seq::empty());
    assert forall|i: int| 0 <= i < at.len() implies signal_stands(d[i], s, #[trigger] at[i], e) by {
        assert(gave(take_signal(s, at[i], c), d[i]));
    }
    at
}

/// A list of resources has one entry for each that stands in its brackets, in that order.
pub proof fn a_list_of_resources_has_its_entries_in_order(s: Seq<TokV>, p: int, e: int) -> (at: Seq<
    int,
>)
    requires
        0 <= p,
        take_resources(s, p, e) is Ok,
    ensures
        at.len() == take_resources(s, p, e)->Ok_0.0.len(),
        in_order(at),
        forall|i: int|
            0 <= i < at.len() ==> resource_stands(take_resources(s, p, e)->Ok_0.0[i], s, #[trigger] at[i], e),
{
    let (c, q) = crate::parse::take_group(s, p, e, crate::token::Delim::Bracket)->Ok_0;
    crate::node::lemma_group_end(s, p, e, crate::token::Delim::Bracket);
    let d = take_resources(s, p, e)->Ok_0.0;
    let at = lemma_resources_in_order(s, p + 1, c, Seq::empty(), Seq::empty());
    assert forall|i: int| 0 <= i < at.len() implies resource_stands(d[i], s, #[trigger] at[i], e) by {
        assert(gave(take_resource(s, at[i], c), d[i]));
    }
    at
}

/// The fragment that the boundaries before `p` put an item in.
spec fn in_fragment(s: Seq<TokV>, p: int, fragment: Option<Seq<char>>) -> bool {
    fragment matches Some(name) ==> fragment_opened(s, p, name)
}

/// A boundary `@fragment NAME;` stands before `p`.
pub open spec fn fragment_opened(s: Seq<TokV>, p: int, name: Seq<char>) -> bool {
    exists|q: int|
        0 <= q < p && #[trigger] punct_at(s, q, p, '@') && word_at(s, q + 1, p, "fragment"@)
            && ident_at(s, q + 2, p) && name_of(s[q + 2]) == name
}

/// The item stands at `p`: a node behind `node`, a pool behind `pool`, an executor behind
/// `executor`, with the name that follows.
pub open spec fn item_stands(item: ItemV, s: Seq<TokV>, p: int) -> bool {
    let e = s.len() as int;
    match item {
        ItemV::Node(n) => {
            &&& word_at(s, p, e, "node"@)
            &&& exists|m: NodeItemV| #[trigger] gave(take_node(s, p, e, n.cfg), m) && same_node(n, m)
            &&& n.fragment matches Some(name) ==> fragment_opened(s, p, name)
        },
        ItemV::Pool(n) => {
            &&& word_at(s, p, e, "pool"@)
            &&& exists|m: PoolItemV| #[trigger] gave(take_pool(s, p, e, n.cfg), m) && same_pool(n, m)
            &&& n.fragment matches Some(name) ==> fragment_opened(s, p, name)
        },
        ItemV::Executor(x) => {
            let q = if x.default {
                p + 1
            } else {
                p
            };
            &&& x.default ==> word_at(s, p, e, "default"@)
            &&& word_at(s, q, e, "executor"@)
            &&& ident_at(s, q + 1, e)
            &&& x.ident == name_of(s[q + 1])
            &&& punct_at(s, q + 2, e, ';')
        },
    }
}

/// Two nodes differ at most in their fragment, and in an executor that one has by default.
pub open spec fn same_node(n: NodeItemV, m: NodeItemV) -> bool {
    &&& n == (NodeItemV {
        fragment: n.fragment,
        executor: n.executor,
        executor_defaulted: n.executor_defaulted,
        ..m
    })
    &&& m.executor is Some ==> n.executor == m.executor
    &&& n.executor_defaulted <==> n.executor is Some && m.executor is None
}

/// Two pools differ at most in their fragment, and in an executor that one has by default.
pub open spec fn same_pool(n: PoolItemV, m: PoolItemV) -> bool {
    &&& n == (PoolItemV {
        fragment: n.fragment,
        executor: n.executor,
        executor_defaulted: n.executor_defaulted,
        ..m
    })
    &&& m.executor is Some ==> n.executor == m.executor
    &&& n.executor_defaulted <==> n.executor is Some && m.executor is None
}

spec fn undefaulted(item: ItemV) -> bool {
    match item {
        ItemV::Node(n) => !n.executor_defaulted,
        ItemV::Pool(n) => !n.executor_defaulted,
        ItemV::Executor(_) => true,
    }
}

proof fn lemma_defaulted_stands(item: ItemV, s: Seq<TokV>, p: int, name: Seq<char>)
    requires
        item_stands(item, s, p),
        undefaulted(item),
    ensures
        item_stands(defaulted(item, name), s, p),
{
    let e = s.len() as int;
    match item {
        ItemV::Node(n) => {
            let m = choose|m: NodeItemV| #[trigger]
                gave(take_node(s, p, e, n.cfg), m) && same_node(n, m);
            assert(same_node(defaulted(item, name)->Node_0, m));
        },
        ItemV::Pool(n) => {
            let m = choose|m: PoolItemV| #[trigger]
                gave(take_pool(s, p, e, n.cfg), m) && same_pool(n, m);
            assert(same_pool(defaulted(item, name)->Pool_0, m));
        },
        ItemV::Executor(_) => {},
    }
}

proof fn lemma_attrs_on(s: Seq<TokV>, p: int, e: int)
    requires
        p <= e,
    ensures
        take_attrs(s, p, e) matches Ok((_, q)) ==> p <= q <= e,
{
}

proof fn lemma_fragment_on(s: Seq<TokV>, p: int, q: int, name: Seq<char>)
    requires
        fragment_opened(s, p, name),
        p <= q,
    ensures
        fragment_opened(s, q, name),
{
    let i = choose|i: int|
        0 <= i < p && #[trigger] punct_at(s, i, p, '@') && word_at(s, i + 1, p, "fragment"@)
            && ident_at(s, i + 2, p) && name_of(s[i + 2]) == name;
    assert(punct_at(s, i, q, '@'));
}

proof fn lemma_item_stands(
    s: Seq<TokV>,
    a: int,
    cfg: Seq<AttrV>,
    fragment: Option<Seq<char>>,
    item: ItemV,
    q: int,
)
    requires
        0 <= a <= s.len(),
        in_fragment(s, a, fragment),
        take_item(s, a, s.len() as int, cfg, fragment) == Ok::<(ItemV, int), Fault>((item, q)),
    ensures
        item_stands(item, s, a),
        undefaulted(item),
{
    let e = s.len() as int;
    if word_at(s, a, e, "node"@) {
        let (m, r) = take_node(s, a, e, cfg)->Ok_0;
        a_node_holds_what_its_clauses_say(s, a, e, cfg, m, r);
        assert(gave(take_node(s, a, e, cfg), m));
        assert(same_node(item->Node_0, m));
    } else if word_at(s, a, e, "pool"@) {
        let (m, r) = take_pool(s, a, e, cfg)->Ok_0;
        a_pool_holds_what_its_clauses_say(s, a, e, cfg, m, r);
        assert(gave(take_pool(s, a, e, cfg), m));
        assert(same_pool(item->Pool_0, m));
    }
}

spec fn standing(items: Seq<ItemV>, at: Seq<int>, s: Seq<TokV>) -> bool {
    &&& at.len() == items.len()
    &&& in_order(at)
    &&& forall|i: int| 0 <= i < at.len() ==> item_stands(items[i], s, #[trigger] at[i])
    &&& forall|i: int| 0 <= i < items.len() ==> undefaulted(#[trigger] items[i])
}

proof fn lemma_standing_on(items: Seq<ItemV>, at: Seq<int>, s: Seq<TokV>, item: ItemV, a: int)
    requires
        standing(items, at, s),
        forall|i: int| 0 <= i < at.len() ==> #[trigger] at[i] < a,
        item_stands(item, s, a),
        undefaulted(item),
    ensures
        standing(items.push(item), at.push(a), s),
{
    let more = items.push(item);
    let next = at.push(a);
    assert forall|i: int| 0 <= i < next.len() implies item_stands(more[i], s, #[trigger] next[i]) by {
        if i < at.len() {
            assert(next[i] == at[i] && more[i] == items[i]);
        }
    }
    assert forall|i: int| 0 <= i < more.len() implies undefaulted(#[trigger] more[i]) by {
        if i < items.len() {
            assert(more[i] == items[i]);
        }
    }
}

/// What one step reads: a boundary, a default accessor, or one item.
proof fn lemma_step_reads(g: GraphStateV, s: Seq<TokV>, p: int, h: GraphStateV, q: int) -> (a: int)
    requires
        0 <= p < s.len(),
        in_fragment(s, p, g.fragment),
        graph_step(g, s, p, s.len() as int) == Ok::<(GraphStateV, int), Fault>((h, q)),
    ensures
        in_fragment(s, q, h.fragment),
        p < q <= s.len(),
        p <= a < q,
        h.items == g.items || (h.items.len() > 0 && h.items == g.items.push(h.items.last())
            && item_stands(h.items.last(), s, a) && undefaulted(h.items.last())),
{
    let e = s.len() as int;
    lemma_graph_step(g, s, p, e);
    if g.fragment is Some {
        lemma_fragment_on(s, p, q, g.fragment->0);
    }
    if punct_at(s, p, e, '@') {
        if h.fragment is Some {
            assert(punct_at(s, p, q, '@'));
            assert(fragment_opened(s, q, h.fragment->0));
        }
        p
    } else if word_at(s, p, e, "observe"@) {
        p
    } else {
        let (cfg, a) = take_attrs(s, p, e)->Ok_0;
        lemma_attrs_on(s, p, e);
        let (item, _) = take_item(s, a, e, cfg, g.fragment)->Ok_0;
        if g.fragment is Some {
            lemma_fragment_on(s, p, a, g.fragment->0);
        }
        lemma_item_stands(s, a, cfg, g.fragment, item, q);
        crate::graph::lemma_take_item(s, a, e, cfg, g.fragment);
        assert(h.items.last() == item);
        a
    }
}

proof fn lemma_items_in_order(g: GraphStateV, s: Seq<TokV>, p: int, at: Seq<int>) -> (r: Seq<int>)
    requires
        0 <= p <= s.len(),
        standing(g.items, at, s),
        in_fragment(s, p, g.fragment),
        forall|i: int| 0 <= i < at.len() ==> #[trigger] at[i] < p,
    ensures
        graph_steps(g, s, p, s.len() as int) matches Ok(h) ==> standing(h.items, r, s),
    decreases s.len() - p,
{
    let e = s.len() as int;
    if p >= e {
        at
    } else {
        match graph_step(g, s, p, e) {
            Err(_) => at,
            Ok((h, q)) => {
                let a = lemma_step_reads(g, s, p, h, q);
                if h.items == g.items {
                    lemma_items_in_order(h, s, q, at)
                } else {
                    lemma_standing_on(g.items, at, s, h.items.last(), a);
                    lemma_items_in_order(h, s, q, at.push(a))
                }
            },
        }
    }
}

/// The executor that items have by default is one that is declared so.
proof fn lemma_default_executor(items: Seq<ItemV>, i: int)
    requires
        0 <= i,
    ensures
        default_executor(items, i) matches Some(name) ==> exists|k: int|
            0 <= k < items.len() && (#[trigger] items[k] matches ItemV::Executor(x) && x.default
                && x.ident == name),
    decreases items.len() - i,
{
    if i < items.len() {
        lemma_default_executor(items, i + 1);
    }
}

/// A parsed graph has one item for each that its body declares, in that order, and nothing but what
/// stands there: an item's fragment is one that a boundary before it opens, and an executor that it
/// does not name itself is one declared `default`.
pub proof fn a_graph_holds_its_items_in_order(s: Seq<TokV>, g: GraphSpecV) -> (at: Seq<int>)
    requires
        graph_of(s) == Ok::<GraphSpecV, Fault>(g),
    ensures
        at.len() == g.items.len(),
        in_order(at),
        forall|i: int| 0 <= i < at.len() ==> item_stands(g.items[i], s, #[trigger] at[i]),
        forall|i: int|
            0 <= i < g.items.len() ==> match #[trigger] g.items[i] {
                ItemV::Node(n) => n.executor_defaulted ==> defaults_to(g.items, n.executor->0),
                ItemV::Pool(n) => n.executor_defaulted ==> defaults_to(g.items, n.executor->0),
                ItemV::Executor(_) => true,
            },
        g.name matches Some(x) ==> clause_at(s, 0, s.len() as int, "name"@) && name_of(s[2]) == x,
{
    let p = take_name(s, 0, s.len() as int)->Ok_0.1;
    let h = graph_steps(no_graph(), s, p, s.len() as int)->Ok_0;
    let at = lemma_items_in_order(no_graph(), s, p, Seq::empty());
    lemma_default_executor(h.items, 0);
    if default_executor(h.items, 0) is Some {
        let name = default_executor(h.items, 0)->0;
        let k = choose|k: int|
            0 <= k < h.items.len() && (#[trigger] h.items[k] matches ItemV::Executor(x) && x.default
                && x.ident == name);
        assert(g.items[k] == h.items[k]);
        assert(defaults_to(g.items, name));
    }
    assert forall|i: int| 0 <= i < at.len() implies item_stands(g.items[i], s, #[trigger] at[i]) by {
        assert(item_stands(h.items[i], s, at[i]) && undefaulted(h.items[i]));
        if default_executor(h.items, 0) is Some {
            lemma_defaulted_stands(h.items[i], s, at[i], default_executor(h.items, 0)->0);
        }
    }
    assert forall|i: int| 0 <= i < g.items.len() implies match #[trigger] g.items[i] {
        ItemV::Node(n) => n.executor_defaulted ==> defaults_to(g.items, n.executor->0),
        ItemV::Pool(n) => n.executor_defaulted ==> defaults_to(g.items, n.executor->0),
        ItemV::Executor(_) => true,
    } by {
        assert(g.items.len() == h.items.len());
        assert(undefaulted(h.items[i]));
    }
    at
}

/// An executor of this name is declared `default`.
pub open spec fn defaults_to(items: Seq<ItemV>, name: Seq<char>) -> bool {
    exists|k: int|
        0 <= k < items.len() && (#[trigger] items[k] matches ItemV::Executor(x) && x.default
            && x.ident == name)
}

} // verus!
