//! What every graph that parses keeps.

use vstd::prelude::*;

use crate::ast::{
    path_string, reads_of, signal_name, writes_of, DepV, ItemV, NodeItemV, PoolItemV,
    ResourceDeclV, SignalDeclV, TaskSourceV,
};
use crate::clauses::{clause_cfg, common_clause, take_checked_signals, ClauseHost, CommonClausesV};
use crate::graph::{
    any_loose, default_executor, graph_of, graph_step, graph_steps, lemma_graph_step, loose_in,
    no_graph, take_name, with_default, GraphStateV,
};
use crate::lists::{
    checked_signals_are_distinct, dep_entries, lemma_take_dep, lemma_take_resource,
    lemma_take_signal, resource_entries, signal_entries, take_dep, take_deps, take_modes,
    take_resource, take_signal,
};
use crate::local::local_fault;
use crate::node::{
    lemma_common_clause, lemma_node_clause, no_node_clauses, node_clause, node_clauses, node_fault,
    observed_beat, slot_before, slot_twice, take_node, unmarked, NodeClausesV,
};
use crate::parse::{punct_at, take_attrs, take_group, take_ident, take_punct, take_word};
use crate::pool::{
    lemma_pool_clause, no_pool_clauses, pool_clause, pool_clauses, take_pool, takes_local,
    PoolClausesV,
};
use crate::rust::AttrV;
use crate::token::{Delim, TokV};

verus! {

/// No dependency is `bound` that is not `ready`.
pub open spec fn sound_deps(d: Seq<DepV>) -> bool {
    forall|i: int| 0 <= i < d.len() && (#[trigger] d[i]).bound ==> d[i].ready
}

/// No entry beats or names an accessor that is not `observed`.
pub open spec fn sound_marks(d: Seq<SignalDeclV>) -> bool {
    forall|i: int|
        0 <= i < d.len() && ((#[trigger] d[i]).beat || d[i].via is Some) ==> d[i].observed
}

/// No signal is named twice, and no array both whole and by element.
pub open spec fn distinct_signals(d: Seq<SignalDeclV>) -> bool {
    forall|i: int, j: int|
        #![trigger d[i], d[j]]
        0 <= i < j < d.len() ==> signal_name(d[i]) != signal_name(d[j]) && (path_string(d[i].path)
            == path_string(d[j].path) ==> (d[i].index is Some) == (d[j].index is Some))
}

/// The signal lists that the grammar admits.
pub open spec fn sound_signals(d: Seq<SignalDeclV>) -> bool {
    sound_marks(d) && distinct_signals(d)
}

/// No resource is both consumed and shared, and only a divisible one goes without a type.
pub open spec fn sound_resources(d: Seq<ResourceDeclV>) -> bool {
    forall|i: int|
        0 <= i < d.len() ==> !((#[trigger] d[i]).consume && d[i].shared) && (d[i].ty is None
            ==> d[i].divisible)
}

/// What a node keeps.
pub open spec fn sound_node(n: NodeItemV) -> bool {
    &&& sound_deps(n.deps)
    &&& sound_signals(n.reads)
    &&& sound_signals(n.writes)
    &&& sound_resources(n.resources)
    &&& forall|i: int| 0 <= i < n.reads.len() ==> !(#[trigger] n.reads[i]).beat
    &&& forall|i: int, j: int|
        #![trigger n.resources[i], n.resources[j]]
        0 <= i < j < n.resources.len() ==> n.resources[i].ident != n.resources[j].ident
    &&& (n.beat_timeout matches Some(g) ==> (g.value.value matches Some(t) && t > 0))
    &&& (n.beat_window matches Some(g) ==> n.beat_timeout is Some && (g.value.value matches Some(w)
        && 1 <= w <= 255))
    &&& n.ready_on_write is Some ==> n.beat_timeout is Some && observed_beat(n.writes)
    &&& (n.pool_size matches Some(l) ==> (l.value matches Some(k) && 1 <= k <= usize::MAX))
    &&& n.discover is Some ==> n.source is Some && !unmarked(n.reads) && !unmarked(n.writes)
    &&& (n.resources.len() > 0 || n.state is Some || n.exit is Some || n.cancel || n.pool_size
        is Some ==> (n.source matches Some(TaskSourceV::Shell(_))))
    &&& n.cancel ==> n.mode != "Pause"@
}

/// What a pool keeps.
pub open spec fn sound_pool(p: PoolItemV) -> bool {
    &&& sound_deps(p.deps)
    &&& sound_signals(p.reads)
    &&& sound_signals(p.writes)
    &&& sound_resources(p.resources)
    &&& !takes_local(p.resources)
    &&& p.cancel ==> p.source is Shell && !p.modes.contains("Pause"@)
}

/// What an item keeps.
pub open spec fn sound_item(item: ItemV) -> bool {
    match item {
        ItemV::Node(n) => sound_node(n),
        ItemV::Pool(p) => sound_pool(p),
        ItemV::Executor(_) => true,
    }
}

pub open spec fn sound_items(items: Seq<ItemV>) -> bool {
    forall|i: int| 0 <= i < items.len() ==> sound_item(#[trigger] items[i])
}

proof fn lemma_dep_entries_sound(s: Seq<TokV>, p: int, e: int, acc: Seq<DepV>)
    requires
        sound_deps(acc),
    ensures
        dep_entries(s, p, e, acc) matches Ok(d) ==> sound_deps(d),
    decreases e - p,
{
    if p < e {
        if let Ok((d, q)) = take_dep(s, p, e) {
            lemma_take_dep(s, p, e);
            lemma_dep_entries_sound(s, q, e, acc.push(d));
        }
    }
}

proof fn lemma_resource_entries_sound(s: Seq<TokV>, p: int, e: int, acc: Seq<ResourceDeclV>)
    requires
        sound_resources(acc),
    ensures
        resource_entries(s, p, e, acc) matches Ok(d) ==> sound_resources(d),
    decreases e - p,
{
    if p < e {
        if let Ok((d, q)) = take_resource(s, p, e) {
            lemma_take_resource(s, p, e);
            lemma_resource_entries_sound(s, q, e, acc.push(d));
        }
    }
}

proof fn lemma_signal_entries_sound(s: Seq<TokV>, p: int, e: int, acc: Seq<SignalDeclV>)
    requires
        sound_marks(acc),
    ensures
        signal_entries(s, p, e, acc) matches Ok(d) ==> sound_marks(d),
    decreases e - p,
{
    if p < e {
        if let Ok((d, q)) = take_signal(s, p, e) {
            lemma_take_signal(s, p, e);
            assert((d.beat || d.via is Some) ==> d.observed);
            assert(sound_marks(acc.push(d)));
            if q < e {
                if let Ok(r) = take_punct(s, q, e, ',') {
                    lemma_signal_entries_sound(s, r, e, acc.push(d));
                }
            }
        }
    }
}

/// What the common clauses read so far keep.
spec fn sound_common(c: CommonClausesV) -> bool {
    &&& sound_signals(c.reads)
    &&& sound_signals(c.writes)
    &&& (c.resources matches Some(d) ==> sound_resources(d))
}

proof fn lemma_checked_sound(s: Seq<TokV>, p: int, e: int, clause: Seq<char>)
    ensures
        take_checked_signals(s, p, e, clause) matches Ok((d, _)) ==> sound_signals(d),
{
    if let Ok((d, q)) = take_checked_signals(s, p, e, clause) {
        if let Ok((c, r)) = take_group(s, p, e, Delim::Bracket) {
            lemma_signal_entries_sound(s, p + 1, c, Seq::empty());
        }
        assert forall|i: int, j: int| #![trigger d[i], d[j]] 0 <= i < j < d.len() implies signal_name(d[i])
            != signal_name(d[j]) && (path_string(d[i].path) == path_string(d[j].path) ==> (d[i].index
            is Some) == (d[j].index is Some)) by {
            checked_signals_are_distinct(clause, d, i, j);
        }
    }
}

proof fn lemma_common_sound(c: CommonClausesV, s: Seq<TokV>, p: int, e: int, cfg: Seq<AttrV>)
    requires
        sound_common(c),
    ensures
        common_clause(c, s, p, e, cfg) matches Ok(Some((d, _))) ==> sound_common(d),
{
    lemma_checked_sound(s, p + 2, e, "reads"@);
    lemma_checked_sound(s, p + 2, e, "writes"@);
    if let Ok((k, q)) = take_group(s, p + 2, e, Delim::Bracket) {
        lemma_resource_entries_sound(s, p + 3, k, Seq::empty());
    }
}

proof fn lemma_deps_sound(s: Seq<TokV>, p: int, e: int)
    ensures
        take_deps(s, p, e) matches Ok((d, _)) ==> sound_deps(d),
{
    if let Ok((c, q)) = take_group(s, p, e, Delim::Bracket) {
        lemma_dep_entries_sound(s, p + 1, c, Seq::empty());
    }
}

/// What the clauses of a node read so far keep.
spec fn sound_node_clauses(a: NodeClausesV) -> bool {
    sound_common(a.common) && (a.deps matches Some(d) ==> sound_deps(d))
}

proof fn lemma_node_clauses_sound(a: NodeClausesV, s: Seq<TokV>, p: int, e: int)
    requires
        sound_node_clauses(a),
    ensures
        node_clauses(a, s, p, e) matches Ok((b, _)) ==> sound_node_clauses(b),
    decreases e - p,
{
    if punct_at(s, p, e, ',') {
        if let Ok((cfg, q)) = clause_cfg(s, p + 1, e, ClauseHost::Node) {
            if q <= e {
                lemma_common_clause(a.common, s, q, e, cfg);
                lemma_node_clause(a, s, q, e, cfg);
            }
            lemma_common_sound(a.common, s, q, e, cfg);
            match common_clause(a.common, s, q, e, cfg) {
                Err(_) => {},
                Ok(Some((c, r))) => {
                    lemma_node_clauses_sound(NodeClausesV { common: c, ..a }, s, r, e);
                },
                Ok(None) => {
                    lemma_deps_sound(s, q + 2, e);
                    if let Ok((b, r)) = node_clause(a, s, q, e, cfg) {
                        lemma_node_clauses_sound(b, s, r, e);
                    }
                },
            }
        }
    }
}

proof fn lemma_slots_distinct(d: Seq<ResourceDeclV>, from: int, i: int)
    requires
        0 <= from <= i < d.len(),
        slot_twice(d, from) is None,
    ensures
        !slot_before(d, i),
    decreases i - from,
{
    if from < i {
        lemma_slots_distinct(d, from + 1, i);
    }
}

proof fn lemma_node_sound(s: Seq<TokV>, p: int, e: int, cfg: Seq<AttrV>)
    ensures
        take_node(s, p, e, cfg) matches Ok((n, _)) ==> sound_node(n),
{
    if let Ok((n, _)) = take_node(s, p, e, cfg) {
        let a = take_word(s, p, e, "node"@)->Ok_0;
        let b = take_ident(s, a, e)->Ok_0.1;
        let c = take_punct(s, b, e, '=')->Ok_0;
        let (mode, d) = take_ident(s, c, e)->Ok_0;
        lemma_node_clauses_sound(no_node_clauses(), s, d, e);
        let k = node_clauses(no_node_clauses(), s, d, e)->Ok_0.0;
        assert(node_fault(k, mode) is None);
        assert forall|i: int, j: int|
            #![trigger n.resources[i], n.resources[j]]
            0 <= i < j < n.resources.len() implies n.resources[i].ident != n.resources[j].ident by {
            lemma_slots_distinct(n.resources, 0, j);
        }
    }
}

/// What the clauses of a pool read so far keep.
spec fn sound_pool_clauses(a: PoolClausesV) -> bool {
    sound_common(a.common) && (a.deps matches Some(d) ==> sound_deps(d))
}

proof fn lemma_pool_clauses_sound(a: PoolClausesV, s: Seq<TokV>, p: int, e: int)
    requires
        sound_pool_clauses(a),
    ensures
        pool_clauses(a, s, p, e) matches Ok((b, _)) ==> sound_pool_clauses(b),
    decreases e - p,
{
    if punct_at(s, p, e, ',') {
        if let Ok((cfg, q)) = clause_cfg(s, p + 1, e, ClauseHost::Pool) {
            if q <= e {
                lemma_common_clause(a.common, s, q, e, cfg);
                lemma_pool_clause(a, s, q, e);
            }
            lemma_common_sound(a.common, s, q, e, cfg);
            match common_clause(a.common, s, q, e, cfg) {
                Err(_) => {},
                Ok(Some((c, r))) => {
                    lemma_pool_clauses_sound(PoolClausesV { common: c, ..a }, s, r, e);
                },
                Ok(None) => {
                    lemma_deps_sound(s, q + 2, e);
                    if let Ok((b, r)) = pool_clause(a, s, q, e) {
                        lemma_pool_clauses_sound(b, s, r, e);
                    }
                },
            }
        }
    }
}

proof fn lemma_pool_sound(s: Seq<TokV>, p: int, e: int, cfg: Seq<AttrV>)
    ensures
        take_pool(s, p, e, cfg) matches Ok((n, _)) ==> sound_pool(n),
{
    if let Ok((n, _)) = take_pool(s, p, e, cfg) {
        let a = take_word(s, p, e, "pool"@)->Ok_0;
        let b = take_ident(s, a, e)->Ok_0.1;
        let c = take_punct(s, b, e, '=')->Ok_0;
        let d = take_modes(s, c, e)->Ok_0.1;
        lemma_pool_clauses_sound(no_pool_clauses(), s, d, e);
    }
}

proof fn lemma_steps_sound(g: GraphStateV, s: Seq<TokV>, p: int, e: int)
    requires
        sound_items(g.items),
    ensures
        graph_steps(g, s, p, e) matches Ok(h) ==> sound_items(h.items),
    decreases e - p,
{
    if p < e {
        if let Ok((h, q)) = graph_step(g, s, p, e) {
            lemma_graph_step(g, s, p, e);
            if let Ok((cfg, a)) = take_attrs(s, p, e) {
                lemma_node_sound(s, a, e, cfg);
                lemma_pool_sound(s, a, e, cfg);
            }
            assert(sound_items(h.items));
            lemma_steps_sound(h, s, q, e);
        }
    }
}

/// Every item of a graph that parses is sound: its dependencies, signals and resources are
/// well-marked and distinct, and its clauses agree with one another. Nothing is wrong with the local
/// slots that the items share, and no index has tokens behind it.
pub proof fn a_parsed_graph_is_sound(s: Seq<TokV>)
    ensures
        graph_of(s) matches Ok(g) ==> sound_items(g.items) && local_fault(g.items, 0) is None
            && !any_loose(g.items),
{
    if let Ok(g) = graph_of(s) {
        let p = take_name(s, 0, s.len() as int)->Ok_0.1;
        lemma_steps_sound(no_graph(), s, p, s.len() as int);
        let h = graph_steps(no_graph(), s, p, s.len() as int)->Ok_0;
        assert forall|i: int| 0 <= i < g.items.len() implies sound_item(#[trigger] g.items[i]) by {
            assert(sound_item(h.items[i]));
        }
        assert forall|i: int| 0 <= i < g.items.len() implies !loose_in(
            reads_of(#[trigger] g.items[i]),
        ) && !loose_in(writes_of(g.items[i])) by {
            assert(reads_of(h.items[i]) == reads_of(g.items[i]));
            assert(writes_of(h.items[i]) == writes_of(g.items[i]));
        }
    }
}

/// Behind a `default executor`, every node and every pool of a parsed graph names an executor.
pub proof fn a_default_executor_reaches_every_item(items: Seq<ItemV>, i: int)
    requires
        default_executor(items, 0) is Some,
        0 <= i < items.len(),
    ensures
        with_default(items).len() == items.len(),
        match with_default(items)[i] {
            ItemV::Node(n) => n.executor is Some,
            ItemV::Pool(p) => p.executor is Some,
            ItemV::Executor(_) => with_default(items)[i] == items[i],
        },
{
}

} // verus!
