//! Which declarations a file has, and which nodes and pools are admitted.

use vstd::prelude::*;

use crate::ast::{resources_of, ItemV, ResourceDeclV, SignalDeclV, TaskSourceV};
use crate::clauses::cfg_text;
use crate::find::{
    compose_clause, decl_of, decls_from, decls_of_tokens, invoked, relayed, ComposeV, DeclKind,
    DeclV, ErrorV,
};
use crate::local::{declares_slot, local_fault, slots_fault, strays, takes_slot};
use crate::node::{given, node_fault, slot_before, slot_twice, NodeClausesV};
use crate::parse::Fault;
use crate::pool::{absent, pool_fault, PoolClausesV};
use crate::render::executor_of;
use crate::spelled::in_order;
use crate::token::{close_of, is_punct, line_of, past_group, TokV};

verus! {

/// The name of the macro of each kind.
pub open spec fn macro_word(kind: DeclKind) -> Seq<char> {
    match kind {
        DeclKind::Graph => "supervisor_graph"@,
        DeclKind::Fragment => "supervisor_fragment"@,
        DeclKind::Compose => "compose_graph"@,
    }
}

/// A declaration of this kind stands at `p`: the macro's name, a `!` and a group that no other
/// macro forwards.
pub open spec fn macro_at(s: Seq<TokV>, p: int, kind: DeclKind) -> bool {
    &&& 0 <= p
    &&& p + 2 < s.len()
    &&& s[p] is Ident && s[p]->Ident_name == macro_word(kind)
    &&& is_punct(s[p + 1], '!')
    &&& s[p + 2] is Open
    &&& !relayed(s, p + 3, close_of(s, p + 2, s.len() as int))
}

/// The declaration is the one that stands at `p` of the file.
pub open spec fn decl_stands(d: DeclV, s: Seq<TokV>, file: Seq<char>, p: int) -> bool {
    &&& macro_at(s, p, d.kind)
    &&& d.origin == file
    &&& d.line == line_of(s[p])
    &&& d.body == s.subrange(p + 3, close_of(s, p + 2, s.len() as int))
    &&& d.fragment_origins.len() == 0
}

proof fn lemma_invoked(s: Seq<TokV>, p: int, kind: DeclKind)
    requires
        0 <= p,
    ensures
        invoked(s, p) == Some(kind) <==> macro_at(s, p, kind),
{
    reveal_strlit("supervisor_graph");
    reveal_strlit("supervisor_fragment");
    reveal_strlit("compose_graph");
    assert("supervisor_graph"@.len() == 16);
    assert("supervisor_fragment"@.len() == 19);
    assert("compose_graph"@.len() == 13);
}

/// A macro at `j` stands in the text from `i` on, outside the group of another.
pub open spec fn macro_in_reach(s: Seq<TokV>, i: int, j: int) -> bool
    decreases s.len() - i,
{
    if i < 0 || i >= s.len() {
        false
    } else if macro_at(s, i, DeclKind::Graph) || macro_at(s, i, DeclKind::Fragment) || macro_at(
        s,
        i,
        DeclKind::Compose,
    ) {
        proof {
            crate::lists::lemma_close_from(s, i + 3, s.len() as int, 0);
        }
        j == i || macro_in_reach(s, past_group(s, i + 2, s.len() as int), j)
    } else {
        macro_in_reach(s, i + 1, j)
    }
}

spec fn standing(ds: Seq<DeclV>, at: Seq<int>, s: Seq<TokV>, file: Seq<char>) -> bool {
    &&& at.len() == ds.len()
    &&& in_order(at)
    &&& forall|k: int| 0 <= k < at.len() ==> decl_stands(ds[k], s, file, #[trigger] at[k])
}

proof fn lemma_found(
    s: Seq<TokV>,
    file: Seq<char>,
    i: int,
    acc: Seq<DeclV>,
    at: Seq<int>,
    j: int,
) -> (r: Seq<int>)
    requires
        0 <= i,
        standing(acc, at, s, file),
        forall|k: int| 0 <= k < at.len() ==> #[trigger] at[k] < i,
    ensures
        decls_from(s, file, i, acc) matches Ok(ds) ==> standing(ds, r, s, file) && at.is_prefix_of(r)
            && (macro_in_reach(s, i, j) ==> r.contains(j)),
    decreases s.len() - i,
{
    if i >= s.len() {
        assert(at.subrange(0, at.len() as int) == at);
        at
    } else {
        lemma_invoked(s, i, DeclKind::Graph);
        lemma_invoked(s, i, DeclKind::Fragment);
        lemma_invoked(s, i, DeclKind::Compose);
        match invoked(s, i) {
            None => lemma_found(s, file, i + 1, acc, at, j),
            Some(kind) => {
                let e = s.len() as int;
                crate::lists::lemma_close_from(s, i + 3, e, 0);
                match decl_of(kind, s.subrange(i + 3, close_of(s, i + 2, e)), file, line_of(s[i])) {
                    Err(_) => at,
                    Ok(d) => {
                        let more = acc.push(d);
                        let next = at.push(i);
                        assert(macro_at(s, i, kind));
                        assert(decl_stands(d, s, file, i));
                        assert forall|k: int| 0 <= k < next.len() implies decl_stands(
                            more[k],
                            s,
                            file,
                            #[trigger] next[k],
                        ) by {
                            if k < at.len() {
                                assert(next[k] == at[k] && more[k] == acc[k]);
                            }
                        }
                        let r = lemma_found(s, file, past_group(s, i + 2, e), more, next, j);
                        if decls_from(s, file, i, acc) is Ok {
                            assert(r.subrange(0, next.len() as int)[at.len() as int] == i);
                            assert(r[at.len() as int] == i);
                            assert(r.subrange(0, next.len() as int).subrange(0, at.len() as int)
                                == r.subrange(0, at.len() as int));
                            assert(next.subrange(0, at.len() as int) == at);
                        }
                        r
                    },
                }
            },
        }
    }
}

/// The declarations of a file are the declaration macros that stand in it, in order: each has the
/// kind of its macro, the file and the line that it stands at, and the tokens between its brackets;
/// and none is left out.
pub proof fn the_declarations_of_a_file_are_its_macros(
    s: Seq<TokV>,
    file: Seq<char>,
    ds: Seq<DeclV>,
    j: int,
) -> (at: Seq<int>)
    requires
        decls_of_tokens(s, file) == Ok::<Seq<DeclV>, ErrorV>(ds),
    ensures
        at.len() == ds.len(),
        in_order(at),
        forall|k: int| 0 <= k < at.len() ==> decl_stands(ds[k], s, file, #[trigger] at[k]),
        macro_in_reach(s, 0, j) ==> at.contains(j),
{
    lemma_found(s, file, 0, Seq::empty(), Seq::empty(), j)
}

/// A clause of a composition is read into the field of its name, and no other changes.
pub proof fn a_clause_of_a_composition_sets_its_own_field(
    k: ComposeV,
    s: Seq<TokV>,
    a: int,
    b: int,
    h: ComposeV,
)
    requires
        a < b,
        compose_clause(k, s, a, b) == Ok::<ComposeV, Fault>(h),
    ensures
        h.name != k.name ==> s[a] is Ident && s[a]->Ident_name == "name"@,
        h.fragments != k.fragments ==> s[a] is Ident && s[a]->Ident_name == "fragments"@,
        h.items != k.items ==> s[a] is Ident && s[a]->Ident_name == "graph"@,
        s[a] is Ident && s[a]->Ident_name == "graph"@ ==> exists|v: int|
            a < v && #[trigger] (s[v]) is Open && h.items == s.subrange(v + 1, close_of(s, v, b)),
{
    reveal_strlit("name");
    reveal_strlit("fragments");
    reveal_strlit("graph");
    assert("name"@.len() == 4);
    assert("fragments"@.len() == 9);
    assert("graph"@.len() == 5);
    if s[a] is Ident && s[a]->Ident_name == "graph"@ {
        let v = crate::find::value_start(s, a, b);
        crate::lists::lemma_close_from(s, a + 2, b, 0);
        assert(s[v] is Open && h.items == s.subrange(v + 1, close_of(s, v, b)));
    }
}

proof fn lemma_slot_twice(d: Seq<ResourceDeclV>, i: int)
    requires
        0 <= i,
    ensures
        slot_twice(d, i) is None <==> forall|m: int| i <= m < d.len() ==> !#[trigger] slot_before(d, m),
    decreases d.len() - i,
{
    if i < d.len() {
        lemma_slot_twice(d, i + 1);
    }
}

/// No two resources have one name.
pub open spec fn distinct_slots(d: Seq<ResourceDeclV>) -> bool {
    forall|i: int, j: int|
        #![trigger d[i], d[j]]
        0 <= i < j < d.len() ==> d[i].ident != d[j].ident
}

/// Every entry only adds markers.
pub open spec fn all_marked(d: Seq<SignalDeclV>) -> bool {
    forall|i: int| 0 <= i < d.len() ==> (#[trigger] d[i]).observed || d[i].beat
}

/// Some entry is watched for a beat.
pub open spec fn some_beat(d: Seq<SignalDeclV>) -> bool {
    exists|i: int| 0 <= i < d.len() && (#[trigger] d[i]).observed && d[i].beat
}

/// The clauses of a node agree with each other and with its mode.
pub open spec fn node_agrees(a: NodeClausesV, mode: Seq<char>) -> bool {
    &&& a.beat_timeout matches Some(t) ==> (t.value.value matches Some(n) && n >= 1)
    &&& a.beat_window matches Some(w) ==> a.beat_timeout is Some && (w.value.value matches Some(n) && 1
        <= n <= 255)
    &&& a.beat_timeout matches Some(t) ==> t.cfg.len() > 0 ==> (a.beat_window matches Some(w)
        ==> cfg_text(w.cfg) == cfg_text(t.cfg)) && (a.ready_on_write matches Some(r) ==> cfg_text(
        r.cfg,
    ) == cfg_text(t.cfg))
    &&& forall|i: int| 0 <= i < a.common.reads.len() ==> !(#[trigger] a.common.reads[i]).beat
    &&& a.common.discover is Some ==> all_marked(a.common.reads) && all_marked(a.common.writes) && (
    a.common.spawn is Some || a.common.task is Some)
    &&& a.ready_on_write is Some ==> some_beat(a.common.writes) && a.beat_timeout is Some
    &&& a.pool_size matches Some(l) ==> a.common.task is Some && (l.value matches Some(n) && 1 <= n
        <= usize::MAX)
    &&& a.common.resources matches Some(d) ==> a.common.task is Some && d.len() > 0
        && distinct_slots(d)
    &&& a.common.state is Some || a.exit is Some || a.common.cancel ==> a.common.task is Some
    &&& a.common.cancel ==> mode != "Pause"@
}

/// A node is refused exactly where its clauses do not agree.
pub proof fn a_node_is_admitted_where_its_clauses_agree(a: NodeClausesV, mode: Seq<char>)
    ensures
        node_fault(a, mode) is None <==> node_agrees(a, mode),
{
    if let Some(d) = a.common.resources {
        lemma_slot_twice(d, 0);
        assert(distinct_slots(d) <==> forall|m: int|
            0 <= m < d.len() ==> !#[trigger] slot_before(d, m)) by {
            if forall|m: int| 0 <= m < d.len() ==> !#[trigger] slot_before(d, m) {
                assert forall|i: int, j: int|
                    #![trigger d[i], d[j]]
                    0 <= i < j < d.len() implies d[i].ident != d[j].ident by {
                    assert(!slot_before(d, j));
                }
            }
        }
    }
    assert(all_marked(a.common.reads) == !crate::node::unmarked(a.common.reads));
    assert(all_marked(a.common.writes) == !crate::node::unmarked(a.common.writes));
    assert(some_beat(a.common.writes) == crate::node::observed_beat(a.common.writes));
}

/// A pool is refused exactly where it takes a local resource that is not shared, lacks a task, a
/// policy, a floor or a ceiling, or cancels what cannot be cancelled.
pub proof fn a_pool_is_admitted_where_its_clauses_agree(
    k: PoolClausesV,
    ident: Seq<char>,
    modes: Seq<Seq<char>>,
    source: Option<TaskSourceV>,
)
    ensures
        pool_fault(k, ident, modes, source) is None <==> {
            &&& forall|i: int|
                0 <= i < given(k.common.resources).len() && (#[trigger] given(
                    k.common.resources,
                )[i]).local ==> given(k.common.resources)[i].shared
            &&& source is Some && k.policy is Some && k.min is Some && k.max is Some
            &&& k.common.cancel ==> (source matches Some(TaskSourceV::Shell(_))) && !modes.contains(
                "Pause"@,
            )
        },
{
    assert(absent(k, source).len() == 0 <==> source is Some && k.policy is Some && k.min is Some
        && k.max is Some);
}

/// The executor that an item names.
pub open spec fn runs_on(item: ItemV) -> Option<Seq<char>> {
    match item {
        ItemV::Node(n) => n.executor,
        ItemV::Pool(p) => p.executor,
        ItemV::Executor(_) => None,
    }
}

/// The item takes a local resource of this name.
pub open spec fn takes_locally(item: ItemV, slot: Seq<char>) -> bool {
    exists|r: ResourceDeclV| #[trigger] has_resource(item, r) && r.local && r.ident == slot
}

/// The item takes this resource.
pub open spec fn has_resource(item: ItemV, r: ResourceDeclV) -> bool {
    match item {
        ItemV::Node(n) => n.resources.contains(r),
        ItemV::Pool(p) => p.resources.contains(r),
        ItemV::Executor(_) => false,
    }
}

/// The item takes or provides a resource of this name.
pub open spec fn touches(item: ItemV, slot: Seq<char>) -> bool {
    ||| exists|r: ResourceDeclV| #[trigger] has_resource(item, r) && r.ident == slot
    ||| item matches ItemV::Node(n) && exists|k: int|
        0 <= k < n.provides.len() && (#[trigger] n.provides[k]).ident == slot
}

proof fn lemma_touches(item: ItemV, slot: Seq<char>)
    ensures
        declares_slot(item, slot) == touches(item, slot),
{
    let list = resources_of(item);
    if takes_slot(list, slot) {
        let k = choose|k: int| 0 <= k < list.len() && (#[trigger] list[k]).ident == slot;
        assert(has_resource(item, list[k]));
    }
    if exists|r: ResourceDeclV| #[trigger] has_resource(item, r) && r.ident == slot {
        let r = choose|r: ResourceDeclV| #[trigger] has_resource(item, r) && r.ident == slot;
        let k = choose|k: int| 0 <= k < list.len() && list[k] == r;
        assert(list[k].ident == slot);
    }
}

proof fn lemma_slots_fault(
    items: Seq<ItemV>,
    executor: Option<Seq<char>>,
    list: Seq<ResourceDeclV>,
    k: int,
)
    requires
        0 <= k,
    ensures
        slots_fault(items, executor, list, k) is None <==> forall|m: int|
            k <= m < list.len() && (#[trigger] list[m]).local ==> !strays(
                items,
                executor,
                list[m].ident,
            ),
    decreases list.len() - k,
{
    if k < list.len() {
        lemma_slots_fault(items, executor, list, k + 1);
    }
}

/// Wherever item `i` takes a local resource, every item that takes or provides it runs on the same
/// executor.
pub open spec fn keeps_locals(items: Seq<ItemV>, i: int) -> bool {
    forall|slot: Seq<char>, j: int|
        #![trigger takes_locally(items[i], slot), items[j]]
        takes_locally(items[i], slot) && 0 <= j < items.len() && touches(items[j], slot) ==> runs_on(
            items[j],
        ) == runs_on(items[i])
}

proof fn lemma_keeps_locals(items: Seq<ItemV>, i: int)
    requires
        0 <= i < items.len(),
    ensures
        slots_fault(items, executor_of(items[i]), resources_of(items[i]), 0) is None
            <==> keeps_locals(items, i),
{
    let list = resources_of(items[i]);
    let executor = executor_of(items[i]);
    lemma_slots_fault(items, executor, list, 0);
    if slots_fault(items, executor, list, 0) is None {
        assert forall|slot: Seq<char>, j: int|
            #![trigger takes_locally(items[i], slot), items[j]]
            takes_locally(items[i], slot) && 0 <= j < items.len() && touches(
                items[j],
                slot,
            ) implies runs_on(items[j]) == runs_on(items[i]) by {
            let r = choose|r: ResourceDeclV| #[trigger]
                has_resource(items[i], r) && r.local && r.ident == slot;
            let m = choose|m: int| 0 <= m < list.len() && list[m] == r;
            assert(list[m].local);
            lemma_touches(items[j], slot);
            assert(!strays(items, executor, list[m].ident));
            assert(declares_slot(items[j], slot));
        }
    }
    if keeps_locals(items, i) {
        assert forall|m: int| 0 <= m < list.len() && (#[trigger] list[m]).local implies !strays(
            items,
            executor,
            list[m].ident,
        ) by {
            assert(has_resource(items[i], list[m]));
            assert(takes_locally(items[i], list[m].ident));
            if strays(items, executor, list[m].ident) {
                let j = choose|j: int|
                    0 <= j < items.len() && declares_slot(#[trigger] items[j], list[m].ident)
                        && executor_of(items[j]) != executor;
                lemma_touches(items[j], list[m].ident);
                assert(runs_on(items[j]) == runs_on(items[i]));
            }
        }
    }
}

/// A graph is refused on account of its local resources exactly where one of them is declared on
/// more than one executor.
pub proof fn a_graph_is_admitted_where_local_resources_stay(items: Seq<ItemV>, i: int)
    requires
        0 <= i,
    ensures
        local_fault(items, i) is None <==> forall|k: int|
            i <= k < items.len() ==> #[trigger] keeps_locals(items, k),
    decreases items.len() - i,
{
    if i < items.len() {
        lemma_keeps_locals(items, i);
        a_graph_is_admitted_where_local_resources_stay(items, i + 1);
    }
}

} // verus!
