//! What the box of a node or pool says.

use vstd::prelude::*;

use crate::ast::{ItemV, NodeItemV, PoolItemV, TaskSourceV};
use crate::drawn::{chart, every_node_and_pool_is_drawn};
use crate::find::DeclV;
use crate::label::{
    body_kind, cfg_note, escaped, gated_fact, node_facts, pool_facts, predicates, prefixed, tail_of,
    with_if, with_some,
};
use crate::options::OptionsV;
use crate::pen::named;
use crate::render::flowchart;
use crate::text::{contains, decimal, joined};

verus! {

/// What is said with the predicates that it stands behind, where they are shown.
pub open spec fn noted_fact(fact: Seq<char>, note: Option<Seq<char>>) -> Seq<char> {
    match note {
        Some(c) => fact + " "@ + c,
        None => fact,
    }
}

/// How many of the facts are given.
pub open spec fn tally(a: bool, b: bool, c: bool, d: bool, e: bool, f: bool) -> int {
    (if a {
        1int
    } else {
        0
    }) + (if b {
        1int
    } else {
        0
    }) + (if c {
        1int
    } else {
        0
    }) + (if d {
        1int
    } else {
        0
    }) + (if e {
        1int
    } else {
        0
    }) + (if f {
        1int
    } else {
        0
    })
}

/// The facts below a node's name: its mode, where its body comes from, and one for each of its pool
/// size, executor, beat timeout, readiness on its first write, cancelling and predicates.
pub proof fn the_facts_of_a_node_are_those_of_its_clauses(n: NodeItemV, show: bool)
    ensures
        node_facts(n, show).len() >= 2,
        node_facts(n, show)[0] == n.mode,
        node_facts(n, show)[1] == (match n.source {
            Some(TaskSourceV::Shell(_)) => "task"@,
            Some(TaskSourceV::Spawn(_)) => "spawn"@,
            None => "parked"@,
        }),
        n.pool_size matches Some(x) ==> node_facts(n, show).contains("×"@ + x.text),
        n.executor matches Some(x) ==> node_facts(n, show).contains("@"@ + x),
        n.beat_timeout matches Some(x) ==> node_facts(n, show).contains(
            noted_fact("beat "@ + x.value.text, cfg_note(x.cfg, show)),
        ),
        n.ready_on_write matches Some(x) ==> node_facts(n, show).contains(
            noted_fact("ready_on_write"@, cfg_note(x.cfg, show)),
        ),
        n.disabled matches Some(x) ==> (cfg_note(x.cfg, show) matches Some(c) ==> node_facts(
            n,
            show,
        ).contains("disabled "@ + c)),
        n.cancel ==> node_facts(n, show).contains("cancel"@),
        cfg_note(n.cfg, show) matches Some(c) ==> node_facts(n, show).contains(c),
        node_facts(n, show).len() == 2 + tally(
            n.pool_size is Some,
            n.executor is Some,
            n.beat_timeout is Some,
            n.ready_on_write is Some,
            n.disabled is Some && cfg_note(n.disabled->0.cfg, show) is Some,
            n.cancel,
        ) + (if cfg_note(n.cfg, show) is Some {
            1int
        } else {
            0
        }),
{
    let a = Seq::<Seq<char>>::empty().push(n.mode).push(body_kind(n.source));
    let b = match n.pool_size {
        Some(size) => a.push("×"@ + size.text),
        None => a,
    };
    let c = with_some(b, prefixed("@"@, n.executor));
    let d = match n.beat_timeout {
        Some(bt) => c.push(gated_fact("beat "@ + bt.value.text, bt.cfg, show)),
        None => c,
    };
    let e = match n.ready_on_write {
        Some(w) => d.push(gated_fact("ready_on_write"@, w.cfg, show)),
        None => d,
    };
    let f = match n.disabled {
        Some(g) => with_some(e, prefixed("disabled "@, cfg_note(g.cfg, show))),
        None => e,
    };
    let g = with_if(f, n.cancel, "cancel"@);
    let all = node_facts(n, show);
    if let Some(x) = n.pool_size {
        assert(all[a.len() as int] == "×"@ + x.text);
    }
    if let Some(x) = n.executor {
        assert(all[b.len() as int] == "@"@ + x);
    }
    if let Some(x) = n.beat_timeout {
        assert(all[c.len() as int] == noted_fact("beat "@ + x.value.text, cfg_note(x.cfg, show)));
    }
    if let Some(x) = n.ready_on_write {
        assert(all[d.len() as int] == noted_fact("ready_on_write"@, cfg_note(x.cfg, show)));
    }
    if let Some(x) = n.disabled {
        if let Some(t) = cfg_note(x.cfg, show) {
            assert(all[e.len() as int] == "disabled "@ + t);
        }
    }
    if n.cancel {
        assert(all[f.len() as int] == "cancel"@);
    }
    if let Some(t) = cfg_note(n.cfg, show) {
        assert(all[g.len() as int] == t);
    }
}

/// The facts below a pool's name: how many members it has, where their body comes from, the floor
/// and the ceiling, and one for each of its executor, cancelling and predicates.
pub proof fn the_facts_of_a_pool_are_those_of_its_clauses(p: PoolItemV, show: bool)
    ensures
        pool_facts(p, show).len() >= 3,
        pool_facts(p, show)[0] == "pool ×"@ + decimal(p.modes.len()),
        pool_facts(p, show)[1] == (match p.source {
            TaskSourceV::Shell(_) => "task"@,
            TaskSourceV::Spawn(_) => "spawn"@,
        }),
        pool_facts(p, show)[2] == tail_of(p.min) + ".."@ + tail_of(p.max),
        p.executor matches Some(x) ==> pool_facts(p, show).contains("@"@ + x),
        p.cancel ==> pool_facts(p, show).contains("cancel"@),
        cfg_note(p.cfg, show) matches Some(c) ==> pool_facts(p, show).contains(c),
        pool_facts(p, show).len() == 3 + tally(
            p.executor is Some,
            p.cancel,
            cfg_note(p.cfg, show) is Some,
            false,
            false,
            false,
        ),
{
    let a = Seq::<Seq<char>>::empty().push("pool ×"@ + decimal(p.modes.len())).push(
        body_kind(Some(p.source)),
    ).push(tail_of(p.min) + ".."@ + tail_of(p.max));
    let b = with_some(a, prefixed("@"@, p.executor));
    let c = with_if(b, p.cancel, "cancel"@);
    let all = pool_facts(p, show);
    if let Some(x) = p.executor {
        assert(all[a.len() as int] == "@"@ + x);
    }
    if p.cancel {
        assert(all[b.len() as int] == "cancel"@);
    }
    if let Some(t) = cfg_note(p.cfg, show) {
        assert(all[c.len() as int] == t);
    }
}

/// The note on predicates shows every one of them, and there is none where they are not shown.
pub proof fn a_note_shows_every_predicate(attrs: Seq<crate::rust::AttrV>, show: bool)
    ensures
        !show ==> cfg_note(attrs, show) is None,
        predicates(attrs).len() == 0 ==> cfg_note(attrs, show) is None,
        show && predicates(attrs).len() > 0 ==> cfg_note(attrs, show) is Some,
        cfg_note(attrs, show) matches Some(c) ==> forall|i: int|
            0 <= i < predicates(attrs).len() ==> contains(c, #[trigger] predicates(attrs)[i]),
{
    if let Some(c) = cfg_note(attrs, show) {
        let inner = joined(predicates(attrs), ") · cfg("@);
        assert forall|i: int| 0 <= i < predicates(attrs).len() implies contains(
            c,
            #[trigger] predicates(attrs)[i],
        ) by {
            let x = predicates(attrs)[i];
            crate::lifecycle::lemma_part(predicates(attrs), ") · cfg("@, i);
            crate::lifecycle::lemma_within_on(inner, "<small>cfg("@, ")</small>"@, x);
        }
    }
}

/// Every node stands in the flowchart in a rectangle, every pool in a double-sided one, with its
/// name and its facts.
pub proof fn every_box_has_the_name_and_the_facts(d: DeclV, o: OptionsV, k: int)
    requires
        0 <= k < d.spec.items.len(),
    ensures
        match d.spec.items[k] {
            ItemV::Node(n) => contains(
                flowchart(d, o),
                named(chart(d, o), "n"@, n.ident) + "[\""@ + escaped(
                    n.ident + "<br/>"@ + joined(node_facts(n, o.show_cfg), " · "@),
                ) + "\"]"@,
            ),
            ItemV::Pool(p) => contains(
                flowchart(d, o),
                named(chart(d, o), "n"@, p.ident) + "[[\""@ + escaped(
                    p.ident + "<br/>"@ + joined(pool_facts(p, o.show_cfg), " · "@),
                ) + "\"]]"@,
            ),
            ItemV::Executor(_) => true,
        },
{
    if !(d.spec.items[k] is Executor) {
        every_node_and_pool_is_drawn(d, o, k);
    }
}

} // verus!
