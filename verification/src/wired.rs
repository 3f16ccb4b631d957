//! The edges of a flowchart: one for every entry that calls for it, in its own direction, and none
//! that nothing calls for.

use vstd::prelude::*;

use crate::ast::{signal_name, DepV, ItemV, NodeItemV, ResourceDeclV, SignalDeclV};
use crate::coupling::{couplings, CouplingV};
use crate::discover::{module_name, DiscoveredV};
use crate::drawn::{
    chart, every_declared_coupling_is_drawn, every_provided_resource_is_drawn,
    every_shown_dep_is_drawn, every_taken_resource_is_drawn, known, provides, taken,
};
use crate::entries::{declares, reads_entry, the_couplings_are_the_entries, writes_entry};
use crate::find::DeclV;
use crate::label::{
    cfg_note, coupling_label, dep_label, escaped, markers, predicates, resource_marks, with_if,
    with_some,
};
use crate::options::OptionsV;
use crate::pen::named;
use crate::render::{
    access_label, anchored, drawn_dep, flowchart, noted, the_dep_edges_are_the_shown_deps,
    verb_label,
};
use crate::text::{contains, joined, starts_with};

verus! {

/// A solid or dotted edge, with its label in quotes where it has one.
pub open spec fn edge_between(
    from: Seq<char>,
    to: Seq<char>,
    label: Seq<char>,
    dotted: bool,
) -> Seq<char> {
    if dotted {
        if label.len() == 0 {
            from + " -.-> "@ + to
        } else {
            from + " -. \""@ + escaped(label) + "\" .-> "@ + to
        }
    } else if label.len() == 0 {
        from + " --> "@ + to
    } else {
        from + " -- \""@ + escaped(label) + "\" --> "@ + to
    }
}

proof fn lemma_entry_at(d: DeclV, node: Seq<char>, write: bool, s: SignalDeclV) -> (k: int)
    requires
        declares(d.spec.items, node, write, s),
    ensures
        0 <= k < couplings(d.spec.items).len(),
        couplings(d.spec.items)[k] == (CouplingV { node, write, sig: s }),
{
    let c = CouplingV { node, write, sig: s };
    the_couplings_are_the_entries(d.spec.items, c);
    choose|k: int| 0 <= k < couplings(d.spec.items).len() && couplings(d.spec.items)[k] == c
}

/// Every `writes:` entry of every node and pool is, in a view of signals, an edge from the item to
/// the signal: solid in the runtime view, else dotted.
pub proof fn every_write_is_an_edge_to_its_signal(d: DeclV, o: OptionsV, k: int, m: int)
    requires
        o.signals || o.runtime,
        0 <= k < d.spec.items.len(),
        match d.spec.items[k] {
            ItemV::Node(n) => 0 <= m < n.writes.len(),
            ItemV::Pool(p) => 0 <= m < p.writes.len(),
            ItemV::Executor(_) => false,
        },
    ensures
        ({
            let (node, s) = match d.spec.items[k] {
                ItemV::Node(n) => (n.ident, n.writes[m]),
                ItemV::Pool(p) => (p.ident, p.writes[m]),
                ItemV::Executor(x) => (x.ident, arbitrary()),
            };
            let p = chart(d, o);
            &&& known(p, "n"@, node)
            &&& known(p, "s"@, signal_name(s))
            &&& contains(
                flowchart(d, o),
                edge_between(
                    named(p, "n"@, node),
                    named(p, "s"@, signal_name(s)),
                    coupling_label(s, o.show_cfg),
                    !o.runtime,
                ),
            )
        }),
{
    let (node, s) = match d.spec.items[k] {
        ItemV::Node(n) => (n.ident, n.writes[m]),
        ItemV::Pool(p) => (p.ident, p.writes[m]),
        ItemV::Executor(x) => (x.ident, arbitrary()),
    };
    assert(writes_entry(d.spec.items[k], node, s));
    assert(declares(d.spec.items, node, true, s));
    let at = lemma_entry_at(d, node, true, s);
    every_declared_coupling_is_drawn(d, o, at);
}

/// Every `reads:` entry of every node and pool is, in a view of signals, an edge from the signal to
/// the item, or is folded into the box of the signal's readers where many are folded.
pub proof fn every_read_is_an_edge_from_its_signal(d: DeclV, o: OptionsV, k: int, m: int)
    requires
        o.signals || o.runtime,
        0 <= k < d.spec.items.len(),
        match d.spec.items[k] {
            ItemV::Node(n) => 0 <= m < n.reads.len(),
            ItemV::Pool(p) => 0 <= m < p.reads.len(),
            ItemV::Executor(_) => false,
        },
    ensures
        ({
            let (node, s) = match d.spec.items[k] {
                ItemV::Node(n) => (n.ident, n.reads[m]),
                ItemV::Pool(p) => (p.ident, p.reads[m]),
                ItemV::Executor(x) => (x.ident, arbitrary()),
            };
            let p = chart(d, o);
            let sig = named(p, "s"@, signal_name(s));
            &&& known(p, "n"@, node)
            &&& known(p, "s"@, signal_name(s))
            &&& contains(
                flowchart(d, o),
                edge_between(
                    sig,
                    named(p, "n"@, node),
                    coupling_label(s, o.show_cfg),
                    !o.runtime,
                ),
            ) || (o.max_fanout > 0 && contains(
                flowchart(d, o),
                edge_between(sig, "fan_"@ + sig, Seq::empty(), !o.runtime),
            ))
        }),
{
    let (node, s) = match d.spec.items[k] {
        ItemV::Node(n) => (n.ident, n.reads[m]),
        ItemV::Pool(p) => (p.ident, p.reads[m]),
        ItemV::Executor(x) => (x.ident, arbitrary()),
    };
    reveal_strlit("");
    assert(""@ == Seq::<char>::empty());
    assert(reads_entry(d.spec.items[k], node, s));
    assert(declares(d.spec.items, node, false, s));
    let at = lemma_entry_at(d, node, false, s);
    every_declared_coupling_is_drawn(d, o, at);
}

proof fn lemma_listed(parts: Seq<Seq<char>>, sep: Seq<char>, k: int)
    requires
        0 <= k < parts.len(),
    ensures
        contains(joined(parts, sep), parts[k]),
    decreases parts.len(),
{
    crate::lifecycle::lemma_part(parts, sep, k);
}

/// The label of a coupling has the markers of its entry; one without markers, and without shown
/// predicates, has none.
pub proof fn a_coupling_label_tells_the_markers(s: SignalDeclV, show: bool)
    ensures
        s.observed ==> contains(coupling_label(s, show), "observed"@),
        s.beat ==> contains(coupling_label(s, show), "beat"@),
        s.veto ==> contains(coupling_label(s, show), "veto"@),
        !s.observed && !s.beat && !s.veto && cfg_note(s.cfg, show) is None ==> coupling_label(
            s,
            show,
        ).len() == 0,
        cfg_note(s.cfg, show) matches Some(c) ==> contains(coupling_label(s, show), c),
{
    let a = with_if(Seq::empty(), s.observed, "observed"@);
    let b = with_if(a, s.beat, "beat"@);
    let c = with_if(b, s.veto, "veto"@);
    let all = with_some(c, cfg_note(s.cfg, show));
    if s.observed {
        lemma_listed(all, " · "@, 0);
    }
    if s.beat {
        lemma_listed(all, " · "@, a.len() as int);
    }
    if s.veto {
        lemma_listed(all, " · "@, b.len() as int);
    }
    if cfg_note(s.cfg, show) is Some {
        lemma_listed(all, " · "@, c.len() as int);
    }
}

/// Some node or pool named `node` has this dep.
pub open spec fn has_dep(item: ItemV, node: Seq<char>, dep: DepV) -> bool {
    match item {
        ItemV::Node(n) => n.ident == node && n.deps.contains(dep),
        ItemV::Pool(p) => p.ident == node && p.deps.contains(dep),
        ItemV::Executor(_) => false,
    }
}

/// The bring-up view draws every dep of every node and pool, from what is needed to what needs it:
/// thick where the dep is bound, and labelled with its markers.
pub proof fn the_bring_up_view_draws_every_dep(
    d: DeclV,
    o: OptionsV,
    k: int,
    node: Seq<char>,
    dep: DepV,
)
    requires
        !o.runtime,
        0 <= k < d.spec.items.len(),
        has_dep(d.spec.items[k], node, dep),
    ensures
        ({
            let p = chart(d, o);
            let from = named(p, "n"@, dep.ident);
            let to = named(p, "n"@, node);
            let label = dep_label(dep, o.show_cfg);
            &&& known(p, "n"@, node)
            &&& known(p, "n"@, dep.ident)
            &&& contains(
                flowchart(d, o),
                if dep.bound {
                    from + " == "@ + ("\""@ + escaped(label) + "\""@) + " ==> "@ + to
                } else if label.len() == 0 {
                    from + " --> "@ + to
                } else {
                    from + " -- "@ + ("\""@ + escaped(label) + "\""@) + " --> "@ + to
                },
            )
        }),
{
    let module = module_name(d.origin);
    the_dep_edges_are_the_shown_deps(d.spec.items, module, o, (node, dep));
    assert(drawn_dep(d.spec.items, anchored(d.spec.items, module, o), o, 0, (node, dep)));
    every_shown_dep_is_drawn(d, o, (node, dep));
}

/// The runtime view draws every dep as dotted context where it is asked to, in the same direction.
pub proof fn the_runtime_view_draws_every_dep_on_request(
    d: DeclV,
    o: OptionsV,
    k: int,
    node: Seq<char>,
    dep: DepV,
)
    requires
        o.runtime,
        o.runtime_deps,
        0 <= k < d.spec.items.len(),
        has_dep(d.spec.items[k], node, dep),
    ensures
        ({
            let p = chart(d, o);
            let label = dep_label(dep, o.show_cfg);
            contains(
                flowchart(d, o),
                named(p, "n"@, dep.ident) + " -. \""@ + escaped(
                    if label.len() == 0 {
                        "spawn"@
                    } else {
                        "spawn · "@ + label
                    },
                ) + "\" .-> "@ + named(p, "n"@, node),
            )
        }),
{
    let module = module_name(d.origin);
    the_dep_edges_are_the_shown_deps(d.spec.items, module, o, (node, dep));
    assert(drawn_dep(d.spec.items, anchored(d.spec.items, module, o), o, 0, (node, dep)));
    every_shown_dep_is_drawn(d, o, (node, dep));
}

/// The label of a dep has its markers, and its predicates where they are shown; one with neither
/// has none.
pub proof fn a_dep_label_tells_the_markers(d: DepV, show: bool)
    ensures
        d.ready ==> contains(dep_label(d, show), "ready"@),
        d.bound ==> contains(dep_label(d, show), "bound"@),
        cfg_note(d.cfg, show) matches Some(c) ==> contains(dep_label(d, show), c),
        !d.ready && !d.bound && cfg_note(d.cfg, show) is None ==> dep_label(d, show).len() == 0,
{
    let a = with_if(Seq::empty(), d.ready, "ready"@);
    let all = with_if(a, d.bound, "bound"@);
    reveal_strlit("ready");
    reveal_strlit("bound");
    let t = markers(d);
    let none = Seq::<char>::empty();
    if d.ready {
        lemma_listed(all, " "@, 0);
    }
    if d.bound {
        lemma_listed(all, " "@, a.len() as int);
    }
    if let Some(c) = cfg_note(d.cfg, show) {
        let label = dep_label(d, show);
        assert(label == (if t.len() == 0 {
            none + c + none
        } else {
            (t + " · "@) + c + none
        }));
        crate::lifecycle::lemma_within(none, c, none);
        crate::lifecycle::lemma_within(t + " · "@, c, none);
        if d.ready {
            crate::lifecycle::lemma_left(t, " · "@ + c, "ready"@);
            lemma_nonempty(t, "ready"@);
            assert(t + (" · "@ + c) == t + " · "@ + c);
        }
        if d.bound {
            crate::lifecycle::lemma_left(t, " · "@ + c, "bound"@);
            lemma_nonempty(t, "bound"@);
            assert(t + (" · "@ + c) == t + " · "@ + c);
        }
    }
}

proof fn lemma_nonempty(t: Seq<char>, x: Seq<char>)
    requires
        contains(t, x),
        x.len() > 0,
    ensures
        t.len() > 0,
{
    let i = choose|i: int| crate::text::stands_at(t, i, x);
}

/// Some node or pool named `node` takes this resource.
pub open spec fn takes(item: ItemV, node: Seq<char>, r: ResourceDeclV) -> bool {
    match item {
        ItemV::Node(n) => n.ident == node && n.resources.contains(r),
        ItemV::Pool(p) => p.ident == node && p.resources.contains(r),
        ItemV::Executor(_) => false,
    }
}

/// Every resource that a node or pool takes has a slot, and an edge from the slot to what takes it,
/// with its markers.
pub proof fn every_resource_is_an_edge_from_its_slot(
    d: DeclV,
    o: OptionsV,
    k: int,
    node: Seq<char>,
    r: ResourceDeclV,
)
    requires
        0 <= k < d.spec.items.len(),
        takes(d.spec.items[k], node, r),
    ensures
        ({
            let p = chart(d, o);
            let slot = named(p, "r"@, r.ident);
            let marks = resource_marks(r, o.show_cfg);
            &&& known(p, "n"@, node)
            &&& known(p, "r"@, r.ident)
            &&& contains(
                flowchart(d, o),
                slot + "@{ shape: notch-rect, label: \""@ + escaped(r.ident) + "\" }"@,
            )
            &&& contains(
                flowchart(d, o),
                if marks.len() == 0 {
                    slot + " --> "@ + named(p, "n"@, node)
                } else {
                    slot + " -- \""@ + joined(marks, " · "@) + "\" --> "@ + named(p, "n"@, node)
                },
            )
        }),
{
    assert(taken(d.spec.items, 0, (node, r)));
    every_taken_resource_is_drawn(d, o, (node, r));
}

/// The marks of a resource are its markers and its shown predicates.
pub proof fn a_resource_edge_tells_the_markers(r: ResourceDeclV, show: bool)
    ensures
        r.local ==> resource_marks(r, show).contains("local"@),
        r.consume ==> resource_marks(r, show).contains("consume"@),
        r.shared ==> resource_marks(r, show).contains("shared"@),
        r.serialized ==> resource_marks(r, show).contains("serialized"@),
        r.divisible ==> resource_marks(r, show).contains("divisible"@),
        resource_marks(r, show).len() == (if r.local {
            1int
        } else {
            0
        }) + (if r.consume {
            1int
        } else {
            0
        }) + (if r.shared {
            1int
        } else {
            0
        }) + (if r.serialized {
            1int
        } else {
            0
        }) + (if r.divisible {
            1int
        } else {
            0
        }) + (if cfg_note(r.cfg, show) is Some {
            1int
        } else {
            0
        }),
{
    let a = with_if(Seq::empty(), r.local, "local"@);
    let b = with_if(a, r.consume, "consume"@);
    let c = with_if(b, r.shared, "shared"@);
    let e = with_if(c, r.serialized, "serialized"@);
    let all = resource_marks(r, show);
    if r.local {
        assert(all[0] == "local"@);
    }
    if r.consume {
        assert(all[a.len() as int] == "consume"@);
    }
    if r.shared {
        assert(all[b.len() as int] == "shared"@);
    }
    if r.serialized {
        assert(all[c.len() as int] == "serialized"@);
    }
    if r.divisible {
        assert(all[e.len() as int] == "divisible"@);
    }
}

/// Every slot that a node provides and something takes has an edge from the node.
pub proof fn every_provided_slot_is_an_edge_from_its_node(
    d: DeclV,
    o: OptionsV,
    k: int,
    n: NodeItemV,
    m: int,
    j: int,
    taker: Seq<char>,
    r: ResourceDeclV,
)
    requires
        0 <= k < d.spec.items.len(),
        d.spec.items[k] == ItemV::Node(n),
        0 <= m < n.provides.len(),
        0 <= j < d.spec.items.len(),
        takes(d.spec.items[j], taker, r),
        r.ident == n.provides[m].ident,
    ensures
        ({
            let p = chart(d, o);
            contains(
                flowchart(d, o),
                named(p, "n"@, n.ident) + " -- \""@ + escaped(
                    match cfg_note(n.provides[m].cfg, o.show_cfg) {
                        Some(c) => "provides · "@ + c,
                        None => "provides"@,
                    },
                ) + "\" --> "@ + named(p, "r"@, n.provides[m].ident),
            )
        }),
{
    assert(taken(d.spec.items, 0, (taker, r)));
    assert(provides(d.spec.items[k], n.provides[m]));
    every_provided_resource_is_drawn(d, o, k, n.provides[m], (taker, r));
}

proof fn lemma_noted(label: Seq<char>, cfgs: Seq<Seq<char>>, i: int, k: int)
    requires
        0 <= i,
    ensures
        starts_with(noted(label, cfgs, i), label),
        i <= k < cfgs.len() ==> contains(noted(label, cfgs, i), "cfg("@ + cfgs[k] + ")"@),
    decreases cfgs.len() - i,
{
    if i < cfgs.len() {
        let x = "cfg("@ + cfgs[i] + ")"@;
        let next = label + " · <small>cfg("@ + cfgs[i] + ")</small>"@;
        lemma_noted(next, cfgs, i + 1, k);
        let all = noted(next, cfgs, i + 1);
        assert(next.subrange(0, label.len() as int) =~= label);
        assert(all.subrange(0, next.len() as int).subrange(0, label.len() as int) =~= all.subrange(
            0,
            label.len() as int,
        ));
        if i == k {
            reveal_strlit(" · <small>cfg(");
            reveal_strlit(")</small>");
            reveal_strlit("cfg(");
            reveal_strlit(")");
            let at = label.len() + " · <small>cfg("@.len() - "cfg("@.len();
            assert(all.subrange(0, next.len() as int) == next);
            assert(all.subrange(at as int, at + x.len()) =~= x) by {
                assert forall|m: int| 0 <= m < x.len() implies all[at + m] == x[m] by {
                    assert(all.subrange(0, next.len() as int)[at + m] == next[at + m]);
                }
            }
            assert(crate::text::stands_at(all, at as int, x));
        }
    } else {
        assert(label.subrange(0, label.len() as int) =~= label);
    }
}

/// The edge of an access found in a function is labelled by its verb: `gated` for one that a reader
/// cannot start without, `beat` for one that drives a heartbeat, `discovered` for the plain ones, and
/// by its own name for any other; and by its predicates where those are shown.
pub proof fn a_found_access_is_labelled_by_its_verb(d: DiscoveredV, show: bool, k: int)
    ensures
        starts_with(
            access_label(d, show),
            if d.access.verb == "open"@ {
                "gated"@
            } else if d.access.verb == "beat_put"@ || d.access.verb == "beat_writer"@ {
                "beat"@
            } else if d.access.verb == "get"@ || d.access.verb == "put"@ || d.access.verb
                == "reader"@ || d.access.verb == "writer"@ {
                "discovered"@
            } else {
                d.access.verb
            },
        ),
        show && 0 <= k < d.access.cfgs.len() ==> contains(
            access_label(d, show),
            "cfg("@ + d.access.cfgs[k] + ")"@,
        ),
{
    let label = verb_label(d.access.verb);
    lemma_noted(label, d.access.cfgs, 0, k);
    assert(label.subrange(0, label.len() as int) =~= label);
}

} // verus!
