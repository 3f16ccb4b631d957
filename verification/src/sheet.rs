//! The lines of a flowchart: each is called for by what the graph declares, or by what its
//! functions were found to do, and nothing else is drawn.

use vstd::prelude::*;

use crate::ast::{
    boxed_name, deps_of, resources_of, signal_name, DepV, ItemV, ProvideDeclV, ResourceDeclV,
    SignalDeclV,
};
use crate::coupling::{
    aliases, aliases_from, couplings, discovered_key, first_access, flow_fns, has_discovered_access,
    has_key, label_of, labelled, paths_alias, signal_keys, whole_from, whole_of, CouplingV,
};
use crate::discover::{module_name, DiscoveredV};
use crate::drawn::{
    after_boxes, after_deps, after_externals, after_flow, chart, every_external_is_drawn,
    every_shown_dep_is_drawn, follows, known, lemma_access, lemma_accesses, lemma_all_provides,
    lemma_class, lemma_couplings, lemma_deps, lemma_discovered, lemma_elements,
    lemma_externals_drawn, lemma_finished, lemma_groups, lemma_inked, lemma_known_on, lemma_links,
    lemma_members, lemma_named, lemma_naming, lemma_on, lemma_provides, lemma_readers_still,
    lemma_shown, lemma_shown_on, lemma_signals, lemma_slots, lemma_stages, lemma_still, lemma_uses,
    lemma_wrote, makes_access, outsiders,
};
use crate::entries::{declares, the_couplings_are_the_entries, the_signals_are_those_of_the_entries};
use crate::find::DeclV;
use crate::label::{
    cfg_note, coupling_label, dep_edge, dep_label, escaped, node_label, pool_label, resource_edge,
    resource_marks, shape_of, spawn_edge, unresolved_label, with_if, with_some,
};
use crate::legend::{arrows, legend_text};
use crate::options::OptionsV;
use crate::order::ordered;
use crate::pen::{all_named, inked, named, named_from, naming, wrote, PenV};
use crate::render::{
    access_label, an_external_is_what_is_needed_and_not_declared, anchored, anchors_from,
    boxed_names_from, dep_edges, disabled_names_from, draw_access, draw_accesses, draw_class,
    draw_couplings_from, draw_couplings_step, draw_deps_from, draw_deps_step, draw_discovered_from,
    draw_discovered_step, draw_edges_from, draw_edges_step, draw_elements_from, draw_elements_step,
    draw_externals_from, draw_externals_step, draw_flow, draw_groups_from, draw_groups_step,
    draw_links_from, draw_links_step, draw_members_from, draw_members_step, draw_provides_from,
    draw_provides_step, draw_readers_from, draw_readers_step, draw_resources, draw_signals_from,
    draw_signals_step, draw_slots_from, draw_slots_step, draw_uses_from, draw_uses_step, drawing,
    flowchart, groups_of, has_members, header, in_group, is_disabled, is_parked, is_uncoupled,
    link_url, parked_names_from, provide_step, provides_from, reader_nodes, reader_signals,
    readers_of_from, shows_dep, slots_from, takes_from, the_dep_edges_are_the_shown_deps, uses_from,
    with_box, FlowV, ReaderV, CLASSDEFS,
};
use crate::text::{
    after_last, contains, decimal, ends_with, joined, looked_up, replaced, trimmed_end,
};
use crate::wired::{edge_between, has_dep, takes};

verus! {

/// A line of a flowchart.
pub enum Line {
    /// The start of a group.
    Open { name: Seq<char> },
    /// The direction of a group.
    Direction,
    /// The end of a group.
    Close,
    /// The box of a node or pool, in a group or not.
    Item { item: ItemV, deep: bool },
    /// The link of a node or pool.
    Click { item: ItemV, template: Seq<char> },
    /// The box of what the graph needs and does not declare.
    Outside { name: Seq<char> },
    /// The edge of a dep.
    Dep { node: Seq<char>, dep: DepV },
    /// The slot of a resource.
    Slot { name: Seq<char> },
    /// The edge of a resource that a node or pool takes.
    Take { node: Seq<char>, resource: ResourceDeclV },
    /// The edge of a resource that a node provides.
    Provide { node: Seq<char>, provide: ProvideDeclV },
    /// The style of some nodes, and of some slots.
    Mark { class: Seq<char>, names: Seq<Seq<char>> },
    /// The style of the slots.
    Slots { names: Seq<Seq<char>> },
    /// A line without text.
    Blank,
    /// The box of a signal.
    Signal { key: Seq<char>, label: Seq<char> },
    /// The edge of a `writes:` or `reads:` entry.
    Declared { node: Seq<char>, write: bool, entry: SignalDeclV },
    /// The edge of an access found in a function, by its number.
    Found { node: Seq<char>, key: Seq<char>, m: int },
    /// The edge between an element and its array.
    Element { key: Seq<char>, whole: Seq<char> },
    /// The box that stands for many readers of one signal.
    Folded { signal: Seq<char>, readers: Seq<Line> },
    /// The edge to that box.
    Fold { signal: Seq<char>, readers: Seq<Line> },
    /// The signals' style.
    Style { keys: Seq<Seq<char>> },
}

/// An edge between a node and a signal: towards the signal where the node writes it.
pub open spec fn flow_edge(
    p: PenV,
    node: Seq<char>,
    key: Seq<char>,
    write: bool,
    label: Seq<char>,
    dotted: bool,
) -> Seq<char> {
    let n = named(p, "n"@, node);
    let s = named(p, "s"@, key);
    if write {
        edge_between(n, s, label, dotted)
    } else {
        edge_between(s, n, label, dotted)
    }
}

/// The node of an edge.
pub open spec fn node_of(l: Line) -> Seq<char> {
    match l {
        Line::Declared { node, .. } => node,
        Line::Found { node, .. } => node,
        _ => Seq::empty(),
    }
}

/// The signal of an edge.
pub open spec fn key_of_line(l: Line) -> Seq<char> {
    match l {
        Line::Declared { entry, .. } => signal_name(entry),
        Line::Found { key, .. } => key,
        _ => Seq::empty(),
    }
}

/// The line is an edge from a signal to a node.
pub open spec fn is_read(l: Line, o: OptionsV) -> bool {
    match l {
        Line::Declared { write, .. } => !write,
        Line::Found { m, .. } => 0 <= m < o.discovered.len() && !o.discovered[m].access.write,
        _ => false,
    }
}

/// The edge of a dep, from what is needed to what needs it: thick in the bring-up view where it is
/// bound, and dotted in the runtime view.
pub open spec fn need_edge(
    from: Seq<char>,
    to: Seq<char>,
    bound: bool,
    label: Seq<char>,
    runtime: bool,
) -> Seq<char> {
    if runtime {
        from + " -. \""@ + escaped(
            if label.len() == 0 {
                "spawn"@
            } else {
                "spawn · "@ + label
            },
        ) + "\" .-> "@ + to
    } else if bound {
        from + " == "@ + ("\""@ + escaped(label) + "\""@) + " ==> "@ + to
    } else if label.len() == 0 {
        from + " --> "@ + to
    } else {
        from + " -- "@ + ("\""@ + escaped(label) + "\""@) + " --> "@ + to
    }
}

/// The edge of a resource, from its slot to what takes it.
pub open spec fn take_edge(slot: Seq<char>, node: Seq<char>, marks: Seq<Seq<char>>) -> Seq<char> {
    if marks.len() == 0 {
        slot + " --> "@ + node
    } else {
        slot + " -- \""@ + joined(marks, " · "@) + "\" --> "@ + node
    }
}

/// How a line is written.
pub open spec fn written(l: Line, d: DeclV, o: OptionsV, p: PenV) -> Seq<char> {
    let dotted = !o.runtime;
    match l {
        Line::Open { name } => "  subgraph "@ + named(p, "f"@, name) + "[\""@ + escaped(name)
            + "\"]"@,
        Line::Direction => "    direction "@ + o.direction,
        Line::Close => "  end"@,
        Line::Item { item, deep } => (if deep {
            "    "@
        } else {
            "  "@
        }) + (match item {
            ItemV::Node(n) => named(p, "n"@, n.ident) + "[\""@ + escaped(node_label(n, o.show_cfg))
                + "\"]"@,
            ItemV::Pool(x) => named(p, "n"@, x.ident) + "[[\""@ + escaped(pool_label(x, o.show_cfg))
                + "\"]]"@,
            ItemV::Executor(_) => ""@,
        }),
        Line::Click { item, template } => "  click "@ + named(p, "n"@, boxed_name(item)->0)
            + " \""@ + escaped(link_url(d, o, template, item)) + "\""@,
        Line::Outside { name } => "  "@ + named(p, "n"@, name) + "([\""@ + escaped(name) + "\"])"@,
        Line::Dep { node, dep } => "  "@ + need_edge(
            named(p, "n"@, dep.ident),
            named(p, "n"@, node),
            dep.bound,
            dep_label(dep, o.show_cfg),
            o.runtime,
        ),
        Line::Slot { name } => "  "@ + named(p, "r"@, name) + "@{ shape: notch-rect, label: \""@
            + escaped(name) + "\" }"@,
        Line::Take { node, resource } => "  "@ + take_edge(
            named(p, "r"@, resource.ident),
            named(p, "n"@, node),
            resource_marks(resource, o.show_cfg),
        ),
        Line::Provide { node, provide } => "  "@ + named(p, "n"@, node) + " -- \""@ + escaped(
            match cfg_note(provide.cfg, o.show_cfg) {
                Some(c) => "provides · "@ + c,
                None => "provides"@,
            },
        ) + "\" --> "@ + named(p, "r"@, provide.ident),
        Line::Mark { class, names } => "  class "@ + joined(
            Seq::new(names.len(), |i: int| named(p, "n"@, names[i])),
            ","@,
        ) + " "@ + class + ";"@,
        Line::Slots { names } => "  class "@ + joined(
            Seq::new(names.len(), |i: int| named(p, "r"@, names[i])),
            ","@,
        ) + " "@ + "resource"@ + ";"@,
        Line::Blank => ""@,
        Line::Signal { key, label } => "  "@ + named(p, "s"@, key) + "[/\""@ + escaped(label)
            + "\"/]"@,
        Line::Declared { node, write, entry } => "  "@ + flow_edge(
            p,
            node,
            signal_name(entry),
            write,
            coupling_label(entry, o.show_cfg),
            dotted,
        ),
        Line::Found { node, key, m } => "  "@ + flow_edge(
            p,
            node,
            key,
            o.discovered[m].access.write,
            access_label(o.discovered[m], o.show_cfg),
            dotted,
        ),
        Line::Element { key, whole } => "  "@ + named(p, "s"@, key) + " -. \"element of\" .- "@
            + named(p, "s"@, whole),
        Line::Folded { signal, readers } => "  "@ + ("fan_"@ + signal) + "[\""@ + decimal(
            readers.len(),
        ) + " readers: "@ + escaped(
            joined(Seq::new(readers.len(), |i: int| node_of(readers[i])), ", "@),
        ) + "\"]"@,
        Line::Fold { signal, readers } => "  "@ + edge_between(
            signal,
            "fan_"@ + signal,
            Seq::empty(),
            dotted,
        ),
        Line::Style { keys } => "  class "@ + joined(
            Seq::new(keys.len(), |i: int| named(p, "s"@, keys[i])),
            ","@,
        ) + " "@ + "signal"@ + ";"@,
    }
}

/// A path found in a function is a spelling of this signal.
pub open spec fn spells(key: Seq<char>, d: DiscoveredV) -> bool {
    let qualified = d.module + "::"@ + d.access.path;
    if d.relative {
        key == qualified || paths_alias(key, qualified) || paths_alias(key, d.access.path)
    } else {
        key == d.access.path || paths_alias(key, d.access.path)
    }
}

/// Some `writes:` or `reads:` entry names the signal, or some access of a node or pool spells it.
pub open spec fn has_signal(key: Seq<char>, d: DeclV, o: OptionsV) -> bool {
    ||| exists|node: Seq<char>, write: bool, s: SignalDeclV|
        #[trigger] declares(d.spec.items, node, write, s) && signal_name(s) == key
    ||| exists|node: Seq<char>, m: int|
        #[trigger] found(node, m, d, o) && spells(key, o.discovered[m])
}

/// The node or pool `node` makes access number `m`.
pub open spec fn found(node: Seq<char>, m: int, d: DeclV, o: OptionsV) -> bool {
    &&& 0 <= m < o.discovered.len()
    &&& exists|k: int|
        0 <= k < d.spec.items.len() && boxed_name(#[trigger] d.spec.items[k]) == Some(node)
            && makes_access(d.spec.items[k], module_name(d.origin), o, m)
}

/// The signal `key` is an element of the array `whole`: it has an index, `whole` has none, and the
/// path before the index is a spelling of `whole`.
pub open spec fn element_of(key: Seq<char>, whole: Seq<char>) -> bool {
    &&& !contains(whole, "["@)
    &&& exists|at: int|
        0 <= at < key.len() && #[trigger] key[at] == '[' && (forall|i: int|
            0 <= i < at ==> key[i] != '[') && spells_array(trimmed_end(key.take(at)), whole)
}

/// Two spellings of an array's path: equal, or one ends with the other.
pub open spec fn spells_array(base: Seq<char>, whole: Seq<char>) -> bool {
    whole == base || ends_with(base, "::"@ + whole) || ends_with(whole, "::"@ + base)
}

/// The box of a signal says its path in full where that is asked for. Else one that is declared has
/// its label among the declared ones, and one that was found has the last segment of its path.
pub open spec fn labels_signal(key: Seq<char>, label: Seq<char>, d: DeclV, o: OptionsV) -> bool {
    ||| label == (if o.full_paths {
        key
    } else {
        after_last(key, "::"@)
    })
    ||| exists|k: int|
        0 <= k < signal_keys(d.spec.items).len() && key == (#[trigger] signal_keys(
            d.spec.items,
        )[k]).key && label == unresolved_label(label_of(signal_keys(d.spec.items), k, o.full_paths))
}

/// An edge is called for: by an entry of that very list, or by an access of that very direction.
pub open spec fn edge_called_for(l: Line, d: DeclV, o: OptionsV) -> bool {
    match l {
        Line::Declared { node, write, entry } => declares(d.spec.items, node, write, entry),
        Line::Found { node, key, m } => found(node, m, d, o) && spells(key, o.discovered[m]),
        _ => false,
    }
}

/// The readers of one signal, more than are drawn one by one.
pub open spec fn folds(
    signal: Seq<char>,
    readers: Seq<Line>,
    d: DeclV,
    o: OptionsV,
    p: PenV,
) -> bool {
    &&& 0 < o.max_fanout < readers.len()
    &&& forall|i: int|
        0 <= i < readers.len() ==> edge_called_for(#[trigger] readers[i], d, o) && is_read(
            readers[i],
            o,
        ) && named(p, "s"@, key_of_line(readers[i])) == signal
}

/// A node or pool without entries, without resources, and whose functions touch no signal.
pub open spec fn lone(item: ItemV, d: DeclV, o: OptionsV) -> bool {
    &&& match item {
        ItemV::Node(n) => n.writes.len() == 0 && n.reads.len() == 0 && n.resources.len() == 0,
        ItemV::Pool(x) => x.writes.len() == 0 && x.reads.len() == 0 && x.resources.len() == 0,
        ItemV::Executor(_) => false,
    }
    &&& !has_discovered_access(item, module_name(d.origin), o.discovered, o.bundles)
}

/// Some item of this name is alone.
pub open spec fn alone(name: Seq<char>, d: DeclV, o: OptionsV) -> bool {
    exists|k: int|
        0 <= k < d.spec.items.len() && boxed_name(#[trigger] d.spec.items[k]) == Some(name) && lone(
            d.spec.items[k],
            d,
            o,
        )
}

/// A node or pool has this dep, and the view shows it.
pub open spec fn needs(node: Seq<char>, dep: DepV, d: DeclV, o: OptionsV) -> bool {
    &&& exists|k: int|
        0 <= k < d.spec.items.len() && has_dep(#[trigger] d.spec.items[k], node, dep)
    &&& !o.runtime || o.runtime_deps || (o.anchor_uncoupled && (alone(node, d, o) || alone(
        dep.ident,
        d,
        o,
    )))
}

/// A shown dep needs this name, and no node or pool has it.
pub open spec fn outside(name: Seq<char>, d: DeclV, o: OptionsV) -> bool {
    &&& exists|node: Seq<char>, dep: DepV| #[trigger] needs(node, dep, d, o) && dep.ident == name
    &&& forall|k: int|
        0 <= k < d.spec.items.len() ==> boxed_name(#[trigger] d.spec.items[k]) != Some(name)
}

/// Some node or pool takes a resource of this name.
pub open spec fn has_slot(name: Seq<char>, items: Seq<ItemV>) -> bool {
    exists|k: int, node: Seq<char>, r: ResourceDeclV|
        0 <= k < items.len() && #[trigger] takes(items[k], node, r) && r.ident == name
}

/// The node `node` provides this resource.
pub open spec fn fills(item: ItemV, node: Seq<char>, x: ProvideDeclV) -> bool {
    item matches ItemV::Node(n) && n.ident == node && n.provides.contains(x)
}

/// A node or pool stands in the group of this name: that of its executor where the view shows
/// executors, else that of its fragment.
pub open spec fn groups_under(item: ItemV, name: Seq<char>, o: OptionsV) -> bool {
    let (executor, fragment) = match item {
        ItemV::Node(n) => (n.executor, n.fragment),
        ItemV::Pool(x) => (x.executor, x.fragment),
        ItemV::Executor(_) => (None, None),
    };
    &&& !(item is Executor)
    &&& if o.executors {
        match executor {
            Some(e) => name == "@"@ + e,
            None => name == "thread mode"@,
        }
    } else {
        o.fragments && fragment == Some(name)
    }
}

/// A name has this style.
pub open spec fn marked(class: Seq<char>, name: Seq<char>, d: DeclV, o: OptionsV) -> bool {
    ||| class == "external"@ && outside(name, d, o)
    ||| class == "disabled"@ && exists|k: int|
        0 <= k < d.spec.items.len() && off(#[trigger] d.spec.items[k], name)
    ||| class == "parked"@ && exists|k: int|
        0 <= k < d.spec.items.len() && idle(#[trigger] d.spec.items[k], name)
}

/// The node of this name starts disabled.
pub open spec fn off(item: ItemV, name: Seq<char>) -> bool {
    item matches ItemV::Node(n) && n.ident == name && n.disabled is Some
}

/// The node of this name has neither a task nor a `disabled` marker.
pub open spec fn idle(item: ItemV, name: Seq<char>) -> bool {
    item matches ItemV::Node(n) && n.ident == name && n.disabled is None && n.source is None
}

/// A line is called for.
pub open spec fn called_for(l: Line, d: DeclV, o: OptionsV, p: PenV) -> bool {
    let items = d.spec.items;
    match l {
        Line::Open { name } => exists|k: int|
            0 <= k < items.len() && groups_under(#[trigger] items[k], name, o),
        Line::Direction => true,
        Line::Close => true,
        Line::Item { item, .. } => items.contains(item) && !(item is Executor),
        Line::Click { item, template } => items.contains(item) && !(item is Executor) && o.links
            == Some(template),
        Line::Outside { name } => outside(name, d, o),
        Line::Dep { node, dep } => needs(node, dep, d, o),
        Line::Slot { name } => has_slot(name, items),
        Line::Take { node, resource } => exists|k: int|
            0 <= k < items.len() && takes(#[trigger] items[k], node, resource),
        Line::Provide { node, provide } => has_slot(provide.ident, items) && exists|k: int|
            0 <= k < items.len() && fills(#[trigger] items[k], node, provide),
        Line::Mark { class, names } => forall|i: int|
            0 <= i < names.len() ==> marked(class, #[trigger] names[i], d, o),
        Line::Slots { names } => forall|i: int|
            0 <= i < names.len() ==> has_slot(#[trigger] names[i], items),
        Line::Blank => true,
        Line::Signal { key, label } => has_signal(key, d, o) && labels_signal(key, label, d, o),
        Line::Declared { .. } => edge_called_for(l, d, o),
        Line::Found { .. } => edge_called_for(l, d, o),
        Line::Element { key, whole } => has_signal(key, d, o) && has_signal(whole, d, o)
            && element_of(key, whole),
        Line::Folded { signal, readers } => folds(signal, readers, d, o, p),
        Line::Fold { signal, readers } => folds(signal, readers, d, o, p),
        Line::Style { keys } => forall|i: int|
            0 <= i < keys.len() ==> has_signal(#[trigger] keys[i], d, o),
    }
}

/// Lines as they are written, each with its line end.
pub open spec fn sheet(lines: Seq<Line>, d: DeclV, o: OptionsV, p: PenV) -> Seq<char>
    decreases lines.len(),
{
    if lines.len() == 0 {
        Seq::empty()
    } else {
        sheet(lines.drop_last(), d, o, p) + written(lines.last(), d, o, p) + "\n"@
    }
}

/// Every one of the lines is called for.
pub open spec fn all_called_for(lines: Seq<Line>, d: DeclV, o: OptionsV, p: PenV) -> bool {
    forall|i: int| 0 <= i < lines.len() ==> called_for(#[trigger] lines[i], d, o, p)
}

spec fn adds(
    a: Seq<char>,
    b: Seq<char>,
    lines: Seq<Line>,
    d: DeclV,
    o: OptionsV,
    p: PenV,
) -> bool {
    b == a + sheet(lines, d, o, p) && all_called_for(lines, d, o, p)
}

proof fn lemma_adds_none(a: Seq<char>, d: DeclV, o: OptionsV, p: PenV)
    ensures
        adds(a, a, Seq::empty(), d, o, p),
{
    assert(a + Seq::<char>::empty() == a);
}

proof fn lemma_adds_one(a: Seq<char>, l: Line, d: DeclV, o: OptionsV, p: PenV)
    requires
        called_for(l, d, o, p),
    ensures
        adds(a, a + written(l, d, o, p) + "\n"@, seq![l], d, o, p),
{
    let lines = seq![l];
    assert(lines.drop_last() == Seq::<Line>::empty());
    assert(sheet(lines.drop_last(), d, o, p) == Seq::<char>::empty());
    assert(lines.last() == l);
    let t = written(l, d, o, p);
    assert(sheet(lines, d, o, p) == Seq::<char>::empty() + t + "\n"@);
    assert(a + t + "\n"@ == a + (Seq::<char>::empty() + t + "\n"@));
}

proof fn lemma_sheets(x: Seq<Line>, y: Seq<Line>, d: DeclV, o: OptionsV, p: PenV)
    ensures
        sheet(x + y, d, o, p) == sheet(x, d, o, p) + sheet(y, d, o, p),
    decreases y.len(),
{
    if y.len() == 0 {
        assert(x + y == x);
        assert(sheet(x, d, o, p) + Seq::<char>::empty() == sheet(x, d, o, p));
    } else {
        lemma_sheets(x, y.drop_last(), d, o, p);
        assert((x + y).drop_last() == x + y.drop_last());
        assert((x + y).last() == y.last());
        let a = sheet(x, d, o, p);
        let b = sheet(y.drop_last(), d, o, p);
        let t = written(y.last(), d, o, p);
        assert(a + b + t + "\n"@ == a + (b + t + "\n"@));
    }
}

proof fn lemma_adds_on(
    a: Seq<char>,
    b: Seq<char>,
    c: Seq<char>,
    x: Seq<Line>,
    y: Seq<Line>,
    d: DeclV,
    o: OptionsV,
    p: PenV,
)
    requires
        adds(a, b, x, d, o, p),
        adds(b, c, y, d, o, p),
    ensures
        adds(a, c, x + y, d, o, p),
{
    lemma_sheets(x, y, d, o, p);
    assert(a + sheet(x, d, o, p) + sheet(y, d, o, p) == a + (sheet(x, d, o, p) + sheet(y, d, o, p)));
    let all = x + y;
    assert forall|i: int| 0 <= i < all.len() implies called_for(#[trigger] all[i], d, o, p) by {
        if i < x.len() {
            assert(all[i] == x[i]);
        } else {
            assert(all[i] == y[i - x.len()]);
        }
    }
}

proof fn lemma_settled(a: PenV, p: PenV, prefix: Seq<char>, key: Seq<char>)
    requires
        follows(naming(a, prefix, key), p),
    ensures
        named(a, prefix, key) == named(p, prefix, key),
{
    lemma_named(a, prefix, key);
    lemma_known_on(naming(a, prefix, key), p, prefix, key);
}

proof fn lemma_signal_lines(
    entries: Seq<(Seq<char>, Seq<char>)>,
    i: int,
    flow: FlowV,
    d: DeclV,
    o: OptionsV,
    p: PenV,
) -> (lines: Seq<Line>)
    requires
        0 <= i,
        follows(draw_signals_from(entries, i, flow).pen, p),
        entries == labelled(signal_keys(d.spec.items), o.full_paths),
        forall|k: int| 0 <= k < entries.len() ==> has_signal((#[trigger] entries[k]).0, d, o),
        forall|k: int| 0 <= k < flow.emitted.len() ==> has_signal(#[trigger] flow.emitted[k], d, o),
    ensures
        adds(flow.pen.out, draw_signals_from(entries, i, flow).pen.out, lines, d, o, p),
        draw_signals_from(entries, i, flow).readers == flow.readers,
        ({
            let e = draw_signals_from(entries, i, flow).emitted;
            forall|k: int| 0 <= k < e.len() ==> has_signal(#[trigger] e[k], d, o)
        }),
    decreases entries.len() - i,
{
    if i < entries.len() {
        let x = entries[i];
        let next = draw_signals_step(x, flow);
        let last = draw_signals_from(entries, i + 1, next);
        lemma_signals(entries, i + 1, next, -1);
        lemma_naming(flow.pen, "s"@, x.0);
        lemma_wrote(
            naming(flow.pen, "s"@, x.0),
            "  "@ + named(flow.pen, "s"@, x.0) + "[/\""@ + escaped(
                unresolved_label(x.1),
            ) + "\"/]"@,
        );
        lemma_on(naming(flow.pen, "s"@, x.0), next.pen, last.pen);
        lemma_on(naming(flow.pen, "s"@, x.0), last.pen, p);
        lemma_settled(flow.pen, p, "s"@, x.0);
        let l = Line::Signal { key: x.0, label: unresolved_label(x.1) };
        assert(has_signal(x.0, d, o));
        assert(signal_keys(d.spec.items)[i].key == x.0);
        assert(labels_signal(x.0, unresolved_label(x.1), d, o));
        lemma_adds_one(flow.pen.out, l, d, o, p);
        let rest = lemma_signal_lines(entries, i + 1, next, d, o, p);
        lemma_adds_on(flow.pen.out, next.pen.out, last.pen.out, seq![l], rest, d, o, p);
        seq![l] + rest
    } else {
        lemma_adds_none(flow.pen.out, d, o, p);
        Seq::empty()
    }
}

/// A reader kept to be drawn later is called for, and is kept as it will be written.
spec fn kept(r: ReaderV, l: Line, d: DeclV, o: OptionsV, p: PenV) -> bool {
    &&& edge_called_for(l, d, o)
    &&& is_read(l, o)
    &&& r.node == node_of(l)
    &&& r.signal == named(p, "s"@, key_of_line(l))
    &&& "  "@ + r.edge == written(l, d, o, p)
}

spec fn is_kept(r: ReaderV, d: DeclV, o: OptionsV, p: PenV) -> bool {
    exists|l: Line| kept(r, l, d, o, p)
}

spec fn all_kept(readers: Seq<ReaderV>, d: DeclV, o: OptionsV, p: PenV) -> bool {
    forall|i: int| 0 <= i < readers.len() ==> is_kept(#[trigger] readers[i], d, o, p)
}

proof fn lemma_kept_one(readers: Seq<ReaderV>, r: ReaderV, l: Line, d: DeclV, o: OptionsV, p: PenV)
    requires
        all_kept(readers, d, o, p),
        kept(r, l, d, o, p),
    ensures
        all_kept(readers.push(r), d, o, p),
{
    let all = readers.push(r);
    assert forall|i: int| 0 <= i < all.len() implies is_kept(#[trigger] all[i], d, o, p) by {
        if i < readers.len() {
            assert(all[i] == readers[i]);
        }
    }
}

proof fn lemma_coupling_lines(
    list: Seq<CouplingV>,
    i: int,
    flow: FlowV,
    d: DeclV,
    o: OptionsV,
    p: PenV,
) -> (lines: Seq<Line>)
    requires
        0 <= i,
        follows(draw_couplings_from(list, o, !o.runtime, i, flow).pen, p),
        forall|k: int|
            0 <= k < list.len() ==> declares(
                d.spec.items,
                (#[trigger] list[k]).node,
                list[k].write,
                list[k].sig,
            ),
        all_kept(flow.readers, d, o, p),
    ensures
        adds(
            flow.pen.out,
            draw_couplings_from(list, o, !o.runtime, i, flow).pen.out,
            lines,
            d,
            o,
            p,
        ),
        all_kept(draw_couplings_from(list, o, !o.runtime, i, flow).readers, d, o, p),
        draw_couplings_from(list, o, !o.runtime, i, flow).emitted == flow.emitted,
    decreases list.len() - i,
{
    let dotted = !o.runtime;
    if i < list.len() {
        let c = list[i];
        let name = signal_name(c.sig);
        let next = draw_couplings_step(c, o, dotted, flow);
        let last = draw_couplings_from(list, o, dotted, i + 1, next);
        let mid = naming(flow.pen, "n"@, c.node);
        let pen = naming(mid, "s"@, name);
        let l = Line::Declared { node: c.node, write: c.write, entry: c.sig };
        lemma_couplings(list, o, dotted, i + 1, next, -1);
        lemma_naming(flow.pen, "n"@, c.node);
        lemma_naming(mid, "s"@, name);
        if c.write {
            lemma_wrote(
                pen,
                "  "@ + crate::label::signal_edge(
                    named(flow.pen, "n"@, c.node),
                    named(mid, "s"@, name),
                    coupling_label(c.sig, o.show_cfg),
                    dotted,
                ),
            );
        } else {
            lemma_still(pen);
        }
        lemma_on(pen, next.pen, last.pen);
        lemma_on(pen, last.pen, p);
        lemma_on(mid, pen, p);
        lemma_settled(flow.pen, p, "n"@, c.node);
        lemma_settled(mid, p, "s"@, name);
        assert(edge_called_for(l, d, o));
        if c.write {
            assert(next.pen.out == flow.pen.out + written(l, d, o, p) + "\n"@);
            lemma_adds_one(flow.pen.out, l, d, o, p);
            let rest = lemma_coupling_lines(list, i + 1, next, d, o, p);
            lemma_adds_on(flow.pen.out, next.pen.out, last.pen.out, seq![l], rest, d, o, p);
            seq![l] + rest
        } else {
            lemma_kept_one(flow.readers, next.readers.last(), l, d, o, p);
            lemma_coupling_lines(list, i + 1, next, d, o, p)
        }
    } else {
        lemma_adds_none(flow.pen.out, d, o, p);
        Seq::empty()
    }
}

spec fn all_alias(list: Seq<Seq<char>>, path: Seq<char>) -> bool {
    forall|k: int| 0 <= k < list.len() ==> paths_alias(#[trigger] list[k], path)
}

proof fn lemma_alias_listed(list: Seq<Seq<char>>, path: Seq<char>, i: int, acc: Seq<Seq<char>>)
    requires
        0 <= i,
        all_alias(acc, path),
    ensures
        all_alias(aliases_from(list, path, i, acc), path),
    decreases list.len() - i,
{
    if i < list.len() {
        if paths_alias(list[i], path) {
            let next = acc.push(list[i]);
            assert forall|k: int| 0 <= k < next.len() implies paths_alias(
                #[trigger] next[k],
                path,
            ) by {
                if k < acc.len() {
                    assert(next[k] == acc[k]);
                }
            }
            lemma_alias_listed(list, path, i + 1, next);
        } else {
            lemma_alias_listed(list, path, i + 1, acc);
        }
    }
}

proof fn lemma_spelled(x: DiscoveredV, emitted: Seq<Seq<char>>, declared: Seq<Seq<char>>)
    ensures
        spells(discovered_key(x, emitted, declared), x),
{
    let raw = x.access.path;
    let qualified = x.module + "::"@ + raw;
    lemma_alias_listed(emitted, raw, 0, Seq::empty());
    lemma_alias_listed(emitted, qualified, 0, Seq::empty());
    lemma_alias_listed(declared, raw, 0, Seq::empty());
    if !x.relative {
        if aliases(emitted, raw).len() > 0 {
            assert(paths_alias(aliases(emitted, raw)[0], raw));
        }
    } else if aliases(emitted, qualified).len() > 0 {
        assert(paths_alias(aliases(emitted, qualified)[0], qualified));
    } else if aliases(declared, raw).len() == 1 {
        assert(paths_alias(aliases(declared, raw)[0], raw));
    }
}

spec fn all_signals(keys: Seq<Seq<char>>, d: DeclV, o: OptionsV) -> bool {
    forall|k: int| 0 <= k < keys.len() ==> has_signal(#[trigger] keys[k], d, o)
}

proof fn lemma_box_lines(
    key: Seq<char>,
    flow: FlowV,
    d: DeclV,
    o: OptionsV,
    p: PenV,
) -> (lines: Seq<Line>)
    requires
        follows(with_box(key, o, flow).pen, p),
        has_signal(key, d, o),
        all_signals(flow.emitted, d, o),
    ensures
        adds(flow.pen.out, with_box(key, o, flow).pen.out, lines, d, o, p),
        all_signals(with_box(key, o, flow).emitted, d, o),
        with_box(key, o, flow).readers == flow.readers,
{
    if flow.emitted.contains(key) {
        lemma_adds_none(flow.pen.out, d, o, p);
        Seq::empty()
    } else {
        let label = if o.full_paths {
            key
        } else {
            after_last(key, "::"@)
        };
        let next = with_box(key, o, flow);
        let mid = naming(flow.pen, "s"@, key);
        lemma_wrote(
            mid,
            "  "@ + named(flow.pen, "s"@, key) + "[/\""@ + escaped(label) + "\"/]"@,
        );
        lemma_on(mid, next.pen, p);
        lemma_settled(flow.pen, p, "s"@, key);
        let l = Line::Signal { key, label };
        lemma_adds_one(flow.pen.out, l, d, o, p);
        seq![l]
    }
}

proof fn lemma_access_lines(
    node: Seq<char>,
    node_id: Seq<char>,
    m: int,
    declared: Seq<Seq<char>>,
    flow: FlowV,
    d: DeclV,
    o: OptionsV,
    p: PenV,
) -> (lines: Seq<Line>)
    requires
        follows(
            draw_access(node, node_id, o.discovered[m], declared, o, !o.runtime, flow).pen,
            p,
        ),
        known(flow.pen, "n"@, node),
        node_id == named(flow.pen, "n"@, node),
        node_id == named(p, "n"@, node),
        found(node, m, d, o),
        all_kept(flow.readers, d, o, p),
        all_signals(flow.emitted, d, o),
    ensures
        ({
            let r = draw_access(node, node_id, o.discovered[m], declared, o, !o.runtime, flow);
            &&& adds(flow.pen.out, r.pen.out, lines, d, o, p)
            &&& all_kept(r.readers, d, o, p)
            &&& all_signals(r.emitted, d, o)
        }),
{
    let dotted = !o.runtime;
    let x = o.discovered[m];
    let key = discovered_key(x, flow.emitted, declared);
    let boxed = with_box(key, o, flow);
    let sig = named(boxed.pen, "s"@, key);
    let pen = naming(boxed.pen, "s"@, key);
    let label = access_label(x, o.show_cfg);
    let next = draw_access(node, node_id, x, declared, o, dotted, flow);
    lemma_spelled(x, flow.emitted, declared);
    assert(has_signal(key, d, o));
    lemma_naming(boxed.pen, "s"@, key);
    lemma_still(pen);
    if x.access.write {
        lemma_wrote(pen, "  "@ + crate::label::signal_edge(node_id, sig, label, dotted));
    }
    lemma_on(pen, next.pen, p);
    lemma_on(boxed.pen, pen, p);
    lemma_settled(boxed.pen, p, "s"@, key);
    let first = lemma_box_lines(key, flow, d, o, p);
    let l = Line::Found { node, key, m };
    if x.access.write {
        assert(next.pen.out == boxed.pen.out + written(l, d, o, p) + "\n"@);
        lemma_adds_one(boxed.pen.out, l, d, o, p);
        lemma_adds_on(flow.pen.out, boxed.pen.out, next.pen.out, first, seq![l], d, o, p);
        first + seq![l]
    } else {
        let r = ReaderV {
            signal: sig,
            node,
            edge: crate::label::signal_edge(sig, node_id, label, dotted),
        };
        assert(kept(r, l, d, o, p));
        lemma_kept_one(boxed.readers, r, l, d, o, p);
        first
    }
}

proof fn lemma_accesses_lines(
    k: int,
    node_id: Seq<char>,
    declared: Seq<Seq<char>>,
    j: int,
    flow: FlowV,
    d: DeclV,
    o: OptionsV,
    p: PenV,
) -> (lines: Seq<Line>)
    requires
        0 <= j,
        0 <= k < d.spec.items.len(),
        boxed_name(d.spec.items[k]) is Some,
        flow_fns(d.spec.items[k], o.bundles).len() > 0,
        follows(
            draw_accesses(
                flow_fns(d.spec.items[k], o.bundles),
                module_name(d.origin),
                boxed_name(d.spec.items[k])->0,
                node_id,
                declared,
                o,
                !o.runtime,
                j,
                flow,
            ).pen,
            p,
        ),
        known(flow.pen, "n"@, boxed_name(d.spec.items[k])->0),
        node_id == named(flow.pen, "n"@, boxed_name(d.spec.items[k])->0),
        all_kept(flow.readers, d, o, p),
        all_signals(flow.emitted, d, o),
    ensures
        ({
            let r = draw_accesses(
                flow_fns(d.spec.items[k], o.bundles),
                module_name(d.origin),
                boxed_name(d.spec.items[k])->0,
                node_id,
                declared,
                o,
                !o.runtime,
                j,
                flow,
            );
            &&& adds(flow.pen.out, r.pen.out, lines, d, o, p)
            &&& all_kept(r.readers, d, o, p)
            &&& all_signals(r.emitted, d, o)
        }),
    decreases o.discovered.len() - j,
{
    let dotted = !o.runtime;
    let item = d.spec.items[k];
    let funcs = flow_fns(item, o.bundles);
    let module = module_name(d.origin);
    let node = boxed_name(item)->0;
    if j < o.discovered.len() {
        let x = o.discovered[j];
        if first_access(funcs, o.discovered, module, j) {
            let next = draw_access(node, node_id, x, declared, o, dotted, flow);
            let last = draw_accesses(funcs, module, node, node_id, declared, o, dotted, j + 1, next);
            lemma_access(node, x, declared, o, dotted, flow);
            lemma_known_on(flow.pen, next.pen, "n"@, node);
            lemma_accesses(funcs, module, node, node_id, declared, o, dotted, j + 1, next, -1);
            lemma_on(next.pen, last.pen, p);
            lemma_known_on(next.pen, p, "n"@, node);
            assert(makes_access(item, module, o, j));
            assert(found(node, j, d, o));
            let first = lemma_access_lines(node, node_id, j, declared, flow, d, o, p);
            let rest = lemma_accesses_lines(k, node_id, declared, j + 1, next, d, o, p);
            lemma_adds_on(flow.pen.out, next.pen.out, last.pen.out, first, rest, d, o, p);
            first + rest
        } else {
            lemma_accesses_lines(k, node_id, declared, j + 1, flow, d, o, p)
        }
    } else {
        lemma_adds_none(flow.pen.out, d, o, p);
        Seq::empty()
    }
}

proof fn lemma_discovered_lines(
    declared: Seq<Seq<char>>,
    i: int,
    flow: FlowV,
    d: DeclV,
    o: OptionsV,
    p: PenV,
) -> (lines: Seq<Line>)
    requires
        0 <= i,
        follows(
            draw_discovered_from(
                d.spec.items,
                module_name(d.origin),
                declared,
                o,
                !o.runtime,
                i,
                flow,
            ).pen,
            p,
        ),
        all_kept(flow.readers, d, o, p),
        all_signals(flow.emitted, d, o),
    ensures
        ({
            let r = draw_discovered_from(
                d.spec.items,
                module_name(d.origin),
                declared,
                o,
                !o.runtime,
                i,
                flow,
            );
            &&& adds(flow.pen.out, r.pen.out, lines, d, o, p)
            &&& all_kept(r.readers, d, o, p)
            &&& all_signals(r.emitted, d, o)
        }),
    decreases d.spec.items.len() - i,
{
    let dotted = !o.runtime;
    let items = d.spec.items;
    let module = module_name(d.origin);
    if i < items.len() {
        let item = items[i];
        let funcs = flow_fns(item, o.bundles);
        let next = draw_discovered_step(item, module, declared, o, dotted, flow);
        let last = draw_discovered_from(items, module, declared, o, dotted, i + 1, next);
        if boxed_name(item) is Some && funcs.len() > 0 {
            let name = boxed_name(item)->0;
            let id = named(flow.pen, "n"@, name);
            let opened = FlowV {
                pen: naming(flow.pen, "n"@, name),
                emitted: flow.emitted,
                readers: flow.readers,
            };
            lemma_named(flow.pen, "n"@, name);
            lemma_discovered(items, module, declared, o, dotted, i + 1, next, -1, -1);
            lemma_on(next.pen, last.pen, p);
            let first = lemma_accesses_lines(i, id, declared, 0, opened, d, o, p);
            let rest = lemma_discovered_lines(declared, i + 1, next, d, o, p);
            lemma_adds_on(flow.pen.out, next.pen.out, last.pen.out, first, rest, d, o, p);
            first + rest
        } else {
            lemma_discovered_lines(declared, i + 1, flow, d, o, p)
        }
    } else {
        lemma_adds_none(flow.pen.out, d, o, p);
        Seq::empty()
    }
}

proof fn lemma_whole_listed(names: Seq<Seq<char>>, base: Seq<char>, i: int)
    requires
        0 <= i,
    ensures
        whole_from(names, base, i) matches Some(w) ==> spells_array(base, w) && !contains(w, "["@)
            && exists|k: int| 0 <= k < names.len() && #[trigger] names[k] == w,
    decreases names.len() - i,
{
    if i < names.len() {
        lemma_whole_listed(names, base, i + 1);
    }
}

proof fn lemma_element(names: Seq<Seq<char>>, key: Seq<char>)
    ensures
        whole_of(names, key) matches Some(w) ==> element_of(key, w) && exists|k: int|
            0 <= k < names.len() && #[trigger] names[k] == w,
{
    crate::text::lemma_find_from(key, "["@, 0);
    if let Some(at) = crate::text::find(key, "["@) {
        lemma_whole_listed(names, trimmed_end(key.take(at)), 0);
        reveal_strlit("[");
        assert("["@ == seq!['[']);
        assert(key.subrange(at, at + 1)[0] == '[');
        assert forall|i: int| 0 <= i < at implies key[i] != '[' by {
            if key[i] == '[' {
                assert(key.subrange(i, i + 1) =~= seq!['[']);
                assert(crate::text::stands_at(key, i, "["@));
            }
        }
        assert(key[at] == '[');
    }
}

proof fn lemma_element_lines(
    names: Seq<Seq<char>>,
    i: int,
    pen: PenV,
    d: DeclV,
    o: OptionsV,
    p: PenV,
) -> (lines: Seq<Line>)
    requires
        0 <= i,
        follows(draw_elements_from(names, i, pen), p),
        all_signals(names, d, o),
    ensures
        adds(pen.out, draw_elements_from(names, i, pen).out, lines, d, o, p),
    decreases names.len() - i,
{
    if i < names.len() {
        let next = draw_elements_step(names[i], names, pen);
        let last = draw_elements_from(names, i + 1, next);
        if let Some(whole) = whole_of(names, names[i]) {
            let mid = naming(pen, "s"@, names[i]);
            let far = naming(mid, "s"@, whole);
            lemma_elements(names, i + 1, next);
            lemma_naming(pen, "s"@, names[i]);
            lemma_naming(mid, "s"@, whole);
            lemma_wrote(
                far,
                "  "@ + named(pen, "s"@, names[i]) + " -. \"element of\" .- "@ + named(
                    mid,
                    "s"@,
                    whole,
                ),
            );
            lemma_on(far, next, last);
            lemma_on(far, last, p);
            lemma_on(mid, far, p);
            lemma_settled(pen, p, "s"@, names[i]);
            lemma_settled(mid, p, "s"@, whole);
            lemma_element(names, names[i]);
            let l = Line::Element { key: names[i], whole };
            assert(has_signal(names[i], d, o));
            lemma_adds_one(pen.out, l, d, o, p);
            let rest = lemma_element_lines(names, i + 1, next, d, o, p);
            lemma_adds_on(pen.out, next.out, last.out, seq![l], rest, d, o, p);
            seq![l] + rest
        } else {
            lemma_element_lines(names, i + 1, pen, d, o, p)
        }
    } else {
        lemma_adds_none(pen.out, d, o, p);
        Seq::empty()
    }
}

spec fn line_of(r: ReaderV, d: DeclV, o: OptionsV, p: PenV) -> Line {
    choose|l: Line| kept(r, l, d, o, p)
}

proof fn lemma_mine(
    readers: Seq<ReaderV>,
    signal: Seq<char>,
    i: int,
    acc: Seq<ReaderV>,
    d: DeclV,
    o: OptionsV,
    p: PenV,
)
    requires
        0 <= i,
        all_kept(readers, d, o, p),
        all_kept(acc, d, o, p),
        forall|k: int| 0 <= k < acc.len() ==> (#[trigger] acc[k]).signal == signal,
    ensures
        all_kept(readers_of_from(readers, signal, i, acc), d, o, p),
        ({
            let r = readers_of_from(readers, signal, i, acc);
            forall|k: int| 0 <= k < r.len() ==> (#[trigger] r[k]).signal == signal
        }),
    decreases readers.len() - i,
{
    if i < readers.len() {
        let next = if readers[i].signal == signal {
            acc.push(readers[i])
        } else {
            acc
        };
        assert(is_kept(readers[i], d, o, p));
        lemma_mine(readers, signal, i + 1, next, d, o, p);
    }
}

proof fn lemma_edge_lines(
    readers: Seq<ReaderV>,
    i: int,
    pen: PenV,
    d: DeclV,
    o: OptionsV,
    p: PenV,
) -> (lines: Seq<Line>)
    requires
        0 <= i,
        all_kept(readers, d, o, p),
    ensures
        adds(pen.out, draw_edges_from(readers, i, pen).out, lines, d, o, p),
    decreases readers.len() - i,
{
    if i < readers.len() {
        let r = readers[i];
        let l = line_of(r, d, o, p);
        assert(is_kept(r, d, o, p));
        assert(kept(r, l, d, o, p));
        let next = draw_edges_step(r, pen);
        lemma_adds_one(pen.out, l, d, o, p);
        let rest = lemma_edge_lines(readers, i + 1, next, d, o, p);
        lemma_adds_on(
            pen.out,
            next.out,
            draw_edges_from(readers, i + 1, next).out,
            seq![l],
            rest,
            d,
            o,
            p,
        );
        seq![l] + rest
    } else {
        lemma_adds_none(pen.out, d, o, p);
        Seq::empty()
    }
}

proof fn lemma_reader_lines(
    signals: Seq<Seq<char>>,
    readers: Seq<ReaderV>,
    i: int,
    pen: PenV,
    d: DeclV,
    o: OptionsV,
    p: PenV,
) -> (lines: Seq<Line>)
    requires
        0 <= i,
        all_kept(readers, d, o, p),
    ensures
        adds(
            pen.out,
            draw_readers_from(signals, readers, o, !o.runtime, i, pen).out,
            lines,
            d,
            o,
            p,
        ),
    decreases signals.len() - i,
{
    let dotted = !o.runtime;
    if i < signals.len() {
        let signal = signals[i];
        let next = draw_readers_step(signal, readers, o, dotted, pen);
        let last = draw_readers_from(signals, readers, o, dotted, i + 1, next);
        let mine = readers_of_from(readers, signal, 0, Seq::empty());
        lemma_mine(readers, signal, 0, Seq::empty(), d, o, p);
        let rest = lemma_reader_lines(signals, readers, i + 1, next, d, o, p);
        let first = if o.max_fanout > 0 && mine.len() > o.max_fanout {
            let members = Seq::new(mine.len(), |k: int| line_of(mine[k], d, o, p));
            assert forall|k: int| 0 <= k < members.len() implies kept(
                mine[k],
                #[trigger] members[k],
                d,
                o,
                p,
            ) by {
                assert(is_kept(mine[k], d, o, p));
            }
            assert(Seq::new(members.len(), |k: int| node_of(members[k])) == reader_nodes(mine));
            let box_line = Line::Folded { signal, readers: members };
            let edge_line = Line::Fold { signal, readers: members };
            assert(folds(signal, members, d, o, p));
            reveal_strlit("");
            assert(""@ == Seq::<char>::empty());
            let mid = pen.out + written(box_line, d, o, p) + "\n"@;
            lemma_adds_one(pen.out, box_line, d, o, p);
            lemma_adds_one(mid, edge_line, d, o, p);
            assert(next.out == mid + written(edge_line, d, o, p) + "\n"@);
            lemma_adds_on(pen.out, mid, next.out, seq![box_line], seq![edge_line], d, o, p);
            seq![box_line] + seq![edge_line]
        } else {
            lemma_edge_lines(mine, 0, pen, d, o, p)
        };
        lemma_adds_on(pen.out, next.out, last.out, first, rest, d, o, p);
        first + rest
    } else {
        lemma_adds_none(pen.out, d, o, p);
        Seq::empty()
    }
}

pub(crate) proof fn lemma_all_named(
    a: PenV,
    prefix: Seq<char>,
    keys: Seq<Seq<char>>,
    i: int,
    acc: Seq<Seq<char>>,
    p: PenV,
)
    requires
        0 <= i <= keys.len(),
        acc.len() == i,
        follows(named_from(a, prefix, keys, i, acc).0, p),
        forall|k: int| 0 <= k < i ==> acc[k] == named(p, prefix, #[trigger] keys[k]),
    ensures
        named_from(a, prefix, keys, i, acc).1 == Seq::new(
            keys.len(),
            |k: int| named(p, prefix, keys[k]),
        ),
        named_from(a, prefix, keys, i, acc).0.out == a.out,
    decreases keys.len() - i,
{
    if i < keys.len() {
        let next = naming(a, prefix, keys[i]);
        let more = acc.push(named(a, prefix, keys[i]));
        crate::drawn::lemma_names(next, prefix, keys, i + 1, more);
        lemma_on(next, named_from(next, prefix, keys, i + 1, more).0, p);
        lemma_settled(a, p, prefix, keys[i]);
        lemma_all_named(next, prefix, keys, i + 1, more, p);
    } else {
        assert(acc =~= Seq::new(keys.len(), |k: int| named(p, prefix, keys[k])));
    }
}

proof fn lemma_style_lines(
    keys: Seq<Seq<char>>,
    pen: PenV,
    d: DeclV,
    o: OptionsV,
    p: PenV,
) -> (lines: Seq<Line>)
    requires
        follows(draw_class("s"@, keys, "signal"@, pen), p),
        all_signals(keys, d, o),
    ensures
        adds(pen.out, draw_class("s"@, keys, "signal"@, pen).out, lines, d, o, p),
{
    if keys.len() == 0 {
        lemma_adds_none(pen.out, d, o, p);
        Seq::empty()
    } else {
        let (after, ids) = all_named(pen, "s"@, keys);
        let text = "  class "@ + joined(ids, ","@) + " "@ + "signal"@ + ";"@;
        lemma_wrote(after, text);
        lemma_on(after, wrote(after, text), p);
        lemma_all_named(pen, "s"@, keys, 0, Seq::empty(), p);
        let l = Line::Style { keys };
        lemma_adds_one(pen.out, l, d, o, p);
        seq![l]
    }
}

proof fn lemma_flow_lines(d: DeclV, o: OptionsV) -> (lines: Seq<Line>)
    requires
        o.signals || o.runtime,
    ensures
        adds(after_deps(d, o).out, after_flow(d, o).out, lines, d, o, chart(d, o)),
{
    let p = chart(d, o);
    let items = d.spec.items;
    let module = module_name(d.origin);
    let dotted = !o.runtime;
    assert(dotted == (o.signals && !o.runtime));
    let pen = after_deps(d, o);
    let start = FlowV { pen: wrote(pen, ""@), emitted: Seq::empty(), readers: Seq::empty() };
    let entries = labelled(signal_keys(items), o.full_paths);
    let list = couplings(items);
    let boxes = draw_signals_from(entries, 0, start);
    let edges = draw_couplings_from(list, o, dotted, 0, boxes);
    let all = draw_discovered_from(items, module, edges.emitted, o, dotted, 0, edges);
    let elements = draw_elements_from(all.emitted, 0, all.pen);
    let signals = ordered(reader_signals(all.readers));
    let read = draw_readers_from(signals, all.readers, o, dotted, 0, elements);
    let last = draw_flow(items, module, o, pen);
    lemma_stages(d, o);
    assert(last == after_flow(d, o));
    lemma_couplings(list, o, dotted, 0, boxes, -1);
    lemma_discovered(items, module, edges.emitted, o, dotted, 0, edges, -1, -1);
    lemma_elements(all.emitted, 0, all.pen);
    lemma_readers_still(signals, all.readers, o, dotted, 0, elements);
    lemma_class("s"@, all.emitted, "signal"@, read);
    lemma_on(read, last, p);
    lemma_on(elements, read, p);
    lemma_on(all.pen, elements, p);
    lemma_on(edges.pen, all.pen, p);
    lemma_on(boxes.pen, edges.pen, p);
    assert forall|k: int| 0 <= k < entries.len() implies has_signal(
        (#[trigger] entries[k]).0,
        d,
        o,
    ) by {
        let key = entries[k].0;
        assert(signal_keys(items)[k].key == key);
        assert(has_key(signal_keys(items), key));
        the_signals_are_those_of_the_entries(items, key);
    }
    assert forall|k: int| 0 <= k < list.len() implies declares(
        items,
        (#[trigger] list[k]).node,
        list[k].write,
        list[k].sig,
    ) by {
        assert(list.contains(list[k]));
        the_couplings_are_the_entries(items, list[k]);
    }
    lemma_adds_one(pen.out, Line::Blank, d, o, p);
    let a = seq![Line::Blank];
    let b = lemma_signal_lines(entries, 0, start, d, o, p);
    lemma_adds_on(pen.out, start.pen.out, boxes.pen.out, a, b, d, o, p);
    let c = lemma_coupling_lines(list, 0, boxes, d, o, p);
    lemma_adds_on(pen.out, boxes.pen.out, edges.pen.out, a + b, c, d, o, p);
    let e = lemma_discovered_lines(edges.emitted, 0, edges, d, o, p);
    lemma_adds_on(pen.out, edges.pen.out, all.pen.out, a + b + c, e, d, o, p);
    let f = lemma_element_lines(all.emitted, 0, all.pen, d, o, p);
    lemma_adds_on(pen.out, all.pen.out, elements.out, a + b + c + e, f, d, o, p);
    let g = lemma_reader_lines(signals, all.readers, 0, elements, d, o, p);
    lemma_adds_on(pen.out, elements.out, read.out, a + b + c + e + f, g, d, o, p);
    let h = lemma_style_lines(all.emitted, read, d, o, p);
    lemma_adds_on(pen.out, read.out, last.out, a + b + c + e + f + g, h, d, o, p);
    a + b + c + e + f + g + h
}

proof fn lemma_member_lines(
    group: Option<Seq<char>>,
    deep: bool,
    i: int,
    pen: PenV,
    d: DeclV,
    o: OptionsV,
    p: PenV,
) -> (lines: Seq<Line>)
    requires
        0 <= i,
        follows(
            draw_members_from(
                d.spec.items,
                group,
                o,
                if deep {
                    "    "@
                } else {
                    "  "@
                },
                i,
                pen,
            ),
            p,
        ),
    ensures
        adds(
            pen.out,
            draw_members_from(
                d.spec.items,
                group,
                o,
                if deep {
                    "    "@
                } else {
                    "  "@
                },
                i,
                pen,
            ).out,
            lines,
            d,
            o,
            p,
        ),
    decreases d.spec.items.len() - i,
{
    let items = d.spec.items;
    let indent = if deep {
        "    "@
    } else {
        "  "@
    };
    if i < items.len() {
        let item = items[i];
        let next = draw_members_step(item, group, o, indent, pen);
        let last = draw_members_from(items, group, o, indent, i + 1, next);
        if in_group(item, group, o) {
            let name = boxed_name(item)->0;
            let mid = naming(pen, "n"@, name);
            let text = indent + shape_of(named(pen, "n"@, name), item, o.show_cfg);
            lemma_members(items, group, o, indent, i + 1, next, -1);
            lemma_wrote(mid, text);
            lemma_on(mid, next, last);
            lemma_on(mid, last, p);
            lemma_settled(pen, p, "n"@, name);
            let l = Line::Item { item, deep };
            assert(items.contains(item));
            assert(written(l, d, o, p) == text);
            lemma_adds_one(pen.out, l, d, o, p);
            let rest = lemma_member_lines(group, deep, i + 1, next, d, o, p);
            lemma_adds_on(pen.out, next.out, last.out, seq![l], rest, d, o, p);
            seq![l] + rest
        } else {
            lemma_member_lines(group, deep, i + 1, pen, d, o, p)
        }
    } else {
        lemma_adds_none(pen.out, d, o, p);
        Seq::empty()
    }
}

proof fn lemma_group_lines(
    group: Option<Seq<char>>,
    many: bool,
    pen: PenV,
    d: DeclV,
    o: OptionsV,
    p: PenV,
) -> (lines: Seq<Line>)
    requires
        many ==> o.fragments || o.executors,
        follows(draw_groups_step(d.spec.items, group, many, o, pen), p),
    ensures
        adds(pen.out, draw_groups_step(d.spec.items, group, many, o, pen).out, lines, d, o, p),
{
    let items = d.spec.items;
    if !has_members(items, group, o) {
        lemma_adds_none(pen.out, d, o, p);
        Seq::empty()
    } else if group is Some && many {
        let name = group->0;
        let mid = naming(pen, "f"@, name);
        let head = "  subgraph "@ + named(pen, "f"@, name) + "[\""@ + escaped(name) + "\"]"@;
        let first = wrote(mid, head);
        let opened = wrote(first, "    direction "@ + o.direction);
        let full = draw_members_from(items, group, o, "    "@, 0, opened);
        let last = wrote(full, "  end"@);
        lemma_wrote(mid, head);
        lemma_wrote(first, "    direction "@ + o.direction);
        lemma_members(items, group, o, "    "@, 0, opened, -1);
        lemma_wrote(full, "  end"@);
        lemma_on(full, last, p);
        lemma_on(opened, full, p);
        lemma_on(first, opened, p);
        lemma_on(mid, first, p);
        lemma_settled(pen, p, "f"@, name);
        let k = choose|k: int|
            0 <= k < items.len() && in_group(#[trigger] items[k], group, o);
        let l = Line::Open { name };
        assert(groups_under(items[k], name, o));
        lemma_adds_one(pen.out, l, d, o, p);
        lemma_adds_one(first.out, Line::Direction, d, o, p);
        lemma_adds_on(
            pen.out,
            first.out,
            opened.out,
            seq![l],
            seq![Line::Direction],
            d,
            o,
            p,
        );
        let inner = lemma_member_lines(group, true, 0, opened, d, o, p);
        let x = seq![l] + seq![Line::Direction];
        lemma_adds_on(pen.out, opened.out, full.out, x, inner, d, o, p);
        lemma_adds_one(full.out, Line::Close, d, o, p);
        lemma_adds_on(pen.out, full.out, last.out, x + inner, seq![Line::Close], d, o, p);
        x + inner + seq![Line::Close]
    } else {
        lemma_member_lines(group, false, 0, pen, d, o, p)
    }
}

proof fn lemma_groups_lines(
    groups: Seq<Option<Seq<char>>>,
    many: bool,
    i: int,
    pen: PenV,
    d: DeclV,
    o: OptionsV,
    p: PenV,
) -> (lines: Seq<Line>)
    requires
        0 <= i,
        many ==> o.fragments || o.executors,
        follows(draw_groups_from(d.spec.items, groups, many, o, i, pen), p),
    ensures
        adds(pen.out, draw_groups_from(d.spec.items, groups, many, o, i, pen).out, lines, d, o, p),
    decreases groups.len() - i,
{
    let items = d.spec.items;
    if i < groups.len() {
        let next = draw_groups_step(items, groups[i], many, o, pen);
        let last = draw_groups_from(items, groups, many, o, i + 1, next);
        lemma_groups(items, groups, many, o, i + 1, next, -1, -1);
        lemma_on(next, last, p);
        let first = lemma_group_lines(groups[i], many, pen, d, o, p);
        let rest = lemma_groups_lines(groups, many, i + 1, next, d, o, p);
        lemma_adds_on(pen.out, next.out, last.out, first, rest, d, o, p);
        first + rest
    } else {
        lemma_adds_none(pen.out, d, o, p);
        Seq::empty()
    }
}

proof fn lemma_link_lines(
    template: Seq<char>,
    i: int,
    pen: PenV,
    d: DeclV,
    o: OptionsV,
    p: PenV,
) -> (lines: Seq<Line>)
    requires
        0 <= i,
        o.links == Some(template),
        follows(draw_links_from(d, o, template, d.spec.items, i, pen), p),
    ensures
        adds(pen.out, draw_links_from(d, o, template, d.spec.items, i, pen).out, lines, d, o, p),
    decreases d.spec.items.len() - i,
{
    let items = d.spec.items;
    if i < items.len() {
        let item = items[i];
        let next = draw_links_step(d, o, template, item, pen);
        let last = draw_links_from(d, o, template, items, i + 1, next);
        if let Some(name) = boxed_name(item) {
            let mid = naming(pen, "n"@, name);
            let text = "  click "@ + named(pen, "n"@, name) + " \""@ + escaped(
                link_url(d, o, template, item),
            ) + "\""@;
            lemma_links(d, o, template, items, i + 1, next);
            lemma_wrote(mid, text);
            lemma_on(mid, next, last);
            lemma_on(mid, last, p);
            lemma_settled(pen, p, "n"@, name);
            let l = Line::Click { item, template };
            assert(items.contains(item));
            lemma_adds_one(pen.out, l, d, o, p);
            let rest = lemma_link_lines(template, i + 1, next, d, o, p);
            lemma_adds_on(pen.out, next.out, last.out, seq![l], rest, d, o, p);
            seq![l] + rest
        } else {
            lemma_link_lines(template, i + 1, pen, d, o, p)
        }
    } else {
        lemma_adds_none(pen.out, d, o, p);
        Seq::empty()
    }
}

proof fn lemma_anchors(d: DeclV, o: OptionsV, i: int, acc: Seq<Seq<char>>, x: Seq<char>)
    requires
        0 <= i,
        anchors_from(d.spec.items, module_name(d.origin), o, i, acc).contains(x),
    ensures
        acc.contains(x) || alone(x, d, o),
    decreases d.spec.items.len() - i,
{
    let items = d.spec.items;
    let module = module_name(d.origin);
    if i < items.len() {
        if is_uncoupled(items[i], module, o) {
            let next = with_some(acc, boxed_name(items[i]));
            lemma_anchors(d, o, i + 1, next, x);
            if next.contains(x) && !acc.contains(x) {
                let m = choose|m: int| 0 <= m < next.len() && next[m] == x;
                if m < acc.len() {
                    assert(acc[m] == x);
                }
                assert(boxed_name(items[i]) == Some(x));
                assert(lone(items[i], d, o));
            }
        } else {
            lemma_anchors(d, o, i + 1, acc, x);
        }
    }
}

proof fn lemma_needs(x: (Seq<char>, DepV), d: DeclV, o: OptionsV)
    requires
        dep_edges(d.spec.items, module_name(d.origin), o).contains(x),
    ensures
        needs(x.0, x.1, d, o),
{
    let items = d.spec.items;
    let module = module_name(d.origin);
    let anchors = anchored(items, module, o);
    the_dep_edges_are_the_shown_deps(items, module, o, x);
    let k = choose|k: int|
        0 <= k < items.len() && boxed_name(#[trigger] items[k]) == Some(x.0) && deps_of(
            items[k],
        ).contains(x.1) && shows_dep(o, anchors, x.0, x.1);
    assert(has_dep(items[k], x.0, x.1));
    if anchors.contains(x.0) && anchors.len() > 0 {
        lemma_anchors(d, o, 0, Seq::empty(), x.0);
    }
    if anchors.contains(x.1.ident) && anchors.len() > 0 {
        lemma_anchors(d, o, 0, Seq::empty(), x.1.ident);
    }
}

proof fn lemma_boxed_names(items: Seq<ItemV>, i: int, acc: Seq<Seq<char>>, k: int)
    requires
        0 <= i,
    ensures
        forall|x: Seq<char>| #[trigger]
            acc.contains(x) ==> boxed_names_from(items, i, acc).contains(x),
        i <= k < items.len() ==> (boxed_name(items[k]) matches Some(name) ==> boxed_names_from(
            items,
            i,
            acc,
        ).contains(name)),
    decreases items.len() - i,
{
    if i < items.len() {
        let next = with_some(acc, boxed_name(items[i]));
        lemma_boxed_names(items, i + 1, next, k);
        assert forall|x: Seq<char>| #[trigger] acc.contains(x) implies next.contains(x) by {
            let m = choose|m: int| 0 <= m < acc.len() && acc[m] == x;
            assert(next[m] == x);
        }
        if boxed_name(items[i]) is Some {
            assert(next[acc.len() as int] == boxed_name(items[i])->0);
            assert(next.contains(boxed_name(items[i])->0));
        }
    }
}

proof fn lemma_outside(x: Seq<char>, d: DeclV, o: OptionsV)
    requires
        outsiders(d, o).contains(x),
    ensures
        outside(x, d, o),
{
    let items = d.spec.items;
    let edges = dep_edges(items, module_name(d.origin), o);
    let declared = boxed_names_from(items, 0, Seq::empty());
    an_external_is_what_is_needed_and_not_declared(edges, declared, x);
    let k = choose|k: int| 0 <= k < edges.len() && (#[trigger] edges[k]).1.ident == x;
    assert(edges.contains(edges[k]));
    lemma_needs(edges[k], d, o);
    assert(needs(edges[k].0, edges[k].1, d, o) && edges[k].1.ident == x);
    assert forall|j: int| 0 <= j < items.len() implies boxed_name(#[trigger] items[j]) != Some(
        x,
    ) by {
        lemma_boxed_names(items, 0, Seq::empty(), j);
    }
}

proof fn lemma_external_lines(
    names: Seq<Seq<char>>,
    i: int,
    pen: PenV,
    d: DeclV,
    o: OptionsV,
    p: PenV,
) -> (lines: Seq<Line>)
    requires
        0 <= i,
        names == outsiders(d, o),
        follows(draw_externals_from(names, i, pen), p),
    ensures
        adds(pen.out, draw_externals_from(names, i, pen).out, lines, d, o, p),
    decreases names.len() - i,
{
    if i < names.len() {
        let name = names[i];
        let next = draw_externals_step(name, pen);
        let last = draw_externals_from(names, i + 1, next);
        let mid = naming(pen, "n"@, name);
        lemma_externals_drawn(names, i + 1, next, ""@);
        lemma_wrote(mid, "  "@ + named(pen, "n"@, name) + "([\""@ + escaped(name) + "\"])"@);
        lemma_on(mid, next, last);
        lemma_on(mid, last, p);
        lemma_settled(pen, p, "n"@, name);
        let l = Line::Outside { name };
        assert(names.contains(name));
        lemma_outside(name, d, o);
        lemma_adds_one(pen.out, l, d, o, p);
        let rest = lemma_external_lines(names, i + 1, next, d, o, p);
        lemma_adds_on(pen.out, next.out, last.out, seq![l], rest, d, o, p);
        seq![l] + rest
    } else {
        lemma_adds_none(pen.out, d, o, p);
        Seq::empty()
    }
}

proof fn lemma_dep_lines(
    edges: Seq<(Seq<char>, DepV)>,
    i: int,
    pen: PenV,
    d: DeclV,
    o: OptionsV,
    p: PenV,
) -> (lines: Seq<Line>)
    requires
        0 <= i,
        edges == dep_edges(d.spec.items, module_name(d.origin), o),
        follows(draw_deps_from(edges, o, i, pen), p),
    ensures
        adds(pen.out, draw_deps_from(edges, o, i, pen).out, lines, d, o, p),
    decreases edges.len() - i,
{
    if i < edges.len() {
        let x = edges[i];
        let next = draw_deps_step(x, o, pen);
        let last = draw_deps_from(edges, o, i + 1, next);
        let to = named(pen, "n"@, x.0);
        let mid = naming(pen, "n"@, x.0);
        let from = named(mid, "n"@, x.1.ident);
        let far = naming(mid, "n"@, x.1.ident);
        let label = dep_label(x.1, o.show_cfg);
        let text = "  "@ + (if o.runtime {
            spawn_edge(from, to, label)
        } else {
            dep_edge(from, to, x.1, label)
        });
        lemma_deps(edges, o, i + 1, next, -1);
        lemma_naming(mid, "n"@, x.1.ident);
        lemma_wrote(far, text);
        lemma_on(far, next, last);
        lemma_on(far, last, p);
        lemma_on(mid, far, p);
        lemma_settled(pen, p, "n"@, x.0);
        lemma_settled(mid, p, "n"@, x.1.ident);
        let l = Line::Dep { node: x.0, dep: x.1 };
        assert(edges.contains(x));
        lemma_needs(x, d, o);
        assert(written(l, d, o, p) == text);
        lemma_adds_one(pen.out, l, d, o, p);
        let rest = lemma_dep_lines(edges, i + 1, next, d, o, p);
        lemma_adds_on(pen.out, next.out, last.out, seq![l], rest, d, o, p);
        seq![l] + rest
    } else {
        lemma_adds_none(pen.out, d, o, p);
        Seq::empty()
    }
}

spec fn all_taken(uses: Seq<(Seq<char>, ResourceDeclV)>, items: Seq<ItemV>) -> bool {
    forall|k: int| 0 <= k < uses.len() ==> is_taken(#[trigger] uses[k], items)
}

spec fn is_taken(x: (Seq<char>, ResourceDeclV), items: Seq<ItemV>) -> bool {
    exists|k: int| 0 <= k < items.len() && takes(#[trigger] items[k], x.0, x.1)
}

proof fn lemma_takes_called(
    j: int,
    i: int,
    acc: Seq<(Seq<char>, ResourceDeclV)>,
    items: Seq<ItemV>,
)
    requires
        0 <= i,
        0 <= j < items.len(),
        boxed_name(items[j]) is Some,
        all_taken(acc, items),
    ensures
        all_taken(
            takes_from(boxed_name(items[j])->0, resources_of(items[j]), i, acc),
            items,
        ),
    decreases resources_of(items[j]).len() - i,
{
    let list = resources_of(items[j]);
    let node = boxed_name(items[j])->0;
    if i < list.len() {
        let x = (node, list[i]);
        let next = acc.push(x);
        assert(list.contains(list[i]));
        assert(takes(items[j], node, list[i]));
        assert(is_taken(x, items));
        assert forall|k: int| 0 <= k < next.len() implies is_taken(#[trigger] next[k], items) by {
            if k < acc.len() {
                assert(next[k] == acc[k]);
            }
        }
        lemma_takes_called(j, i + 1, next, items);
    }
}

proof fn lemma_uses_called(i: int, acc: Seq<(Seq<char>, ResourceDeclV)>, items: Seq<ItemV>)
    requires
        0 <= i,
        all_taken(acc, items),
    ensures
        all_taken(uses_from(items, i, acc), items),
    decreases items.len() - i,
{
    if i < items.len() {
        if boxed_name(items[i]) is Some {
            lemma_takes_called(i, 0, acc, items);
        }
        let next = match boxed_name(items[i]) {
            Some(name) => takes_from(name, resources_of(items[i]), 0, acc),
            None => acc,
        };
        lemma_uses_called(i + 1, next, items);
    }
}

spec fn all_slots(names: Seq<Seq<char>>, items: Seq<ItemV>) -> bool {
    forall|k: int| 0 <= k < names.len() ==> has_slot(#[trigger] names[k], items)
}

proof fn lemma_slots_called(
    uses: Seq<(Seq<char>, ResourceDeclV)>,
    i: int,
    acc: Seq<Seq<char>>,
    items: Seq<ItemV>,
)
    requires
        0 <= i,
        all_taken(uses, items),
        all_slots(acc, items),
    ensures
        all_slots(slots_from(uses, i, acc), items),
    decreases uses.len() - i,
{
    if i < uses.len() {
        let x = uses[i];
        let next = with_if(acc, !acc.contains(x.1.ident), x.1.ident);
        assert(is_taken(x, items));
        let k = choose|k: int| 0 <= k < items.len() && takes(#[trigger] items[k], x.0, x.1);
        assert(takes(items[k], x.0, x.1) && x.1.ident == x.1.ident);
        assert(has_slot(x.1.ident, items));
        assert forall|m: int| 0 <= m < next.len() implies has_slot(#[trigger] next[m], items) by {
            if m < acc.len() {
                assert(next[m] == acc[m]);
            }
        }
        lemma_slots_called(uses, i + 1, next, items);
    }
}

proof fn lemma_slot_lines(
    names: Seq<Seq<char>>,
    i: int,
    pen: PenV,
    d: DeclV,
    o: OptionsV,
    p: PenV,
) -> (lines: Seq<Line>)
    requires
        0 <= i,
        all_slots(names, d.spec.items),
        follows(draw_slots_from(names, i, pen), p),
    ensures
        adds(pen.out, draw_slots_from(names, i, pen).out, lines, d, o, p),
    decreases names.len() - i,
{
    if i < names.len() {
        let name = names[i];
        let next = draw_slots_step(name, pen);
        let last = draw_slots_from(names, i + 1, next);
        let mid = naming(pen, "r"@, name);
        lemma_slots(names, i + 1, next, ""@);
        lemma_wrote(
            mid,
            "  "@ + named(pen, "r"@, name) + "@{ shape: notch-rect, label: \""@ + escaped(name)
                + "\" }"@,
        );
        lemma_on(mid, next, last);
        lemma_on(mid, last, p);
        lemma_settled(pen, p, "r"@, name);
        let l = Line::Slot { name };
        assert(has_slot(name, d.spec.items));
        lemma_adds_one(pen.out, l, d, o, p);
        let rest = lemma_slot_lines(names, i + 1, next, d, o, p);
        lemma_adds_on(pen.out, next.out, last.out, seq![l], rest, d, o, p);
        seq![l] + rest
    } else {
        lemma_adds_none(pen.out, d, o, p);
        Seq::empty()
    }
}

proof fn lemma_use_lines(
    uses: Seq<(Seq<char>, ResourceDeclV)>,
    i: int,
    pen: PenV,
    d: DeclV,
    o: OptionsV,
    p: PenV,
) -> (lines: Seq<Line>)
    requires
        0 <= i,
        all_taken(uses, d.spec.items),
        follows(draw_uses_from(uses, o, i, pen), p),
    ensures
        adds(pen.out, draw_uses_from(uses, o, i, pen).out, lines, d, o, p),
    decreases uses.len() - i,
{
    if i < uses.len() {
        let x = uses[i];
        let next = draw_uses_step(x, o, pen);
        let last = draw_uses_from(uses, o, i + 1, next);
        let mid = naming(pen, "n"@, x.0);
        let far = naming(mid, "r"@, x.1.ident);
        let text = "  "@ + resource_edge(
            named(mid, "r"@, x.1.ident),
            named(pen, "n"@, x.0),
            x.1,
            o.show_cfg,
        );
        lemma_uses(uses, o, i + 1, next, arbitrary());
        lemma_naming(mid, "r"@, x.1.ident);
        lemma_wrote(far, text);
        lemma_on(far, next, last);
        lemma_on(far, last, p);
        lemma_on(mid, far, p);
        lemma_settled(pen, p, "n"@, x.0);
        lemma_settled(mid, p, "r"@, x.1.ident);
        let l = Line::Take { node: x.0, resource: x.1 };
        assert(is_taken(x, d.spec.items));
        assert(written(l, d, o, p) == text);
        lemma_adds_one(pen.out, l, d, o, p);
        let rest = lemma_use_lines(uses, i + 1, next, d, o, p);
        lemma_adds_on(pen.out, next.out, last.out, seq![l], rest, d, o, p);
        seq![l] + rest
    } else {
        lemma_adds_none(pen.out, d, o, p);
        Seq::empty()
    }
}

proof fn lemma_fill_lines(
    j: int,
    slots: Seq<Seq<char>>,
    i: int,
    pen: PenV,
    d: DeclV,
    o: OptionsV,
    p: PenV,
) -> (lines: Seq<Line>)
    requires
        0 <= i,
        0 <= j < d.spec.items.len(),
        d.spec.items[j] is Node,
        all_slots(slots, d.spec.items),
        follows(
            provides_from(
                d.spec.items[j]->Node_0.ident,
                d.spec.items[j]->Node_0.provides,
                slots,
                o,
                i,
                pen,
            ),
            p,
        ),
    ensures
        adds(
            pen.out,
            provides_from(
                d.spec.items[j]->Node_0.ident,
                d.spec.items[j]->Node_0.provides,
                slots,
                o,
                i,
                pen,
            ).out,
            lines,
            d,
            o,
            p,
        ),
    decreases d.spec.items[j]->Node_0.provides.len() - i,
{
    let items = d.spec.items;
    let node = items[j]->Node_0.ident;
    let list = items[j]->Node_0.provides;
    if i < list.len() {
        let x = list[i];
        let next = provide_step(node, x, slots, o, pen);
        let last = provides_from(node, list, slots, o, i + 1, next);
        if slots.contains(x.ident) {
            let mid = naming(pen, "n"@, node);
            let far = naming(mid, "r"@, x.ident);
            let text = "  "@ + named(pen, "n"@, node) + " -- \""@ + escaped(
                match cfg_note(x.cfg, o.show_cfg) {
                    Some(c) => "provides · "@ + c,
                    None => "provides"@,
                },
            ) + "\" --> "@ + named(mid, "r"@, x.ident);
            lemma_provides(node, list, slots, o, i + 1, next, arbitrary());
            lemma_naming(mid, "r"@, x.ident);
            lemma_wrote(far, text);
            lemma_on(far, next, last);
            lemma_on(far, last, p);
            lemma_on(mid, far, p);
            lemma_settled(pen, p, "n"@, node);
            lemma_settled(mid, p, "r"@, x.ident);
            let l = Line::Provide { node, provide: x };
            assert(list.contains(x));
            assert(fills(items[j], node, x));
            assert(has_slot(x.ident, items));
            lemma_adds_one(pen.out, l, d, o, p);
            let rest = lemma_fill_lines(j, slots, i + 1, next, d, o, p);
            lemma_adds_on(pen.out, next.out, last.out, seq![l], rest, d, o, p);
            seq![l] + rest
        } else {
            lemma_fill_lines(j, slots, i + 1, pen, d, o, p)
        }
    } else {
        lemma_adds_none(pen.out, d, o, p);
        Seq::empty()
    }
}

proof fn lemma_provide_lines(
    slots: Seq<Seq<char>>,
    i: int,
    pen: PenV,
    d: DeclV,
    o: OptionsV,
    p: PenV,
) -> (lines: Seq<Line>)
    requires
        0 <= i,
        all_slots(slots, d.spec.items),
        follows(draw_provides_from(d.spec.items, slots, o, i, pen), p),
    ensures
        adds(pen.out, draw_provides_from(d.spec.items, slots, o, i, pen).out, lines, d, o, p),
    decreases d.spec.items.len() - i,
{
    let items = d.spec.items;
    if i < items.len() {
        let next = draw_provides_step(items[i], slots, o, pen);
        let last = draw_provides_from(items, slots, o, i + 1, next);
        lemma_all_provides(items, slots, o, i + 1, next, -1, arbitrary());
        lemma_on(next, last, p);
        let rest = lemma_provide_lines(slots, i + 1, next, d, o, p);
        if items[i] is Node {
            let first = lemma_fill_lines(i, slots, 0, pen, d, o, p);
            lemma_adds_on(pen.out, next.out, last.out, first, rest, d, o, p);
            first + rest
        } else {
            rest
        }
    } else {
        lemma_adds_none(pen.out, d, o, p);
        Seq::empty()
    }
}

proof fn lemma_slots_style(
    names: Seq<Seq<char>>,
    pen: PenV,
    d: DeclV,
    o: OptionsV,
    p: PenV,
) -> (lines: Seq<Line>)
    requires
        follows(draw_class("r"@, names, "resource"@, pen), p),
        all_slots(names, d.spec.items),
    ensures
        adds(pen.out, draw_class("r"@, names, "resource"@, pen).out, lines, d, o, p),
{
    if names.len() == 0 {
        lemma_adds_none(pen.out, d, o, p);
        Seq::empty()
    } else {
        let (after, ids) = all_named(pen, "r"@, names);
        let text = "  class "@ + joined(ids, ","@) + " "@ + "resource"@ + ";"@;
        lemma_wrote(after, text);
        lemma_on(after, wrote(after, text), p);
        lemma_all_named(pen, "r"@, names, 0, Seq::empty(), p);
        let l = Line::Slots { names };
        lemma_adds_one(pen.out, l, d, o, p);
        seq![l]
    }
}

spec fn all_marked(class: Seq<char>, names: Seq<Seq<char>>, d: DeclV, o: OptionsV) -> bool {
    forall|k: int| 0 <= k < names.len() ==> marked(class, #[trigger] names[k], d, o)
}

proof fn lemma_mark_lines(
    class: Seq<char>,
    names: Seq<Seq<char>>,
    pen: PenV,
    d: DeclV,
    o: OptionsV,
    p: PenV,
) -> (lines: Seq<Line>)
    requires
        follows(draw_class("n"@, names, class, pen), p),
        all_marked(class, names, d, o),
    ensures
        adds(pen.out, draw_class("n"@, names, class, pen).out, lines, d, o, p),
{
    if names.len() == 0 {
        lemma_adds_none(pen.out, d, o, p);
        Seq::empty()
    } else {
        let (after, ids) = all_named(pen, "n"@, names);
        let text = "  class "@ + joined(ids, ","@) + " "@ + class + ";"@;
        lemma_wrote(after, text);
        lemma_on(after, wrote(after, text), p);
        lemma_all_named(pen, "n"@, names, 0, Seq::empty(), p);
        let l = Line::Mark { class, names };
        lemma_adds_one(pen.out, l, d, o, p);
        seq![l]
    }
}

proof fn lemma_disabled_names(d: DeclV, o: OptionsV, i: int, acc: Seq<Seq<char>>)
    requires
        0 <= i,
        all_marked("disabled"@, acc, d, o),
    ensures
        all_marked("disabled"@, disabled_names_from(d.spec.items, i, acc), d, o),
    decreases d.spec.items.len() - i,
{
    let items = d.spec.items;
    if i < items.len() {
        if is_disabled(items[i]) {
            let name = boxed_name(items[i])->0;
            let next = acc.push(name);
            assert(off(items[i], name));
            assert(marked("disabled"@, name, d, o));
            assert forall|k: int| 0 <= k < next.len() implies marked(
                "disabled"@,
                #[trigger] next[k],
                d,
                o,
            ) by {
                if k < acc.len() {
                    assert(next[k] == acc[k]);
                }
            }
            lemma_disabled_names(d, o, i + 1, next);
        } else {
            lemma_disabled_names(d, o, i + 1, acc);
        }
    }
}

proof fn lemma_parked_names(d: DeclV, o: OptionsV, i: int, acc: Seq<Seq<char>>)
    requires
        0 <= i,
        all_marked("parked"@, acc, d, o),
    ensures
        all_marked("parked"@, parked_names_from(d.spec.items, i, acc), d, o),
    decreases d.spec.items.len() - i,
{
    let items = d.spec.items;
    if i < items.len() {
        if is_parked(items[i]) {
            let name = boxed_name(items[i])->0;
            let next = acc.push(name);
            assert(idle(items[i], name));
            assert(marked("parked"@, name, d, o));
            assert forall|k: int| 0 <= k < next.len() implies marked(
                "parked"@,
                #[trigger] next[k],
                d,
                o,
            ) by {
                if k < acc.len() {
                    assert(next[k] == acc[k]);
                }
            }
            lemma_parked_names(d, o, i + 1, next);
        } else {
            lemma_parked_names(d, o, i + 1, acc);
        }
    }
}

proof fn lemma_top_lines(d: DeclV, o: OptionsV) -> (lines: Seq<Line>)
    ensures
        adds(header(d, o), after_deps(d, o).out, lines, d, o, chart(d, o)),
{
    let p = chart(d, o);
    let items = d.spec.items;
    let module = module_name(d.origin);
    let groups = groups_of(items, o);
    let start = PenV { out: header(d, o), ids: Seq::empty() };
    let boxes = after_boxes(d, o);
    let linked = match o.links {
        Some(template) => draw_links_from(d, o, template, items, 0, boxes),
        None => boxes,
    };
    let external = after_externals(d, o);
    let edges = dep_edges(items, module, o);
    let spaced = if edges.len() > 0 {
        wrote(external, ""@)
    } else {
        external
    };
    let deps = after_deps(d, o);
    lemma_stages(d, o);
    lemma_externals_drawn(outsiders(d, o), 0, linked, ""@);
    lemma_on(linked, external, p);
    let a = lemma_groups_lines(groups, groups.len() > 1, 0, start, d, o, p);
    let b = match o.links {
        Some(template) => lemma_link_lines(template, 0, boxes, d, o, p),
        None => {
            lemma_adds_none(boxes.out, d, o, p);
            Seq::empty()
        },
    };
    lemma_adds_on(start.out, boxes.out, linked.out, a, b, d, o, p);
    let c = lemma_external_lines(outsiders(d, o), 0, linked, d, o, p);
    lemma_adds_on(start.out, linked.out, external.out, a + b, c, d, o, p);
    lemma_adds_none(external.out, d, o, p);
    lemma_adds_one(external.out, Line::Blank, d, o, p);
    let e = if edges.len() > 0 {
        seq![Line::Blank]
    } else {
        Seq::empty()
    };
    lemma_adds_on(start.out, external.out, spaced.out, a + b + c, e, d, o, p);
    let f = lemma_dep_lines(edges, 0, spaced, d, o, p);
    lemma_adds_on(start.out, spaced.out, deps.out, a + b + c + e, f, d, o, p);
    a + b + c + e + f
}

proof fn lemma_resource_lines(pen: PenV, d: DeclV, o: OptionsV, p: PenV) -> (lines: Seq<Line>)
    requires
        follows(draw_resources(d.spec.items, o, pen), p),
    ensures
        adds(pen.out, draw_resources(d.spec.items, o, pen).out, lines, d, o, p),
{
    let items = d.spec.items;
    let uses = uses_from(items, 0, Seq::empty());
    let slots = slots_from(uses, 0, Seq::empty());
    let start = wrote(pen, ""@);
    let boxes = draw_slots_from(slots, 0, start);
    let edges = draw_uses_from(uses, o, 0, boxes);
    let all = draw_provides_from(items, slots, o, 0, edges);
    let last = draw_resources(items, o, pen);
    lemma_uses(uses, o, 0, boxes, arbitrary());
    lemma_all_provides(items, slots, o, 0, edges, -1, arbitrary());
    lemma_class("r"@, slots, "resource"@, all);
    lemma_on(all, last, p);
    lemma_on(edges, all, p);
    lemma_on(boxes, edges, p);
    lemma_uses_called(0, Seq::empty(), items);
    lemma_slots_called(uses, 0, Seq::empty(), items);
    lemma_adds_one(pen.out, Line::Blank, d, o, p);
    let a = seq![Line::Blank];
    let b = lemma_slot_lines(slots, 0, start, d, o, p);
    lemma_adds_on(pen.out, start.out, boxes.out, a, b, d, o, p);
    let c = lemma_use_lines(uses, 0, boxes, d, o, p);
    lemma_adds_on(pen.out, boxes.out, edges.out, a + b, c, d, o, p);
    let e = lemma_provide_lines(slots, 0, edges, d, o, p);
    lemma_adds_on(pen.out, edges.out, all.out, a + b + c, e, d, o, p);
    let f = lemma_slots_style(slots, all, d, o, p);
    lemma_adds_on(pen.out, all.out, last.out, a + b + c + e, f, d, o, p);
    a + b + c + e + f
}

proof fn lemma_last_lines(pen: PenV, d: DeclV, o: OptionsV) -> (lines: Seq<Line>)
    requires
        pen == draw_resources(d.spec.items, o, after_flow(d, o)),
    ensures
        drawing(d, o).out == pen.out + sheet(lines, d, o, chart(d, o)) + CLASSDEFS@,
        all_called_for(lines, d, o, chart(d, o)),
{
    let p = chart(d, o);
    let items = d.spec.items;
    let ended = if o.legend {
        wrote(pen, "  end"@)
    } else {
        pen
    };
    let closed = wrote(ended, ""@);
    let disabled = disabled_names_from(items, 0, Seq::empty());
    let parked = parked_names_from(items, 0, Seq::empty());
    let off_pen = draw_class("n"@, disabled, "disabled"@, closed);
    let ext = draw_class("n"@, outsiders(d, o), "external"@, off_pen);
    let all = draw_class("n"@, parked, "parked"@, ext);
    let last = drawing(d, o);
    assert(last == inked(all, CLASSDEFS@));
    lemma_class("n"@, outsiders(d, o), "external"@, off_pen);
    lemma_class("n"@, parked, "parked"@, ext);
    lemma_inked(all, CLASSDEFS@);
    lemma_still(last);
    lemma_inked(last, legend_text(o, true, arrows(last.out)));
    lemma_on(all, last, p);
    lemma_on(ext, all, p);
    lemma_on(off_pen, ext, p);
    lemma_disabled_names(d, o, 0, Seq::empty());
    lemma_parked_names(d, o, 0, Seq::empty());
    assert forall|k: int| 0 <= k < outsiders(d, o).len() implies marked(
        "external"@,
        #[trigger] outsiders(d, o)[k],
        d,
        o,
    ) by {
        assert(outsiders(d, o).contains(outsiders(d, o)[k]));
        lemma_outside(outsiders(d, o)[k], d, o);
    }
    lemma_adds_none(pen.out, d, o, p);
    lemma_adds_one(pen.out, Line::Close, d, o, p);
    lemma_adds_one(ended.out, Line::Blank, d, o, p);
    let a = if o.legend {
        seq![Line::Close]
    } else {
        Seq::empty()
    };
    let b = seq![Line::Blank];
    lemma_adds_on(pen.out, ended.out, closed.out, a, b, d, o, p);
    let c = lemma_mark_lines("disabled"@, disabled, closed, d, o, p);
    lemma_adds_on(pen.out, closed.out, off_pen.out, a + b, c, d, o, p);
    let e = lemma_mark_lines("external"@, outsiders(d, o), off_pen, d, o, p);
    lemma_adds_on(pen.out, off_pen.out, ext.out, a + b + c, e, d, o, p);
    let f = lemma_mark_lines("parked"@, parked, ext, d, o, p);
    lemma_adds_on(pen.out, ext.out, all.out, a + b + c + e, f, d, o, p);
    a + b + c + e + f
}

/// Between its header and the styles a flowchart is made of lines, and every line is called for.
/// An edge from an item to a signal is called for by an entry of the item's `writes:` list or by an
/// access in one of its functions that writes; one from a signal to an item by an entry of its
/// `reads:` list or by an access that reads. An edge of a dep is called for by a dep of the item, of
/// a resource by a resource of the item, and a box by what it stands for.
pub proof fn every_line_of_a_flowchart_is_called_for(d: DeclV, o: OptionsV) -> (lines: Seq<Line>)
    ensures
        drawing(d, o).out == header(d, o) + sheet(lines, d, o, chart(d, o)) + CLASSDEFS@,
        all_called_for(lines, d, o, chart(d, o)),
        flowchart(d, o) == drawing(d, o).out + (if o.legend {
            legend_text(o, true, arrows(drawing(d, o).out))
        } else {
            Seq::empty()
        }),
{
    let p = chart(d, o);
    let deps = after_deps(d, o);
    let flow = after_flow(d, o);
    let resources = draw_resources(d.spec.items, o, flow);
    lemma_finished(d, o);
    let a = lemma_top_lines(d, o);
    let b = if o.signals || o.runtime {
        lemma_flow_lines(d, o)
    } else {
        lemma_adds_none(deps.out, d, o, p);
        Seq::empty()
    };
    lemma_adds_on(header(d, o), deps.out, flow.out, a, b, d, o, p);
    let c = lemma_resource_lines(flow, d, o, p);
    lemma_adds_on(header(d, o), flow.out, resources.out, a + b, c, d, o, p);
    let e = lemma_last_lines(resources, d, o);
    let all = resources.out + sheet(e, d, o, p);
    lemma_adds_on(header(d, o), resources.out, all, a + b + c, e, d, o, p);
    assert(drawing(d, o).out + Seq::<char>::empty() == drawing(d, o).out);
    a + b + c + e
}

proof fn lemma_anchored(d: DeclV, o: OptionsV, i: int, acc: Seq<Seq<char>>, k: int)
    requires
        0 <= i,
    ensures
        forall|x: Seq<char>| #[trigger]
            acc.contains(x) ==> anchors_from(
                d.spec.items,
                module_name(d.origin),
                o,
                i,
                acc,
            ).contains(x),
        i <= k < d.spec.items.len() && lone(d.spec.items[k], d, o) ==> anchors_from(
            d.spec.items,
            module_name(d.origin),
            o,
            i,
            acc,
        ).contains(boxed_name(d.spec.items[k])->0),
    decreases d.spec.items.len() - i,
{
    let items = d.spec.items;
    let module = module_name(d.origin);
    if i < items.len() {
        let next = if is_uncoupled(items[i], module, o) {
            with_some(acc, boxed_name(items[i]))
        } else {
            acc
        };
        lemma_anchored(d, o, i + 1, next, k);
        assert forall|x: Seq<char>| #[trigger] acc.contains(x) implies next.contains(x) by {
            let m = choose|m: int| 0 <= m < acc.len() && acc[m] == x;
            assert(next[m] == x);
        }
        if lone(items[i], d, o) {
            assert(next[acc.len() as int] == boxed_name(items[i])->0);
            assert(next.contains(boxed_name(items[i])->0));
        }
    }
}

proof fn lemma_needed(node: Seq<char>, dep: DepV, d: DeclV, o: OptionsV)
    requires
        needs(node, dep, d, o),
    ensures
        dep_edges(d.spec.items, module_name(d.origin), o).contains((node, dep)),
{
    let items = d.spec.items;
    let module = module_name(d.origin);
    let anchors = anchored(items, module, o);
    let k = choose|k: int| 0 <= k < items.len() && has_dep(#[trigger] items[k], node, dep);
    if o.runtime && !o.runtime_deps {
        if alone(node, d, o) {
            let j = choose|j: int|
                0 <= j < items.len() && boxed_name(#[trigger] items[j]) == Some(node) && lone(
                    items[j],
                    d,
                    o,
                );
            lemma_anchored(d, o, 0, Seq::empty(), j);
        } else {
            let j = choose|j: int|
                0 <= j < items.len() && boxed_name(#[trigger] items[j]) == Some(dep.ident) && lone(
                    items[j],
                    d,
                    o,
                );
            lemma_anchored(d, o, 0, Seq::empty(), j);
        }
    }
    assert(shows_dep(o, anchors, node, dep));
    the_dep_edges_are_the_shown_deps(items, module, o, (node, dep));
    assert(boxed_name(items[k]) == Some(node));
}

/// Every dep that the view shows is drawn: each in the bring-up view; in the runtime view each on
/// request, or those that a node or pool without couplings has or is named in.
pub proof fn every_dep_that_the_view_shows_is_drawn(
    node: Seq<char>,
    dep: DepV,
    d: DeclV,
    o: OptionsV,
)
    requires
        needs(node, dep, d, o),
    ensures
        contains(
            flowchart(d, o),
            need_edge(
                named(chart(d, o), "n"@, dep.ident),
                named(chart(d, o), "n"@, node),
                dep.bound,
                dep_label(dep, o.show_cfg),
                o.runtime,
            ),
        ),
{
    lemma_needed(node, dep, d, o);
    every_shown_dep_is_drawn(d, o, (node, dep));
}

/// Every name that a shown dep needs, and that no node or pool has, stands in a rounded box.
pub proof fn every_name_from_outside_is_boxed(name: Seq<char>, d: DeclV, o: OptionsV)
    requires
        outside(name, d, o),
    ensures
        contains(
            flowchart(d, o),
            named(chart(d, o), "n"@, name) + "([\""@ + escaped(name) + "\"])"@,
        ),
{
    let items = d.spec.items;
    let edges = dep_edges(items, module_name(d.origin), o);
    let declared = boxed_names_from(items, 0, Seq::empty());
    let (node, dep) = choose|node: Seq<char>, dep: DepV| #[trigger]
        needs(node, dep, d, o) && dep.ident == name;
    lemma_needed(node, dep, d, o);
    let k = choose|k: int| 0 <= k < edges.len() && edges[k] == (node, dep);
    assert(edges[k].1.ident == name);
    if declared.contains(name) {
        lemma_declared(items, 0, Seq::empty(), name);
    }
    an_external_is_what_is_needed_and_not_declared(edges, declared, name);
    every_external_is_drawn(d, o, name);
}

proof fn lemma_declared(items: Seq<ItemV>, i: int, acc: Seq<Seq<char>>, x: Seq<char>)
    requires
        0 <= i,
        boxed_names_from(items, i, acc).contains(x),
    ensures
        acc.contains(x) || exists|k: int|
            0 <= k < items.len() && boxed_name(#[trigger] items[k]) == Some(x),
    decreases items.len() - i,
{
    if i < items.len() {
        let next = with_some(acc, boxed_name(items[i]));
        lemma_declared(items, i + 1, next, x);
        if next.contains(x) && !acc.contains(x) {
            let m = choose|m: int| 0 <= m < next.len() && next[m] == x;
            if m < acc.len() {
                assert(acc[m] == x);
            }
            assert(boxed_name(items[i]) == Some(x));
        }
    }
}

proof fn lemma_off_listed(items: Seq<ItemV>, i: int, acc: Seq<Seq<char>>, k: int, name: Seq<char>)
    requires
        0 <= i,
    ensures
        acc.contains(name) ==> disabled_names_from(items, i, acc).contains(name),
        i <= k < items.len() && off(items[k], name) ==> disabled_names_from(items, i, acc).contains(
            name,
        ),
    decreases items.len() - i,
{
    if i < items.len() {
        let next = if is_disabled(items[i]) {
            with_some(acc, boxed_name(items[i]))
        } else {
            acc
        };
        lemma_off_listed(items, i + 1, next, k, name);
        if acc.contains(name) {
            let m = choose|m: int| 0 <= m < acc.len() && acc[m] == name;
            assert(next[m] == name);
        }
        if off(items[i], name) {
            assert(next[acc.len() as int] == name);
        }
    }
}

proof fn lemma_idle_listed(items: Seq<ItemV>, i: int, acc: Seq<Seq<char>>, k: int, name: Seq<char>)
    requires
        0 <= i,
    ensures
        acc.contains(name) ==> parked_names_from(items, i, acc).contains(name),
        i <= k < items.len() && idle(items[k], name) ==> parked_names_from(items, i, acc).contains(
            name,
        ),
    decreases items.len() - i,
{
    if i < items.len() {
        let next = if is_parked(items[i]) {
            with_some(acc, boxed_name(items[i]))
        } else {
            acc
        };
        lemma_idle_listed(items, i + 1, next, k, name);
        if acc.contains(name) {
            let m = choose|m: int| 0 <= m < acc.len() && acc[m] == name;
            assert(next[m] == name);
        }
        if idle(items[i], name) {
            assert(next[acc.len() as int] == name);
        }
    }
}

proof fn lemma_class_shown(class: Seq<char>, names: Seq<Seq<char>>, pen: PenV, p: PenV)
    requires
        names.len() > 0,
        follows(draw_class("n"@, names, class, pen), p),
    ensures
        contains(
            p.out,
            "  class "@ + joined(Seq::new(names.len(), |i: int| named(p, "n"@, names[i])), ","@)
                + " "@ + class + ";"@,
        ),
{
    let (after, ids) = all_named(pen, "n"@, names);
    let text = "  class "@ + joined(ids, ","@) + " "@ + class + ";"@;
    lemma_wrote(after, text);
    lemma_on(after, wrote(after, text), p);
    lemma_all_named(pen, "n"@, names, 0, Seq::empty(), p);
    assert(""@ + text == text) by {
        reveal_strlit("");
    }
    lemma_shown(after, ""@, text);
    lemma_shown_on(wrote(after, text), p, text);
}

/// The styles: a node that starts disabled is listed with the disabled ones, one without a task
/// with the parked ones, and a name from outside with the external ones.
pub proof fn every_style_is_given(class: Seq<char>, name: Seq<char>, d: DeclV, o: OptionsV) -> (names:
    Seq<Seq<char>>)
    requires
        class == "external"@ || class == "disabled"@ || class == "parked"@,
        marked(class, name, d, o),
    ensures
        names.contains(name),
        forall|i: int| 0 <= i < names.len() ==> marked(class, #[trigger] names[i], d, o),
        contains(
            flowchart(d, o),
            "  class "@ + joined(
                Seq::new(names.len(), |i: int| named(chart(d, o), "n"@, names[i])),
                ","@,
            ) + " "@ + class + ";"@,
        ),
{
    reveal_strlit("external");
    reveal_strlit("disabled");
    reveal_strlit("parked");
    let p = chart(d, o);
    let items = d.spec.items;
    let resources = draw_resources(items, o, after_flow(d, o));
    let ended = if o.legend {
        wrote(resources, "  end"@)
    } else {
        resources
    };
    let closed = wrote(ended, ""@);
    let disabled = disabled_names_from(items, 0, Seq::empty());
    let parked = parked_names_from(items, 0, Seq::empty());
    let off_pen = draw_class("n"@, disabled, "disabled"@, closed);
    let ext = draw_class("n"@, outsiders(d, o), "external"@, off_pen);
    let all = draw_class("n"@, parked, "parked"@, ext);
    let last = drawing(d, o);
    assert(last == inked(all, CLASSDEFS@));
    lemma_class("n"@, outsiders(d, o), "external"@, off_pen);
    lemma_class("n"@, parked, "parked"@, ext);
    lemma_inked(all, CLASSDEFS@);
    lemma_still(last);
    lemma_inked(last, legend_text(o, true, arrows(last.out)));
    lemma_on(all, last, p);
    lemma_on(ext, all, p);
    lemma_on(off_pen, ext, p);
    assert("external"@.len() == 8 && "external"@[0] == 'e');
    assert("disabled"@.len() == 8 && "disabled"@[0] == 'd');
    assert("parked"@.len() == 6);
    if class == "disabled"@ {
        let k = choose|k: int| 0 <= k < items.len() && off(#[trigger] items[k], name);
        lemma_off_listed(items, 0, Seq::empty(), k, name);
        lemma_disabled_names(d, o, 0, Seq::empty());
        lemma_class_shown(class, disabled, closed, p);
        disabled
    } else if class == "parked"@ {
        let k = choose|k: int| 0 <= k < items.len() && idle(#[trigger] items[k], name);
        lemma_idle_listed(items, 0, Seq::empty(), k, name);
        lemma_parked_names(d, o, 0, Seq::empty());
        lemma_class_shown(class, parked, ext, p);
        parked
    } else {
        let names = outsiders(d, o);
        let edges = dep_edges(items, module_name(d.origin), o);
        let declared = boxed_names_from(items, 0, Seq::empty());
        let (node, dep) = choose|node: Seq<char>, dep: DepV| #[trigger]
            needs(node, dep, d, o) && dep.ident == name;
        lemma_needed(node, dep, d, o);
        let k = choose|k: int| 0 <= k < edges.len() && edges[k] == (node, dep);
        assert(edges[k].1.ident == name);
        if declared.contains(name) {
            lemma_declared(items, 0, Seq::empty(), name);
        }
        an_external_is_what_is_needed_and_not_declared(edges, declared, name);
        assert forall|k: int| 0 <= k < names.len() implies marked(
            class,
            #[trigger] names[k],
            d,
            o,
        ) by {
            assert(names.contains(names[k]));
            lemma_outside(names[k], d, o);
        }
        lemma_class_shown(class, names, off_pen, p);
        names
    }
}

proof fn lemma_clicked(d: DeclV, o: OptionsV, template: Seq<char>, i: int, pen: PenV, p: PenV, k: int)
    requires
        0 <= i <= k < d.spec.items.len(),
        !(d.spec.items[k] is Executor),
        follows(draw_links_from(d, o, template, d.spec.items, i, pen), p),
    ensures
        contains(
            p.out,
            "  click "@ + named(p, "n"@, boxed_name(d.spec.items[k])->0) + " \""@ + escaped(
                link_url(d, o, template, d.spec.items[k]),
            ) + "\""@,
        ),
    decreases d.spec.items.len() - i,
{
    let items = d.spec.items;
    let next = draw_links_step(d, o, template, items[i], pen);
    let last = draw_links_from(d, o, template, items, i + 1, next);
    if i < k {
        lemma_clicked(d, o, template, i + 1, next, p, k);
    } else {
        let name = boxed_name(items[k])->0;
        let mid = naming(pen, "n"@, name);
        let text = "  click "@ + named(pen, "n"@, name) + " \""@ + escaped(
            link_url(d, o, template, items[k]),
        ) + "\""@;
        lemma_links(d, o, template, items, i + 1, next);
        lemma_wrote(mid, text);
        lemma_on(mid, next, last);
        lemma_on(mid, last, p);
        lemma_settled(pen, p, "n"@, name);
        assert(""@ + text == text) by {
            reveal_strlit("");
        }
        lemma_shown(mid, ""@, text);
        lemma_on(next, last, p);
        lemma_shown_on(next, p, text);
    }
}

/// Where links are asked for, every node and pool has one: the template with the item's own line,
/// and the file that declares the graph, or the item's fragment, as the tool was given it.
pub proof fn every_item_is_linked_to_its_source(d: DeclV, o: OptionsV, template: Seq<char>, k: int)
    requires
        o.links == Some(template),
        0 <= k < d.spec.items.len(),
        !(d.spec.items[k] is Executor),
    ensures
        ({
            let (name, line, fragment) = match d.spec.items[k] {
                ItemV::Node(n) => (n.ident, n.line, n.fragment),
                ItemV::Pool(x) => (x.ident, x.line, x.fragment),
                ItemV::Executor(x) => (x.ident, x.line, None),
            };
            let origin = match fragment {
                Some(f) => match looked_up(d.fragment_origins, f, d.fragment_origins.len() as int) {
                    Some(place) => place,
                    None => d.origin,
                },
                None => d.origin,
            };
            let file = match looked_up(o.files, origin, o.files.len() as int) {
                Some(f) => f,
                None => origin,
            };
            contains(
                flowchart(d, o),
                "  click "@ + named(chart(d, o), "n"@, name) + " \""@ + escaped(
                    replaced(
                        replaced(template, "{file}"@, file),
                        "{line}"@,
                        decimal(
                            if line >= 1 {
                                line as nat
                            } else {
                                1
                            },
                        ),
                    ),
                ) + "\""@,
            )
        }),
{
    let p = chart(d, o);
    let boxes = after_boxes(d, o);
    let linked = draw_links_from(d, o, template, d.spec.items, 0, boxes);
    lemma_stages(d, o);
    lemma_externals_drawn(outsiders(d, o), 0, linked, ""@);
    lemma_on(linked, after_externals(d, o), p);
    lemma_clicked(d, o, template, 0, boxes, p, k);
}

} // verus!
