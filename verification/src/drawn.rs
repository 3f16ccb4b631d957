//! What a flowchart shows: everything declared, each element under one identifier.

use vstd::prelude::*;

use crate::ast::{
    boxed_name, resources_of, signal_name, DepV, ItemV, ProvideDeclV, ResourceDeclV,
};
use crate::bindings::FnRef;
use crate::coupling::{
    couplings, discovered_key, first_access, flow_fns, labelled, signal_keys, whole_of, CouplingV,
};
use crate::discover::{module_name, DiscoveredV};
use crate::find::DeclV;
use crate::ids::{
    entry_is, id_from, identifiers_stay_distinct, ids_valid, lemma_id_pushed, IdEntryV,
};
use crate::label::{
    cfg_note, coupling_label, dep_edge, dep_label, escaped, resource_edge, shape_of, signal_edge,
    spawn_edge, unresolved_label, with_if,
};
use crate::legend::{arrows, legend_text};
use crate::options::OptionsV;
use crate::order::{ordered, ordering_sorts_and_keeps};
use crate::pen::{all_named, inked, named, named_from, naming, wrote, PenV};
use crate::render::{
    access_label, boxed_names_from, dep_edges, disabled_names_from, draw_access, draw_accesses,
    draw_class, draw_couplings_from, draw_couplings_step, draw_deps_from, draw_deps_step,
    draw_discovered_from, draw_discovered_step, draw_edges_from, draw_edges_step,
    draw_elements_from, draw_elements_step, draw_externals_from, draw_externals_step, draw_flow,
    draw_groups_from, draw_groups_step, draw_links_from, draw_links_step, draw_members_from,
    draw_members_step, draw_provides_from, draw_provides_step, draw_readers_from,
    draw_readers_step, draw_resources, draw_signals_from, draw_signals_step, draw_slots_from,
    draw_slots_step, draw_uses_from, draw_uses_step, drawing, externals_from, flowchart, group_of,
    groups_from, groups_of, header, in_group, link_url, parked_names_from, provide_step,
    provides_from, reader_nodes, reader_signals, readers_of_from, slots_from, takes_from,
    uses_from, with_box, FlowV, ReaderV, CLASSDEFS,
};
use crate::text::{after_last, contains, decimal, joined, stands_at};

verus! {

/// `b` is what becomes of `a`: more text behind it, and every identifier kept.
pub open spec fn follows(a: PenV, b: PenV) -> bool {
    &&& a.out.is_prefix_of(b.out)
    &&& a.ids.is_prefix_of(b.ids)
    &&& ids_valid(a.ids) ==> ids_valid(b.ids)
}

pub(crate) proof fn lemma_still(a: PenV)
    ensures
        follows(a, a),
{
    assert(a.out.subrange(0, a.out.len() as int) == a.out);
    assert(a.ids.subrange(0, a.ids.len() as int) == a.ids);
}

pub(crate) proof fn lemma_on(a: PenV, b: PenV, c: PenV)
    requires
        follows(a, b),
        follows(b, c),
    ensures
        follows(a, c),
{
    assert(c.out.subrange(0, b.out.len() as int).subrange(0, a.out.len() as int) == c.out.subrange(
        0,
        a.out.len() as int,
    ));
    assert(c.ids.subrange(0, b.ids.len() as int).subrange(0, a.ids.len() as int) == c.ids.subrange(
        0,
        a.ids.len() as int,
    ));
}

pub(crate) proof fn lemma_inked(a: PenV, more: Seq<char>)
    ensures
        follows(a, inked(a, more)),
{
    lemma_still(a);
    assert((a.out + more).subrange(0, a.out.len() as int) == a.out);
}

pub(crate) proof fn lemma_wrote(a: PenV, line: Seq<char>)
    ensures
        follows(a, wrote(a, line)),
{
    lemma_still(a);
    assert((a.out + line + "\n"@).subrange(0, a.out.len() as int) == a.out);
}

pub(crate) proof fn lemma_naming(a: PenV, prefix: Seq<char>, key: Seq<char>)
    ensures
        follows(a, naming(a, prefix, key)),
{
    lemma_still(a);
    let b = naming(a, prefix, key);
    if ids_valid(a.ids) {
        identifiers_stay_distinct(a.ids, prefix, key);
    }
    assert(b.ids.subrange(0, a.ids.len() as int) == a.ids);
}

pub(crate) proof fn lemma_line(a: PenV, prefix: Seq<char>, key: Seq<char>, line: Seq<char>)
    ensures
        follows(a, wrote(naming(a, prefix, key), line)),
{
    lemma_naming(a, prefix, key);
    lemma_wrote(naming(a, prefix, key), line);
    lemma_on(a, naming(a, prefix, key), wrote(naming(a, prefix, key), line));
}

pub(crate) proof fn lemma_link(
    a: PenV,
    prefix: Seq<char>,
    key: Seq<char>,
    other_prefix: Seq<char>,
    other: Seq<char>,
    line: Seq<char>,
)
    ensures
        follows(a, wrote(naming(naming(a, prefix, key), other_prefix, other), line)),
{
    let b = naming(a, prefix, key);
    lemma_naming(a, prefix, key);
    lemma_line(b, other_prefix, other, line);
    lemma_on(a, b, wrote(naming(b, other_prefix, other), line));
}

/// An element has an identifier.
pub open spec fn known(p: PenV, prefix: Seq<char>, key: Seq<char>) -> bool {
    id_from(p.ids, prefix, key, 0) is Some
}

pub(crate) proof fn lemma_ids_prefix(
    v: Seq<IdEntryV>,
    w: Seq<IdEntryV>,
    prefix: Seq<char>,
    key: Seq<char>,
    i: int,
)
    requires
        0 <= i,
        v.is_prefix_of(w),
    ensures
        id_from(v, prefix, key, i) matches Some(id) ==> id_from(w, prefix, key, i) == Some(id),
    decreases v.len() - i,
{
    if i < v.len() {
        assert(v[i] == w.subrange(0, v.len() as int)[i]);
        assert(entry_is(v, i, prefix, key) == entry_is(w, i, prefix, key));
        lemma_ids_prefix(v, w, prefix, key, i + 1);
    }
}

pub(crate) proof fn lemma_known_on(a: PenV, b: PenV, prefix: Seq<char>, key: Seq<char>)
    requires
        follows(a, b),
        known(a, prefix, key),
    ensures
        known(b, prefix, key),
        named(b, prefix, key) == named(a, prefix, key),
{
    lemma_ids_prefix(a.ids, b.ids, prefix, key, 0);
}

pub(crate) proof fn lemma_named(a: PenV, prefix: Seq<char>, key: Seq<char>)
    ensures
        known(naming(a, prefix, key), prefix, key),
        named(naming(a, prefix, key), prefix, key) == named(a, prefix, key),
{
    lemma_id_pushed(
        a.ids,
        IdEntryV { prefix, key, id: named(a, prefix, key) },
        prefix,
        key,
        0,
    );
}

pub(crate) proof fn lemma_shown_on(a: PenV, b: PenV, line: Seq<char>)
    requires
        follows(a, b),
        contains(a.out, line),
    ensures
        contains(b.out, line),
{
    let i = choose|i: int| stands_at(a.out, i, line);
    assert(b.out.subrange(0, a.out.len() as int).subrange(i, i + line.len()) == b.out.subrange(
        i,
        i + line.len(),
    ));
    assert(stands_at(b.out, i, line));
}

pub(crate) proof fn lemma_shown(a: PenV, indent: Seq<char>, line: Seq<char>)
    ensures
        contains(wrote(a, indent + line).out, line),
{
    let out = wrote(a, indent + line).out;
    let i = a.out.len() + indent.len();
    assert(out.subrange(i as int, (i + line.len()) as int) == line);
    assert(stands_at(out, i as int, line));
}

/// One element named and a line written: the element is known for good, and the line stands.
pub(crate) proof fn lemma_one(a: PenV, prefix: Seq<char>, key: Seq<char>, indent: Seq<char>, line: Seq<char>)
    ensures
        ({
            let b = wrote(naming(a, prefix, key), indent + line);
            &&& follows(a, b)
            &&& known(b, prefix, key)
            &&& named(b, prefix, key) == named(a, prefix, key)
            &&& contains(b.out, line)
        }),
{
    let mid = naming(a, prefix, key);
    lemma_line(a, prefix, key, indent + line);
    lemma_named(a, prefix, key);
    lemma_wrote(mid, indent + line);
    lemma_known_on(mid, wrote(mid, indent + line), prefix, key);
    lemma_shown(mid, indent, line);
}

/// The item stands in its box, under the identifier it has for good.
pub open spec fn boxed(p: PenV, item: ItemV, o: OptionsV) -> bool {
    boxed_name(item) matches Some(name) && known(p, "n"@, name) && contains(
        p.out,
        shape_of(named(p, "n"@, name), item, o.show_cfg),
    )
}

pub(crate) proof fn lemma_boxed_on(a: PenV, b: PenV, item: ItemV, o: OptionsV)
    requires
        follows(a, b),
        boxed(a, item, o),
    ensures
        boxed(b, item, o),
{
    let name = boxed_name(item)->0;
    lemma_known_on(a, b, "n"@, name);
    lemma_shown_on(a, b, shape_of(named(a, "n"@, name), item, o.show_cfg));
}

pub(crate) proof fn lemma_members(
    items: Seq<ItemV>,
    group: Option<Seq<char>>,
    o: OptionsV,
    indent: Seq<char>,
    i: int,
    pen: PenV,
    k: int,
)
    requires
        0 <= i,
    ensures
        follows(pen, draw_members_from(items, group, o, indent, i, pen)),
        i <= k < items.len() && in_group(items[k], group, o) ==> boxed(
            draw_members_from(items, group, o, indent, i, pen),
            items[k],
            o,
        ),
    decreases items.len() - i,
{
    lemma_still(pen);
    if i < items.len() {
        let next = draw_members_step(items[i], group, o, indent, pen);
        let last = draw_members_from(items, group, o, indent, i + 1, next);
        lemma_members(items, group, o, indent, i + 1, next, k);
        if in_group(items[i], group, o) {
            let name = boxed_name(items[i])->0;
            let shape = shape_of(named(pen, "n"@, name), items[i], o.show_cfg);
            lemma_one(pen, "n"@, name, indent, shape);
            assert(boxed(next, items[i], o));
            lemma_boxed_on(next, last, items[i], o);
        }
        lemma_on(pen, next, last);
    }
}

pub(crate) proof fn lemma_group(
    items: Seq<ItemV>,
    group: Option<Seq<char>>,
    many: bool,
    o: OptionsV,
    pen: PenV,
    k: int,
)
    ensures
        follows(pen, draw_groups_step(items, group, many, o, pen)),
        0 <= k < items.len() && in_group(items[k], group, o) ==> boxed(
            draw_groups_step(items, group, many, o, pen),
            items[k],
            o,
        ),
{
    lemma_still(pen);
    if group is Some && many {
        let name = group->0;
        let line = "  subgraph "@ + named(pen, "f"@, name) + "[\""@ + escaped(name) + "\"]"@;
        let first = wrote(naming(pen, "f"@, name), line);
        let opened = wrote(first, "    direction "@ + o.direction);
        let full = draw_members_from(items, group, o, "    "@, 0, opened);
        lemma_line(pen, "f"@, name, line);
        lemma_wrote(first, "    direction "@ + o.direction);
        lemma_on(pen, first, opened);
        lemma_members(items, group, o, "    "@, 0, opened, k);
        lemma_on(pen, opened, full);
        lemma_wrote(full, "  end"@);
        lemma_on(pen, full, wrote(full, "  end"@));
        if 0 <= k < items.len() && in_group(items[k], group, o) {
            lemma_boxed_on(full, wrote(full, "  end"@), items[k], o);
        }
    } else {
        lemma_members(items, group, o, "  "@, 0, pen, k);
    }
}

pub(crate) proof fn lemma_groups(
    items: Seq<ItemV>,
    groups: Seq<Option<Seq<char>>>,
    many: bool,
    o: OptionsV,
    i: int,
    pen: PenV,
    k: int,
    g: int,
)
    requires
        0 <= i,
    ensures
        follows(pen, draw_groups_from(items, groups, many, o, i, pen)),
        0 <= k < items.len() && i <= g < groups.len() && in_group(items[k], groups[g], o) ==> boxed(
            draw_groups_from(items, groups, many, o, i, pen),
            items[k],
            o,
        ),
    decreases groups.len() - i,
{
    lemma_still(pen);
    if i < groups.len() {
        let next = draw_groups_step(items, groups[i], many, o, pen);
        let last = draw_groups_from(items, groups, many, o, i + 1, next);
        lemma_group(items, groups[i], many, o, pen, k);
        lemma_groups(items, groups, many, o, i + 1, next, k, g);
        lemma_on(pen, next, last);
        if 0 <= k < items.len() && g == i && in_group(items[k], groups[g], o) {
            lemma_boxed_on(next, last, items[k], o);
        }
    }
}

pub(crate) proof fn lemma_group_listed(
    items: Seq<ItemV>,
    o: OptionsV,
    i: int,
    acc: Seq<Option<Seq<char>>>,
    k: int,
)
    requires
        0 <= i,
    ensures
        forall|x: Option<Seq<char>>| #[trigger]
            acc.contains(x) ==> groups_from(items, o, i, acc).contains(x),
        i <= k < items.len() ==> groups_from(items, o, i, acc).contains(group_of(items[k], o)),
    decreases items.len() - i,
{
    if i < items.len() {
        let g = group_of(items[i], o);
        let next = if acc.contains(g) {
            acc
        } else {
            acc.push(g)
        };
        lemma_group_listed(items, o, i + 1, next, k);
        if !acc.contains(g) {
            assert(next[acc.len() as int] == g);
            assert forall|x: Option<Seq<char>>| #[trigger]
                acc.contains(x) implies next.contains(x) by {
                let m = choose|m: int| 0 <= m < acc.len() && acc[m] == x;
                assert(next[m] == x);
            }
        }
        assert(next.contains(g));
    }
}

pub(crate) proof fn lemma_links(
    d: DeclV,
    o: OptionsV,
    template: Seq<char>,
    items: Seq<ItemV>,
    i: int,
    pen: PenV,
)
    requires
        0 <= i,
    ensures
        follows(pen, draw_links_from(d, o, template, items, i, pen)),
    decreases items.len() - i,
{
    lemma_still(pen);
    if i < items.len() {
        let next = draw_links_step(d, o, template, items[i], pen);
        if let Some(name) = boxed_name(items[i]) {
            lemma_line(
                pen,
                "n"@,
                name,
                "  click "@ + named(pen, "n"@, name) + " \""@ + escaped(
                    link_url(d, o, template, items[i]),
                ) + "\""@,
            );
        }
        lemma_links(d, o, template, items, i + 1, next);
        lemma_on(pen, next, draw_links_from(d, o, template, items, i + 1, next));
    }
}

/// What nothing here declares stands in a box of its own.
pub open spec fn external_boxed(p: PenV, name: Seq<char>) -> bool {
    known(p, "n"@, name) && contains(
        p.out,
        named(p, "n"@, name) + "([\""@ + escaped(name) + "\"])"@,
    )
}

pub(crate) proof fn lemma_external_on(a: PenV, b: PenV, name: Seq<char>)
    requires
        follows(a, b),
        external_boxed(a, name),
    ensures
        external_boxed(b, name),
{
    lemma_known_on(a, b, "n"@, name);
    lemma_shown_on(a, b, named(a, "n"@, name) + "([\""@ + escaped(name) + "\"])"@);
}

pub(crate) proof fn lemma_externals_drawn(names: Seq<Seq<char>>, i: int, pen: PenV, name: Seq<char>)
    requires
        0 <= i,
    ensures
        follows(pen, draw_externals_from(names, i, pen)),
        (exists|k: int| i <= k < names.len() && names[k] == name) ==> external_boxed(
            draw_externals_from(names, i, pen),
            name,
        ),
    decreases names.len() - i,
{
    lemma_still(pen);
    if i < names.len() {
        let next = draw_externals_step(names[i], pen);
        let last = draw_externals_from(names, i + 1, next);
        let id = named(pen, "n"@, names[i]);
        let line = id + "([\""@ + escaped(names[i]) + "\"])"@;
        assert("  "@ + id + "([\""@ + escaped(names[i]) + "\"])"@ == "  "@ + line);
        lemma_one(pen, "n"@, names[i], "  "@, line);
        assert(external_boxed(next, names[i]));
        lemma_externals_drawn(names, i + 1, next, name);
        lemma_on(pen, next, last);
        lemma_external_on(next, last, names[i]);
    }
}

/// The edge of a dep, between the identifiers of its ends.
pub open spec fn dep_line(p: PenV, x: (Seq<char>, DepV), o: OptionsV) -> Seq<char> {
    let from = named(p, "n"@, x.1.ident);
    let to = named(p, "n"@, x.0);
    let label = dep_label(x.1, o.show_cfg);
    if o.runtime {
        spawn_edge(from, to, label)
    } else {
        dep_edge(from, to, x.1, label)
    }
}

/// A dep stands as an edge between its two ends.
pub open spec fn joined_by_dep(p: PenV, x: (Seq<char>, DepV), o: OptionsV) -> bool {
    known(p, "n"@, x.0) && known(p, "n"@, x.1.ident) && contains(p.out, dep_line(p, x, o))
}

pub(crate) proof fn lemma_dep_on(a: PenV, b: PenV, x: (Seq<char>, DepV), o: OptionsV)
    requires
        follows(a, b),
        joined_by_dep(a, x, o),
    ensures
        joined_by_dep(b, x, o),
{
    lemma_known_on(a, b, "n"@, x.0);
    lemma_known_on(a, b, "n"@, x.1.ident);
    lemma_shown_on(a, b, dep_line(a, x, o));
}

/// Two elements named and a line written: both are known for good, and the line stands.
pub(crate) proof fn lemma_two(
    a: PenV,
    prefix: Seq<char>,
    key: Seq<char>,
    other_prefix: Seq<char>,
    other: Seq<char>,
    indent: Seq<char>,
    line: Seq<char>,
)
    ensures
        ({
            let mid = naming(a, prefix, key);
            let b = wrote(naming(mid, other_prefix, other), indent + line);
            &&& follows(a, b)
            &&& known(b, prefix, key)
            &&& named(b, prefix, key) == named(a, prefix, key)
            &&& known(b, other_prefix, other)
            &&& named(b, other_prefix, other) == named(mid, other_prefix, other)
            &&& contains(b.out, line)
        }),
{
    let mid = naming(a, prefix, key);
    let both = naming(mid, other_prefix, other);
    let b = wrote(both, indent + line);
    lemma_link(a, prefix, key, other_prefix, other, indent + line);
    lemma_named(a, prefix, key);
    lemma_named(mid, other_prefix, other);
    lemma_naming(mid, other_prefix, other);
    lemma_wrote(both, indent + line);
    lemma_on(mid, both, b);
    lemma_known_on(mid, b, prefix, key);
    lemma_known_on(both, b, other_prefix, other);
    lemma_shown(both, indent, line);
}

pub(crate) proof fn lemma_deps(edges: Seq<(Seq<char>, DepV)>, o: OptionsV, i: int, pen: PenV, k: int)
    requires
        0 <= i,
    ensures
        follows(pen, draw_deps_from(edges, o, i, pen)),
        i <= k < edges.len() ==> joined_by_dep(draw_deps_from(edges, o, i, pen), edges[k], o),
    decreases edges.len() - i,
{
    lemma_still(pen);
    if i < edges.len() {
        let x = edges[i];
        let next = draw_deps_step(x, o, pen);
        let last = draw_deps_from(edges, o, i + 1, next);
        let mid = naming(pen, "n"@, x.0);
        let to = named(pen, "n"@, x.0);
        let from = named(mid, "n"@, x.1.ident);
        let label = dep_label(x.1, o.show_cfg);
        let line = if o.runtime {
            spawn_edge(from, to, label)
        } else {
            dep_edge(from, to, x.1, label)
        };
        lemma_two(pen, "n"@, x.0, "n"@, x.1.ident, "  "@, line);
        assert(joined_by_dep(next, x, o));
        lemma_deps(edges, o, i + 1, next, k);
        lemma_on(pen, next, last);
        lemma_dep_on(next, last, x, o);
    }
}

/// `b` is what becomes of `a`: more text, and every reader kept.
pub open spec fn flow_follows(a: FlowV, b: FlowV) -> bool {
    &&& follows(a.pen, b.pen)
    &&& a.readers.is_prefix_of(b.readers)
}

pub(crate) proof fn lemma_flow_still(a: FlowV)
    ensures
        flow_follows(a, a),
{
    lemma_still(a.pen);
    assert(a.readers.subrange(0, a.readers.len() as int) == a.readers);
}

pub(crate) proof fn lemma_flow_on(a: FlowV, b: FlowV, c: FlowV)
    requires
        flow_follows(a, b),
        flow_follows(b, c),
    ensures
        flow_follows(a, c),
{
    lemma_on(a.pen, b.pen, c.pen);
    assert(c.readers.subrange(0, b.readers.len() as int).subrange(0, a.readers.len() as int)
        == c.readers.subrange(0, a.readers.len() as int));
}

/// A declared signal stands in its box.
pub open spec fn signal_boxed(p: PenV, entry: (Seq<char>, Seq<char>)) -> bool {
    known(p, "s"@, entry.0) && contains(
        p.out,
        named(p, "s"@, entry.0) + "[/\""@ + escaped(unresolved_label(entry.1)) + "\"/]"@,
    )
}

pub(crate) proof fn lemma_signal_on(a: PenV, b: PenV, entry: (Seq<char>, Seq<char>))
    requires
        follows(a, b),
        signal_boxed(a, entry),
    ensures
        signal_boxed(b, entry),
{
    lemma_known_on(a, b, "s"@, entry.0);
    lemma_shown_on(
        a,
        b,
        named(a, "s"@, entry.0) + "[/\""@ + escaped(unresolved_label(entry.1)) + "\"/]"@,
    );
}

pub(crate) proof fn lemma_signals(entries: Seq<(Seq<char>, Seq<char>)>, i: int, flow: FlowV, k: int)
    requires
        0 <= i,
    ensures
        flow_follows(flow, draw_signals_from(entries, i, flow)),
        i <= k < entries.len() ==> signal_boxed(
            draw_signals_from(entries, i, flow).pen,
            entries[k],
        ),
    decreases entries.len() - i,
{
    lemma_flow_still(flow);
    if i < entries.len() {
        let entry = entries[i];
        let next = draw_signals_step(entry, flow);
        let last = draw_signals_from(entries, i + 1, next);
        let id = named(flow.pen, "s"@, entry.0);
        let label = escaped(unresolved_label(entry.1));
        let line = id + "[/\""@ + label + "\"/]"@;
        assert("  "@ + id + "[/\""@ + label + "\"/]"@ == "  "@ + line);
        lemma_one(flow.pen, "s"@, entry.0, "  "@, line);
        assert(signal_boxed(next.pen, entry));
        lemma_signals(entries, i + 1, next, k);
        lemma_flow_on(flow, next, last);
        lemma_signal_on(next.pen, last.pen, entry);
    }
}

/// The coupling of a node to a signal is drawn, or kept among the readers to be drawn.
pub open spec fn pending(
    flow: FlowV,
    node: Seq<char>,
    signal: Seq<char>,
    write: bool,
    label: Seq<char>,
    dotted: bool,
) -> bool {
    let from = named(flow.pen, "n"@, node);
    let sig = named(flow.pen, "s"@, signal);
    &&& known(flow.pen, "n"@, node)
    &&& known(flow.pen, "s"@, signal)
    &&& if write {
        contains(flow.pen.out, signal_edge(from, sig, label, dotted))
    } else {
        flow.readers.contains(
            ReaderV { signal: sig, node, edge: signal_edge(sig, from, label, dotted) },
        )
    }
}

pub(crate) proof fn lemma_pending_on(
    a: FlowV,
    b: FlowV,
    node: Seq<char>,
    signal: Seq<char>,
    write: bool,
    label: Seq<char>,
    dotted: bool,
)
    requires
        flow_follows(a, b),
        pending(a, node, signal, write, label, dotted),
    ensures
        pending(b, node, signal, write, label, dotted),
{
    lemma_known_on(a.pen, b.pen, "n"@, node);
    lemma_known_on(a.pen, b.pen, "s"@, signal);
    let from = named(a.pen, "n"@, node);
    let sig = named(a.pen, "s"@, signal);
    if write {
        lemma_shown_on(a.pen, b.pen, signal_edge(from, sig, label, dotted));
    } else {
        let r = ReaderV { signal: sig, node, edge: signal_edge(sig, from, label, dotted) };
        let m = choose|m: int| 0 <= m < a.readers.len() && a.readers[m] == r;
        assert(b.readers.subrange(0, a.readers.len() as int)[m] == b.readers[m]);
        assert(b.readers[m] == r);
    }
}

/// A reader more, and nothing else.
pub(crate) proof fn lemma_reader_added(flow: FlowV, pen: PenV, emitted: Seq<Seq<char>>, r: ReaderV)
    requires
        follows(flow.pen, pen),
    ensures
        flow_follows(flow, FlowV { pen, emitted, readers: flow.readers.push(r) }),
        flow.readers.push(r).contains(r),
{
    let more = flow.readers.push(r);
    assert(more.subrange(0, flow.readers.len() as int) == flow.readers);
    assert(more[flow.readers.len() as int] == r);
}

pub(crate) proof fn lemma_coupling(c: CouplingV, o: OptionsV, dotted: bool, flow: FlowV)
    ensures
        flow_follows(flow, draw_couplings_step(c, o, dotted, flow)),
        pending(
            draw_couplings_step(c, o, dotted, flow),
            c.node,
            signal_name(c.sig),
            c.write,
            coupling_label(c.sig, o.show_cfg),
            dotted,
        ),
{
    let name = signal_name(c.sig);
    let label = coupling_label(c.sig, o.show_cfg);
    let node = named(flow.pen, "n"@, c.node);
    let mid = naming(flow.pen, "n"@, c.node);
    let sig = named(mid, "s"@, name);
    let pen = naming(mid, "s"@, name);
    let next = draw_couplings_step(c, o, dotted, flow);
    if c.write {
        lemma_two(
            flow.pen,
            "n"@,
            c.node,
            "s"@,
            name,
            "  "@,
            signal_edge(node, sig, label, dotted),
        );
        assert(flow.readers.subrange(0, flow.readers.len() as int) == flow.readers);
    } else {
        lemma_naming(flow.pen, "n"@, c.node);
        lemma_naming(mid, "s"@, name);
        lemma_on(flow.pen, mid, pen);
        lemma_named(flow.pen, "n"@, c.node);
        lemma_named(mid, "s"@, name);
        lemma_known_on(mid, pen, "n"@, c.node);
        lemma_reader_added(
            flow,
            pen,
            flow.emitted,
            ReaderV { signal: sig, node: c.node, edge: signal_edge(sig, node, label, dotted) },
        );
    }
}

pub(crate) proof fn lemma_couplings(
    list: Seq<CouplingV>,
    o: OptionsV,
    dotted: bool,
    i: int,
    flow: FlowV,
    k: int,
)
    requires
        0 <= i,
    ensures
        flow_follows(flow, draw_couplings_from(list, o, dotted, i, flow)),
        i <= k < list.len() ==> pending(
            draw_couplings_from(list, o, dotted, i, flow),
            list[k].node,
            signal_name(list[k].sig),
            list[k].write,
            coupling_label(list[k].sig, o.show_cfg),
            dotted,
        ),
    decreases list.len() - i,
{
    lemma_flow_still(flow);
    if i < list.len() {
        let c = list[i];
        let next = draw_couplings_step(c, o, dotted, flow);
        let last = draw_couplings_from(list, o, dotted, i + 1, next);
        lemma_coupling(c, o, dotted, flow);
        lemma_couplings(list, o, dotted, i + 1, next, k);
        lemma_flow_on(flow, next, last);
        lemma_pending_on(
            next,
            last,
            c.node,
            signal_name(c.sig),
            c.write,
            coupling_label(c.sig, o.show_cfg),
            dotted,
        );
    }
}

pub(crate) proof fn lemma_box(key: Seq<char>, o: OptionsV, flow: FlowV)
    ensures
        flow_follows(flow, with_box(key, o, flow)),
{
    lemma_flow_still(flow);
    if !flow.emitted.contains(key) {
        let label = if o.full_paths {
            key
        } else {
            after_last(key, "::"@)
        };
        lemma_line(
            flow.pen,
            "s"@,
            key,
            "  "@ + named(flow.pen, "s"@, key) + "[/\""@ + escaped(label) + "\"/]"@,
        );
    }
}

/// The signal that an access found in a function is drawn to.
pub open spec fn access_pending(
    flow: FlowV,
    node: Seq<char>,
    d: DiscoveredV,
    o: OptionsV,
    dotted: bool,
) -> bool {
    exists|signal: Seq<char>|
        #[trigger] pending(
            flow,
            node,
            signal,
            d.access.write,
            access_label(d, o.show_cfg),
            dotted,
        )
}

pub(crate) proof fn lemma_access_on(
    a: FlowV,
    b: FlowV,
    node: Seq<char>,
    d: DiscoveredV,
    o: OptionsV,
    dotted: bool,
)
    requires
        flow_follows(a, b),
        access_pending(a, node, d, o, dotted),
    ensures
        access_pending(b, node, d, o, dotted),
{
    let label = access_label(d, o.show_cfg);
    let signal = choose|signal: Seq<char>|
        #[trigger] pending(a, node, signal, d.access.write, label, dotted);
    lemma_pending_on(a, b, node, signal, d.access.write, label, dotted);
}

pub(crate) proof fn lemma_access(
    node: Seq<char>,
    d: DiscoveredV,
    declared: Seq<Seq<char>>,
    o: OptionsV,
    dotted: bool,
    flow: FlowV,
)
    requires
        known(flow.pen, "n"@, node),
    ensures
        flow_follows(
            flow,
            draw_access(node, named(flow.pen, "n"@, node), d, declared, o, dotted, flow),
        ),
        access_pending(
            draw_access(node, named(flow.pen, "n"@, node), d, declared, o, dotted, flow),
            node,
            d,
            o,
            dotted,
        ),
{
    let id = named(flow.pen, "n"@, node);
    let key = discovered_key(d, flow.emitted, declared);
    let boxed = with_box(key, o, flow);
    let sig = named(boxed.pen, "s"@, key);
    let pen = naming(boxed.pen, "s"@, key);
    let label = access_label(d, o.show_cfg);
    let next = draw_access(node, id, d, declared, o, dotted, flow);
    lemma_box(key, o, flow);
    lemma_naming(boxed.pen, "s"@, key);
    lemma_named(boxed.pen, "s"@, key);
    if d.access.write {
        let line = signal_edge(id, sig, label, dotted);
        lemma_one(boxed.pen, "s"@, key, "  "@, line);
        assert(boxed.readers.subrange(0, boxed.readers.len() as int) == boxed.readers);
    } else {
        lemma_reader_added(
            boxed,
            pen,
            boxed.emitted,
            ReaderV { signal: sig, node, edge: signal_edge(sig, id, label, dotted) },
        );
    }
    lemma_flow_on(flow, boxed, next);
    lemma_known_on(flow.pen, next.pen, "n"@, node);
    assert(pending(next, node, key, d.access.write, label, dotted));
}

pub(crate) proof fn lemma_accesses(
    funcs: Seq<FnRef>,
    module: Seq<char>,
    node: Seq<char>,
    node_id: Seq<char>,
    declared: Seq<Seq<char>>,
    o: OptionsV,
    dotted: bool,
    j: int,
    flow: FlowV,
    m: int,
)
    requires
        0 <= j,
        known(flow.pen, "n"@, node),
        node_id == named(flow.pen, "n"@, node),
    ensures
        flow_follows(
            flow,
            draw_accesses(funcs, module, node, node_id, declared, o, dotted, j, flow),
        ),
        j <= m < o.discovered.len() && first_access(funcs, o.discovered, module, m)
            ==> access_pending(
            draw_accesses(funcs, module, node, node_id, declared, o, dotted, j, flow),
            node,
            o.discovered[m],
            o,
            dotted,
        ),
    decreases o.discovered.len() - j,
{
    lemma_flow_still(flow);
    if j < o.discovered.len() {
        let first = first_access(funcs, o.discovered, module, j);
        let d = o.discovered[j];
        let next = if first {
            draw_access(node, node_id, d, declared, o, dotted, flow)
        } else {
            flow
        };
        let last = draw_accesses(funcs, module, node, node_id, declared, o, dotted, j + 1, next);
        if first {
            lemma_access(node, d, declared, o, dotted, flow);
            lemma_known_on(flow.pen, next.pen, "n"@, node);
        }
        lemma_accesses(funcs, module, node, node_id, declared, o, dotted, j + 1, next, m);
        lemma_flow_on(flow, next, last);
        if first {
            lemma_access_on(next, last, node, d, o, dotted);
        }
    }
}

/// The access number `m` found in a function is one that item `item` makes.
pub open spec fn makes_access(item: ItemV, module: Seq<char>, o: OptionsV, m: int) -> bool {
    &&& boxed_name(item) is Some
    &&& flow_fns(item, o.bundles).len() > 0
    &&& 0 <= m < o.discovered.len()
    &&& first_access(flow_fns(item, o.bundles), o.discovered, module, m)
}

pub(crate) proof fn lemma_discovered(
    items: Seq<ItemV>,
    module: Seq<char>,
    declared: Seq<Seq<char>>,
    o: OptionsV,
    dotted: bool,
    i: int,
    flow: FlowV,
    k: int,
    m: int,
)
    requires
        0 <= i,
    ensures
        flow_follows(flow, draw_discovered_from(items, module, declared, o, dotted, i, flow)),
        i <= k < items.len() && makes_access(items[k], module, o, m) ==> access_pending(
            draw_discovered_from(items, module, declared, o, dotted, i, flow),
            boxed_name(items[k])->0,
            o.discovered[m],
            o,
            dotted,
        ),
    decreases items.len() - i,
{
    lemma_flow_still(flow);
    if i < items.len() {
        let item = items[i];
        let funcs = flow_fns(item, o.bundles);
        let next = draw_discovered_step(item, module, declared, o, dotted, flow);
        let last = draw_discovered_from(items, module, declared, o, dotted, i + 1, next);
        if boxed_name(item) is Some && funcs.len() > 0 {
            let name = boxed_name(item)->0;
            let opened = FlowV {
                pen: naming(flow.pen, "n"@, name),
                emitted: flow.emitted,
                readers: flow.readers,
            };
            let id = named(flow.pen, "n"@, name);
            lemma_naming(flow.pen, "n"@, name);
            lemma_named(flow.pen, "n"@, name);
            assert(flow.readers.subrange(0, flow.readers.len() as int) == flow.readers);
            lemma_accesses(funcs, module, name, id, declared, o, dotted, 0, opened, m);
            lemma_flow_on(flow, opened, next);
        }
        lemma_discovered(items, module, declared, o, dotted, i + 1, next, k, m);
        lemma_flow_on(flow, next, last);
        if makes_access(item, module, o, m) {
            lemma_access_on(next, last, boxed_name(item)->0, o.discovered[m], o, dotted);
        }
    }
}

pub(crate) proof fn lemma_elements(names: Seq<Seq<char>>, i: int, pen: PenV)
    requires
        0 <= i,
    ensures
        follows(pen, draw_elements_from(names, i, pen)),
    decreases names.len() - i,
{
    lemma_still(pen);
    if i < names.len() {
        let next = draw_elements_step(names[i], names, pen);
        if let Some(whole) = whole_of(names, names[i]) {
            let mid = naming(pen, "s"@, names[i]);
            lemma_link(
                pen,
                "s"@,
                names[i],
                "s"@,
                whole,
                "  "@ + named(pen, "s"@, names[i]) + " -. \"element of\" .- "@ + named(
                    mid,
                    "s"@,
                    whole,
                ),
            );
        }
        lemma_elements(names, i + 1, next);
        lemma_on(pen, next, draw_elements_from(names, i + 1, next));
    }
}

pub(crate) proof fn lemma_edges(readers: Seq<ReaderV>, i: int, pen: PenV, r: ReaderV)
    requires
        0 <= i,
    ensures
        follows(pen, draw_edges_from(readers, i, pen)),
        (exists|m: int| i <= m < readers.len() && readers[m] == r) ==> contains(
            draw_edges_from(readers, i, pen).out,
            r.edge,
        ),
    decreases readers.len() - i,
{
    lemma_still(pen);
    if i < readers.len() {
        let next = draw_edges_step(readers[i], pen);
        let last = draw_edges_from(readers, i + 1, next);
        lemma_wrote(pen, "  "@ + readers[i].edge);
        lemma_shown(pen, "  "@, readers[i].edge);
        lemma_edges(readers, i + 1, next, r);
        lemma_on(pen, next, last);
        lemma_shown_on(next, last, readers[i].edge);
    }
}

pub(crate) proof fn lemma_readers_of(
    readers: Seq<ReaderV>,
    signal: Seq<char>,
    i: int,
    acc: Seq<ReaderV>,
    r: ReaderV,
)
    requires
        0 <= i,
        r.signal == signal,
    ensures
        acc.contains(r) || (exists|m: int| i <= m < readers.len() && readers[m] == r)
            ==> readers_of_from(readers, signal, i, acc).contains(r),
    decreases readers.len() - i,
{
    if i < readers.len() {
        let next = if readers[i].signal == signal {
            acc.push(readers[i])
        } else {
            acc
        };
        lemma_readers_of(readers, signal, i + 1, next, r);
        if acc.contains(r) {
            let m = choose|m: int| 0 <= m < acc.len() && acc[m] == r;
            assert(next[m] == r);
        }
        if readers[i] == r {
            assert(next[acc.len() as int] == r);
        }
    }
}

/// The edge of a reader stands, or the readers of its signal are folded into one box.
pub open spec fn reader_drawn(out: Seq<char>, r: ReaderV, o: OptionsV, dotted: bool) -> bool {
    ||| contains(out, r.edge)
    ||| o.max_fanout > 0 && contains(out, signal_edge(r.signal, "fan_"@ + r.signal, ""@, dotted))
}

pub(crate) proof fn lemma_reader_on(a: PenV, b: PenV, r: ReaderV, o: OptionsV, dotted: bool)
    requires
        follows(a, b),
        reader_drawn(a.out, r, o, dotted),
    ensures
        reader_drawn(b.out, r, o, dotted),
{
    if contains(a.out, r.edge) {
        lemma_shown_on(a, b, r.edge);
    } else {
        lemma_shown_on(a, b, signal_edge(r.signal, "fan_"@ + r.signal, ""@, dotted));
    }
}

pub(crate) proof fn lemma_reader(
    signal: Seq<char>,
    readers: Seq<ReaderV>,
    o: OptionsV,
    dotted: bool,
    pen: PenV,
    r: ReaderV,
)
    ensures
        follows(pen, draw_readers_step(signal, readers, o, dotted, pen)),
        r.signal == signal && readers.contains(r) ==> reader_drawn(
            draw_readers_step(signal, readers, o, dotted, pen).out,
            r,
            o,
            dotted,
        ),
{
    let mine = readers_of_from(readers, signal, 0, Seq::empty());
    if r.signal == signal {
        lemma_readers_of(readers, signal, 0, Seq::empty(), r);
    }
    if o.max_fanout > 0 && mine.len() > o.max_fanout {
        let fan = "fan_"@ + signal;
        let line = "  "@ + fan + "[\""@ + decimal(mine.len()) + " readers: "@ + escaped(
            joined(reader_nodes(mine), ", "@),
        ) + "\"]"@;
        let mid = wrote(pen, line);
        let edge = signal_edge(signal, fan, ""@, dotted);
        lemma_wrote(pen, line);
        lemma_wrote(mid, "  "@ + edge);
        lemma_on(pen, mid, wrote(mid, "  "@ + edge));
        lemma_shown(mid, "  "@, edge);
    } else {
        lemma_edges(mine, 0, pen, r);
    }
}

pub(crate) proof fn lemma_readers(
    signals: Seq<Seq<char>>,
    readers: Seq<ReaderV>,
    o: OptionsV,
    dotted: bool,
    i: int,
    pen: PenV,
    r: ReaderV,
)
    requires
        0 <= i,
        readers.contains(r),
    ensures
        follows(pen, draw_readers_from(signals, readers, o, dotted, i, pen)),
        (exists|m: int| i <= m < signals.len() && signals[m] == r.signal) ==> reader_drawn(
            draw_readers_from(signals, readers, o, dotted, i, pen).out,
            r,
            o,
            dotted,
        ),
    decreases signals.len() - i,
{
    lemma_still(pen);
    if i < signals.len() {
        let next = draw_readers_step(signals[i], readers, o, dotted, pen);
        let last = draw_readers_from(signals, readers, o, dotted, i + 1, next);
        lemma_reader(signals[i], readers, o, dotted, pen, r);
        lemma_readers(signals, readers, o, dotted, i + 1, next, r);
        lemma_on(pen, next, last);
        if signals[i] == r.signal {
            lemma_reader_on(next, last, r, o, dotted);
        }
    }
}

pub(crate) proof fn lemma_names(p: PenV, prefix: Seq<char>, keys: Seq<Seq<char>>, i: int, acc: Seq<Seq<char>>)
    requires
        0 <= i,
    ensures
        follows(p, named_from(p, prefix, keys, i, acc).0),
    decreases keys.len() - i,
{
    lemma_still(p);
    if i < keys.len() {
        let next = naming(p, prefix, keys[i]);
        let ids = acc.push(named(p, prefix, keys[i]));
        lemma_naming(p, prefix, keys[i]);
        lemma_names(next, prefix, keys, i + 1, ids);
        lemma_on(p, next, named_from(next, prefix, keys, i + 1, ids).0);
    }
}

pub(crate) proof fn lemma_class(prefix: Seq<char>, names: Seq<Seq<char>>, class: Seq<char>, pen: PenV)
    ensures
        follows(pen, draw_class(prefix, names, class, pen)),
{
    lemma_still(pen);
    if names.len() > 0 {
        let (after, ids) = all_named(pen, prefix, names);
        lemma_names(pen, prefix, names, 0, Seq::empty());
        lemma_wrote(after, "  class "@ + joined(ids, ","@) + " "@ + class + ";"@);
        lemma_on(pen, after, draw_class(prefix, names, class, pen));
    }
}

/// A coupling of a node to a signal stands as an edge between the two. One that reads may stand
/// folded with the other readers of the signal, where the view folds many readers.
pub open spec fn tied(
    p: PenV,
    node: Seq<char>,
    signal: Seq<char>,
    write: bool,
    label: Seq<char>,
    o: OptionsV,
) -> bool {
    let dotted = o.signals && !o.runtime;
    let from = named(p, "n"@, node);
    let sig = named(p, "s"@, signal);
    &&& known(p, "n"@, node)
    &&& known(p, "s"@, signal)
    &&& if write {
        contains(p.out, signal_edge(from, sig, label, dotted))
    } else {
        reader_drawn(
            p.out,
            ReaderV { signal: sig, node, edge: signal_edge(sig, from, label, dotted) },
            o,
            dotted,
        )
    }
}

pub(crate) proof fn lemma_tied_on(
    a: PenV,
    b: PenV,
    node: Seq<char>,
    signal: Seq<char>,
    write: bool,
    label: Seq<char>,
    o: OptionsV,
)
    requires
        follows(a, b),
        tied(a, node, signal, write, label, o),
    ensures
        tied(b, node, signal, write, label, o),
{
    let dotted = o.signals && !o.runtime;
    let from = named(a, "n"@, node);
    let sig = named(a, "s"@, signal);
    lemma_known_on(a, b, "n"@, node);
    lemma_known_on(a, b, "s"@, signal);
    if write {
        lemma_shown_on(a, b, signal_edge(from, sig, label, dotted));
    } else {
        let r = ReaderV { signal: sig, node, edge: signal_edge(sig, from, label, dotted) };
        lemma_reader_on(a, b, r, o, dotted);
    }
}

/// What a flowchart shows of signals before the readers are drawn.
pub open spec fn flow_before_readers(
    items: Seq<ItemV>,
    module: Seq<char>,
    o: OptionsV,
    pen: PenV,
) -> FlowV {
    let dotted = o.signals && !o.runtime;
    let start = FlowV { pen: wrote(pen, ""@), emitted: Seq::empty(), readers: Seq::empty() };
    let boxes = draw_signals_from(labelled(signal_keys(items), o.full_paths), 0, start);
    let edges = draw_couplings_from(couplings(items), o, dotted, 0, boxes);
    draw_discovered_from(items, module, edges.emitted, o, dotted, 0, edges)
}

pub(crate) proof fn lemma_flow_settled(
    items: Seq<ItemV>,
    module: Seq<char>,
    o: OptionsV,
    pen: PenV,
    node: Seq<char>,
    signal: Seq<char>,
    write: bool,
    label: Seq<char>,
)
    requires
        pending(
            flow_before_readers(items, module, o, pen),
            node,
            signal,
            write,
            label,
            o.signals && !o.runtime,
        ),
    ensures
        tied(draw_flow(items, module, o, pen), node, signal, write, label, o),
{
    let dotted = o.signals && !o.runtime;
    let all = flow_before_readers(items, module, o, pen);
    let elements = draw_elements_from(all.emitted, 0, all.pen);
    let signals = ordered(reader_signals(all.readers));
    let read = draw_readers_from(signals, all.readers, o, dotted, 0, elements);
    let last = draw_flow(items, module, o, pen);
    let from = named(all.pen, "n"@, node);
    let sig = named(all.pen, "s"@, signal);
    lemma_elements(all.emitted, 0, all.pen);
    lemma_class("s"@, all.emitted, "signal"@, read);
    if write {
        lemma_readers_still(signals, all.readers, o, dotted, 0, elements);
    } else {
        let r = ReaderV { signal: sig, node, edge: signal_edge(sig, from, label, dotted) };
        let m = choose|m: int| 0 <= m < all.readers.len() && all.readers[m] == r;
        assert(reader_signals(all.readers)[m] == sig);
        ordering_sorts_and_keeps(reader_signals(all.readers), sig);
        lemma_readers(signals, all.readers, o, dotted, 0, elements, r);
        lemma_reader_on(read, last, r, o, dotted);
    }
    lemma_on(all.pen, elements, read);
    lemma_on(all.pen, read, last);
    lemma_known_on(all.pen, last, "n"@, node);
    lemma_known_on(all.pen, last, "s"@, signal);
    if write {
        lemma_shown_on(all.pen, last, signal_edge(from, sig, label, dotted));
    }
}

pub(crate) proof fn lemma_readers_still(
    signals: Seq<Seq<char>>,
    readers: Seq<ReaderV>,
    o: OptionsV,
    dotted: bool,
    i: int,
    pen: PenV,
)
    requires
        0 <= i,
    ensures
        follows(pen, draw_readers_from(signals, readers, o, dotted, i, pen)),
    decreases signals.len() - i,
{
    lemma_still(pen);
    if i < signals.len() {
        let next = draw_readers_step(signals[i], readers, o, dotted, pen);
        lemma_reader(signals[i], readers, o, dotted, pen, arbitrary());
        lemma_readers_still(signals, readers, o, dotted, i + 1, next);
        lemma_on(pen, next, draw_readers_from(signals, readers, o, dotted, i + 1, next));
    }
}

/// An access found in a function is drawn to some signal.
pub open spec fn access_tied(p: PenV, node: Seq<char>, d: DiscoveredV, o: OptionsV) -> bool {
    exists|signal: Seq<char>|
        #[trigger] tied(p, node, signal, d.access.write, access_label(d, o.show_cfg), o)
}

pub(crate) proof fn lemma_flow(
    items: Seq<ItemV>,
    module: Seq<char>,
    o: OptionsV,
    pen: PenV,
    k: int,
    m: int,
)
    ensures
        follows(pen, draw_flow(items, module, o, pen)),
        0 <= k < signal_keys(items).len() ==> signal_boxed(
            draw_flow(items, module, o, pen),
            labelled(signal_keys(items), o.full_paths)[k],
        ),
        0 <= k < couplings(items).len() ==> tied(
            draw_flow(items, module, o, pen),
            couplings(items)[k].node,
            signal_name(couplings(items)[k].sig),
            couplings(items)[k].write,
            coupling_label(couplings(items)[k].sig, o.show_cfg),
            o,
        ),
        0 <= k < items.len() && makes_access(items[k], module, o, m) ==> access_tied(
            draw_flow(items, module, o, pen),
            boxed_name(items[k])->0,
            o.discovered[m],
            o,
        ),
{
    let dotted = o.signals && !o.runtime;
    let start = FlowV { pen: wrote(pen, ""@), emitted: Seq::empty(), readers: Seq::empty() };
    let entries = labelled(signal_keys(items), o.full_paths);
    let list = couplings(items);
    let boxes = draw_signals_from(entries, 0, start);
    let edges = draw_couplings_from(list, o, dotted, 0, boxes);
    let all = draw_discovered_from(items, module, edges.emitted, o, dotted, 0, edges);
    assert(all == flow_before_readers(items, module, o, pen));
    let elements = draw_elements_from(all.emitted, 0, all.pen);
    let signals = ordered(reader_signals(all.readers));
    let read = draw_readers_from(signals, all.readers, o, dotted, 0, elements);
    let last = draw_flow(items, module, o, pen);
    lemma_wrote(pen, ""@);
    lemma_signals(entries, 0, start, k);
    lemma_couplings(list, o, dotted, 0, boxes, k);
    lemma_discovered(items, module, edges.emitted, o, dotted, 0, edges, k, m);
    lemma_elements(all.emitted, 0, all.pen);
    lemma_readers_still(signals, all.readers, o, dotted, 0, elements);
    lemma_class("s"@, all.emitted, "signal"@, read);
    lemma_flow_on(boxes, edges, all);
    lemma_flow_on(start, boxes, all);
    lemma_on(pen, start.pen, all.pen);
    lemma_on(all.pen, elements, read);
    lemma_on(all.pen, read, last);
    lemma_on(pen, all.pen, last);
    if 0 <= k < signal_keys(items).len() {
        lemma_on(boxes.pen, all.pen, last);
        lemma_signal_on(boxes.pen, last, entries[k]);
    }
    if 0 <= k < list.len() {
        let c = list[k];
        let label = coupling_label(c.sig, o.show_cfg);
        lemma_pending_on(edges, all, c.node, signal_name(c.sig), c.write, label, dotted);
        lemma_flow_settled(items, module, o, pen, c.node, signal_name(c.sig), c.write, label);
    }
    if 0 <= k < items.len() && makes_access(items[k], module, o, m) {
        let node = boxed_name(items[k])->0;
        let d = o.discovered[m];
        let label = access_label(d, o.show_cfg);
        let signal = choose|signal: Seq<char>|
            #[trigger] pending(all, node, signal, d.access.write, label, dotted);
        lemma_flow_settled(items, module, o, pen, node, signal, d.access.write, label);
    }
}

/// A resource slot stands in its box.
pub open spec fn slot_boxed(p: PenV, name: Seq<char>) -> bool {
    known(p, "r"@, name) && contains(
        p.out,
        named(p, "r"@, name) + "@{ shape: notch-rect, label: \""@ + escaped(name) + "\" }"@,
    )
}

pub(crate) proof fn lemma_slot_on(a: PenV, b: PenV, name: Seq<char>)
    requires
        follows(a, b),
        slot_boxed(a, name),
    ensures
        slot_boxed(b, name),
{
    lemma_known_on(a, b, "r"@, name);
    lemma_shown_on(
        a,
        b,
        named(a, "r"@, name) + "@{ shape: notch-rect, label: \""@ + escaped(name) + "\" }"@,
    );
}

pub(crate) proof fn lemma_slots(names: Seq<Seq<char>>, i: int, pen: PenV, name: Seq<char>)
    requires
        0 <= i,
    ensures
        follows(pen, draw_slots_from(names, i, pen)),
        (exists|k: int| i <= k < names.len() && names[k] == name) ==> slot_boxed(
            draw_slots_from(names, i, pen),
            name,
        ),
    decreases names.len() - i,
{
    lemma_still(pen);
    if i < names.len() {
        let next = draw_slots_step(names[i], pen);
        let last = draw_slots_from(names, i + 1, next);
        let id = named(pen, "r"@, names[i]);
        let label = escaped(names[i]);
        let line = id + "@{ shape: notch-rect, label: \""@ + label + "\" }"@;
        assert("  "@ + id + "@{ shape: notch-rect, label: \""@ + label + "\" }"@ == "  "@ + line);
        lemma_one(pen, "r"@, names[i], "  "@, line);
        assert(slot_boxed(next, names[i]));
        lemma_slots(names, i + 1, next, name);
        lemma_on(pen, next, last);
        lemma_slot_on(next, last, names[i]);
    }
}

/// The use of a resource stands as an edge from its slot.
pub open spec fn joined_by_use(p: PenV, x: (Seq<char>, ResourceDeclV), o: OptionsV) -> bool {
    &&& known(p, "n"@, x.0)
    &&& known(p, "r"@, x.1.ident)
    &&& contains(
        p.out,
        resource_edge(named(p, "r"@, x.1.ident), named(p, "n"@, x.0), x.1, o.show_cfg),
    )
}

pub(crate) proof fn lemma_use_on(a: PenV, b: PenV, x: (Seq<char>, ResourceDeclV), o: OptionsV)
    requires
        follows(a, b),
        joined_by_use(a, x, o),
    ensures
        joined_by_use(b, x, o),
{
    lemma_known_on(a, b, "n"@, x.0);
    lemma_known_on(a, b, "r"@, x.1.ident);
    lemma_shown_on(
        a,
        b,
        resource_edge(named(a, "r"@, x.1.ident), named(a, "n"@, x.0), x.1, o.show_cfg),
    );
}

pub(crate) proof fn lemma_uses(
    uses: Seq<(Seq<char>, ResourceDeclV)>,
    o: OptionsV,
    i: int,
    pen: PenV,
    x: (Seq<char>, ResourceDeclV),
)
    requires
        0 <= i,
    ensures
        follows(pen, draw_uses_from(uses, o, i, pen)),
        (exists|k: int| i <= k < uses.len() && uses[k] == x) ==> joined_by_use(
            draw_uses_from(uses, o, i, pen),
            x,
            o,
        ),
    decreases uses.len() - i,
{
    lemma_still(pen);
    if i < uses.len() {
        let entry = uses[i];
        let next = draw_uses_step(entry, o, pen);
        let last = draw_uses_from(uses, o, i + 1, next);
        let node = named(pen, "n"@, entry.0);
        let slot = named(naming(pen, "n"@, entry.0), "r"@, entry.1.ident);
        let line = resource_edge(slot, node, entry.1, o.show_cfg);
        lemma_two(pen, "n"@, entry.0, "r"@, entry.1.ident, "  "@, line);
        assert(joined_by_use(next, entry, o));
        lemma_uses(uses, o, i + 1, next, x);
        lemma_on(pen, next, last);
        lemma_use_on(next, last, entry, o);
    }
}

/// What a node provides stands as an edge to its slot.
pub open spec fn joined_by_provide(
    p: PenV,
    node: Seq<char>,
    x: ProvideDeclV,
    o: OptionsV,
) -> bool {
    let label = match cfg_note(x.cfg, o.show_cfg) {
        Some(c) => "provides · "@ + c,
        None => "provides"@,
    };
    &&& known(p, "n"@, node)
    &&& known(p, "r"@, x.ident)
    &&& contains(
        p.out,
        named(p, "n"@, node) + " -- \""@ + escaped(label) + "\" --> "@ + named(p, "r"@, x.ident),
    )
}

pub(crate) proof fn lemma_provide_on(a: PenV, b: PenV, node: Seq<char>, x: ProvideDeclV, o: OptionsV)
    requires
        follows(a, b),
        joined_by_provide(a, node, x, o),
    ensures
        joined_by_provide(b, node, x, o),
{
    let label = match cfg_note(x.cfg, o.show_cfg) {
        Some(c) => "provides · "@ + c,
        None => "provides"@,
    };
    lemma_known_on(a, b, "n"@, node);
    lemma_known_on(a, b, "r"@, x.ident);
    lemma_shown_on(
        a,
        b,
        named(a, "n"@, node) + " -- \""@ + escaped(label) + "\" --> "@ + named(a, "r"@, x.ident),
    );
}

pub(crate) proof fn lemma_provide(
    node: Seq<char>,
    x: ProvideDeclV,
    slots: Seq<Seq<char>>,
    o: OptionsV,
    pen: PenV,
)
    ensures
        follows(pen, provide_step(node, x, slots, o, pen)),
        slots.contains(x.ident) ==> joined_by_provide(
            provide_step(node, x, slots, o, pen),
            node,
            x,
            o,
        ),
{
    lemma_still(pen);
    if slots.contains(x.ident) {
        let label = match cfg_note(x.cfg, o.show_cfg) {
            Some(c) => "provides · "@ + c,
            None => "provides"@,
        };
        let id = named(pen, "n"@, node);
        let slot = named(naming(pen, "n"@, node), "r"@, x.ident);
        let line = id + " -- \""@ + escaped(label) + "\" --> "@ + slot;
        assert("  "@ + id + " -- \""@ + escaped(label) + "\" --> "@ + slot == "  "@ + line);
        lemma_two(pen, "n"@, node, "r"@, x.ident, "  "@, line);
    }
}

pub(crate) proof fn lemma_provides(
    node: Seq<char>,
    list: Seq<ProvideDeclV>,
    slots: Seq<Seq<char>>,
    o: OptionsV,
    i: int,
    pen: PenV,
    x: ProvideDeclV,
)
    requires
        0 <= i,
    ensures
        follows(pen, provides_from(node, list, slots, o, i, pen)),
        slots.contains(x.ident) && (exists|k: int| i <= k < list.len() && list[k] == x)
            ==> joined_by_provide(provides_from(node, list, slots, o, i, pen), node, x, o),
    decreases list.len() - i,
{
    lemma_still(pen);
    if i < list.len() {
        let next = provide_step(node, list[i], slots, o, pen);
        let last = provides_from(node, list, slots, o, i + 1, next);
        lemma_provide(node, list[i], slots, o, pen);
        lemma_provides(node, list, slots, o, i + 1, next, x);
        lemma_on(pen, next, last);
        if slots.contains(list[i].ident) {
            lemma_provide_on(next, last, node, list[i], o);
        }
    }
}

/// The node `item` provides `x`.
pub open spec fn provides(item: ItemV, x: ProvideDeclV) -> bool {
    item matches ItemV::Node(n) && n.provides.contains(x)
}

pub(crate) proof fn lemma_all_provides(
    items: Seq<ItemV>,
    slots: Seq<Seq<char>>,
    o: OptionsV,
    i: int,
    pen: PenV,
    k: int,
    x: ProvideDeclV,
)
    requires
        0 <= i,
    ensures
        follows(pen, draw_provides_from(items, slots, o, i, pen)),
        slots.contains(x.ident) && i <= k < items.len() && provides(items[k], x)
            ==> joined_by_provide(
            draw_provides_from(items, slots, o, i, pen),
            boxed_name(items[k])->0,
            x,
            o,
        ),
    decreases items.len() - i,
{
    lemma_still(pen);
    if i < items.len() {
        let next = draw_provides_step(items[i], slots, o, pen);
        let last = draw_provides_from(items, slots, o, i + 1, next);
        if let ItemV::Node(n) = items[i] {
            lemma_provides(n.ident, n.provides, slots, o, 0, pen, x);
        }
        lemma_all_provides(items, slots, o, i + 1, next, k, x);
        lemma_on(pen, next, last);
        if slots.contains(x.ident) && provides(items[i], x) {
            lemma_provide_on(next, last, boxed_name(items[i])->0, x, o);
        }
    }
}

pub(crate) proof fn lemma_takes(
    node: Seq<char>,
    list: Seq<ResourceDeclV>,
    i: int,
    acc: Seq<(Seq<char>, ResourceDeclV)>,
    x: (Seq<char>, ResourceDeclV),
)
    requires
        0 <= i,
    ensures
        acc.contains(x) || (x.0 == node && exists|k: int|
            i <= k < list.len() && #[trigger] list[k] == x.1) ==> takes_from(
            node,
            list,
            i,
            acc,
        ).contains(x),
    decreases list.len() - i,
{
    if i < list.len() {
        let next = acc.push((node, list[i]));
        lemma_takes(node, list, i + 1, next, x);
        if acc.contains(x) {
            let m = choose|m: int| 0 <= m < acc.len() && acc[m] == x;
            assert(next[m] == x);
        }
        assert(next[acc.len() as int] == (node, list[i]));
    }
}

/// Some item from number `i` on takes the resource.
pub open spec fn taken(items: Seq<ItemV>, i: int, x: (Seq<char>, ResourceDeclV)) -> bool {
    exists|k: int|
        i <= k < items.len() && boxed_name(#[trigger] items[k]) == Some(x.0) && resources_of(
            items[k],
        ).contains(x.1)
}

pub(crate) proof fn lemma_all_uses(
    items: Seq<ItemV>,
    i: int,
    acc: Seq<(Seq<char>, ResourceDeclV)>,
    x: (Seq<char>, ResourceDeclV),
)
    requires
        0 <= i,
    ensures
        acc.contains(x) || taken(items, i, x) ==> uses_from(items, i, acc).contains(x),
    decreases items.len() - i,
{
    if i < items.len() {
        let next = match boxed_name(items[i]) {
            Some(name) => takes_from(name, resources_of(items[i]), 0, acc),
            None => acc,
        };
        if let Some(name) = boxed_name(items[i]) {
            let list = resources_of(items[i]);
            if list.contains(x.1) {
                let k = choose|k: int| 0 <= k < list.len() && list[k] == x.1;
                assert(list[k] == x.1);
            }
            lemma_takes(name, list, 0, acc, x);
        }
        lemma_all_uses(items, i + 1, next, x);
        assert(taken(items, i, x) ==> taken(items, i + 1, x) || (boxed_name(items[i]) == Some(x.0)
            && resources_of(items[i]).contains(x.1)));
    }
}

pub(crate) proof fn lemma_slot_listed(
    uses: Seq<(Seq<char>, ResourceDeclV)>,
    i: int,
    acc: Seq<Seq<char>>,
    x: (Seq<char>, ResourceDeclV),
)
    requires
        0 <= i,
    ensures
        acc.contains(x.1.ident) || (exists|k: int| i <= k < uses.len() && uses[k] == x)
            ==> slots_from(uses, i, acc).contains(x.1.ident),
    decreases uses.len() - i,
{
    if i < uses.len() {
        let name = uses[i].1.ident;
        let next = with_if(acc, !acc.contains(name), name);
        lemma_slot_listed(uses, i + 1, next, x);
        if !acc.contains(name) {
            assert(next[acc.len() as int] == name);
            if acc.contains(x.1.ident) {
                let m = choose|m: int| 0 <= m < acc.len() && acc[m] == x.1.ident;
                assert(next[m] == x.1.ident);
            }
        }
    }
}

pub(crate) proof fn lemma_resources(
    items: Seq<ItemV>,
    o: OptionsV,
    pen: PenV,
    x: (Seq<char>, ResourceDeclV),
    k: int,
    y: ProvideDeclV,
)
    ensures
        follows(pen, draw_resources(items, o, pen)),
        taken(items, 0, x) ==> slot_boxed(draw_resources(items, o, pen), x.1.ident)
            && joined_by_use(draw_resources(items, o, pen), x, o),
        taken(items, 0, x) && x.1.ident == y.ident && 0 <= k < items.len() && provides(
            items[k],
            y,
        ) ==> joined_by_provide(draw_resources(items, o, pen), boxed_name(items[k])->0, y, o),
{
    let uses = uses_from(items, 0, Seq::empty());
    let slots = slots_from(uses, 0, Seq::empty());
    let start = wrote(pen, ""@);
    let boxes = draw_slots_from(slots, 0, start);
    let edges = draw_uses_from(uses, o, 0, boxes);
    let all = draw_provides_from(items, slots, o, 0, edges);
    let last = draw_resources(items, o, pen);
    lemma_all_uses(items, 0, Seq::empty(), x);
    lemma_slot_listed(uses, 0, Seq::empty(), x);
    lemma_wrote(pen, ""@);
    lemma_slots(slots, 0, start, x.1.ident);
    lemma_uses(uses, o, 0, boxes, x);
    lemma_all_provides(items, slots, o, 0, edges, k, y);
    lemma_class("r"@, slots, "resource"@, all);
    lemma_on(edges, all, last);
    lemma_on(boxes, edges, last);
    lemma_on(start, boxes, last);
    lemma_on(pen, start, last);
    if taken(items, 0, x) {
        lemma_slot_on(boxes, last, x.1.ident);
        lemma_use_on(edges, last, x, o);
        if x.1.ident == y.ident && 0 <= k < items.len() && provides(items[k], y) {
            lemma_provide_on(all, last, boxed_name(items[k])->0, y, o);
        }
    }
}

/// The drawing once the nodes and pools stand in their boxes.
pub open spec fn after_boxes(d: DeclV, o: OptionsV) -> PenV {
    let items = d.spec.items;
    let groups = groups_of(items, o);
    let start = PenV { out: header(d, o), ids: Seq::empty() };
    draw_groups_from(items, groups, groups.len() > 1, o, 0, start)
}

/// The names that nothing here declares.
pub open spec fn outsiders(d: DeclV, o: OptionsV) -> Seq<Seq<char>> {
    let items = d.spec.items;
    externals_from(
        dep_edges(items, module_name(d.origin), o),
        boxed_names_from(items, 0, Seq::empty()),
        0,
        Seq::empty(),
    )
}

/// The drawing once the names from outside stand in their boxes.
pub open spec fn after_externals(d: DeclV, o: OptionsV) -> PenV {
    let boxes = after_boxes(d, o);
    let linked = match o.links {
        Some(template) => draw_links_from(d, o, template, d.spec.items, 0, boxes),
        None => boxes,
    };
    draw_externals_from(outsiders(d, o), 0, linked)
}

/// The drawing once the deps are drawn.
pub open spec fn after_deps(d: DeclV, o: OptionsV) -> PenV {
    let edges = dep_edges(d.spec.items, module_name(d.origin), o);
    let outside = after_externals(d, o);
    let spaced = if edges.len() > 0 {
        wrote(outside, ""@)
    } else {
        outside
    };
    draw_deps_from(edges, o, 0, spaced)
}

/// The drawing once the signals are drawn.
pub open spec fn after_flow(d: DeclV, o: OptionsV) -> PenV {
    if o.signals || o.runtime {
        draw_flow(d.spec.items, module_name(d.origin), o, after_deps(d, o))
    } else {
        after_deps(d, o)
    }
}

/// The flowchart, with the identifiers used in it.
pub open spec fn chart(d: DeclV, o: OptionsV) -> PenV {
    PenV { out: flowchart(d, o), ids: drawing(d, o).ids }
}

pub(crate) proof fn lemma_finished(d: DeclV, o: OptionsV)
    ensures
        follows(draw_resources(d.spec.items, o, after_flow(d, o)), chart(d, o)),
{
    let items = d.spec.items;
    let resources = draw_resources(items, o, after_flow(d, o));
    let ended = if o.legend {
        wrote(resources, "  end"@)
    } else {
        resources
    };
    let closed = wrote(ended, ""@);
    let disabled = disabled_names_from(items, 0, Seq::empty());
    let parked = parked_names_from(items, 0, Seq::empty());
    let off = draw_class("n"@, disabled, "disabled"@, closed);
    let ext = draw_class("n"@, outsiders(d, o), "external"@, off);
    let all = draw_class("n"@, parked, "parked"@, ext);
    let last = drawing(d, o);
    assert(last == inked(all, CLASSDEFS@));
    lemma_still(resources);
    lemma_wrote(resources, "  end"@);
    lemma_wrote(ended, ""@);
    lemma_class("n"@, disabled, "disabled"@, closed);
    lemma_class("n"@, outsiders(d, o), "external"@, off);
    lemma_class("n"@, parked, "parked"@, ext);
    lemma_inked(all, CLASSDEFS@);
    lemma_still(last);
    lemma_inked(last, legend_text(o, true, arrows(last.out)));
    lemma_on(all, last, chart(d, o));
    lemma_on(ext, all, chart(d, o));
    lemma_on(off, ext, chart(d, o));
    lemma_on(closed, off, chart(d, o));
    lemma_on(ended, closed, chart(d, o));
    lemma_on(resources, ended, chart(d, o));
}

pub(crate) proof fn lemma_stages(d: DeclV, o: OptionsV)
    ensures
        follows(PenV { out: header(d, o), ids: Seq::empty() }, after_boxes(d, o)),
        follows(after_boxes(d, o), after_externals(d, o)),
        follows(after_externals(d, o), after_deps(d, o)),
        follows(after_deps(d, o), after_flow(d, o)),
        follows(after_boxes(d, o), chart(d, o)),
        follows(after_externals(d, o), chart(d, o)),
        follows(after_deps(d, o), chart(d, o)),
        follows(after_flow(d, o), chart(d, o)),
{
    let items = d.spec.items;
    let module = module_name(d.origin);
    let groups = groups_of(items, o);
    let start = PenV { out: header(d, o), ids: Seq::empty() };
    let boxes = after_boxes(d, o);
    let linked = match o.links {
        Some(template) => draw_links_from(d, o, template, items, 0, boxes),
        None => boxes,
    };
    let outside = after_externals(d, o);
    let edges = dep_edges(items, module, o);
    let deps = after_deps(d, o);
    let flow = after_flow(d, o);
    let resources = draw_resources(items, o, flow);
    lemma_groups(items, groups, groups.len() > 1, o, 0, start, -1, -1);
    lemma_still(boxes);
    if let Some(template) = o.links {
        lemma_links(d, o, template, items, 0, boxes);
    }
    lemma_externals_drawn(outsiders(d, o), 0, linked, ""@);
    lemma_on(boxes, linked, outside);
    lemma_still(outside);
    lemma_wrote(outside, ""@);
    if edges.len() > 0 {
        lemma_deps(edges, o, 0, wrote(outside, ""@), -1);
        lemma_on(outside, wrote(outside, ""@), deps);
    } else {
        lemma_deps(edges, o, 0, outside, -1);
    }
    lemma_still(deps);
    lemma_flow(items, module, o, deps, -1, -1);
    lemma_resources(items, o, flow, arbitrary(), -1, arbitrary());
    lemma_finished(d, o);
    lemma_on(flow, resources, chart(d, o));
    lemma_on(deps, flow, chart(d, o));
    lemma_on(outside, deps, chart(d, o));
    lemma_on(boxes, outside, chart(d, o));
}

/// Every node and every pool of a declaration stands in the flowchart, in its box.
pub proof fn every_node_and_pool_is_drawn(d: DeclV, o: OptionsV, k: int)
    requires
        0 <= k < d.spec.items.len(),
        boxed_name(d.spec.items[k]) is Some,
    ensures
        boxed(chart(d, o), d.spec.items[k], o),
{
    let items = d.spec.items;
    let groups = groups_of(items, o);
    let start = PenV { out: header(d, o), ids: Seq::empty() };
    let group = group_of(items[k], o);
    lemma_group_listed(items, o, 0, Seq::empty(), k);
    let g = choose|g: int| 0 <= g < groups.len() && groups[g] == group;
    lemma_groups(items, groups, groups.len() > 1, o, 0, start, k, g);
    lemma_stages(d, o);
    lemma_boxed_on(after_boxes(d, o), chart(d, o), items[k], o);
}

/// No two elements of a flowchart share an identifier.
pub proof fn no_two_elements_share_an_identifier(d: DeclV, o: OptionsV)
    ensures
        ids_valid(chart(d, o).ids),
{
    lemma_stages(d, o);
}

/// What a drawn dep needs and nothing declares stands in the flowchart as external.
pub proof fn every_external_is_drawn(d: DeclV, o: OptionsV, name: Seq<char>)
    requires
        outsiders(d, o).contains(name),
    ensures
        external_boxed(chart(d, o), name),
{
    let boxes = after_boxes(d, o);
    let linked = match o.links {
        Some(template) => draw_links_from(d, o, template, d.spec.items, 0, boxes),
        None => boxes,
    };
    lemma_externals_drawn(outsiders(d, o), 0, linked, name);
    lemma_stages(d, o);
    lemma_external_on(after_externals(d, o), chart(d, o), name);
}

/// Every dep that the view shows stands in the flowchart as an edge between its ends.
pub proof fn every_shown_dep_is_drawn(d: DeclV, o: OptionsV, x: (Seq<char>, DepV))
    requires
        dep_edges(d.spec.items, module_name(d.origin), o).contains(x),
    ensures
        joined_by_dep(chart(d, o), x, o),
{
    let edges = dep_edges(d.spec.items, module_name(d.origin), o);
    let k = choose|k: int| 0 <= k < edges.len() && edges[k] == x;
    lemma_deps(edges, o, 0, wrote(after_externals(d, o), ""@), k);
    lemma_stages(d, o);
    lemma_dep_on(after_deps(d, o), chart(d, o), x, o);
}

/// Every declared signal stands in a view of signals, in its box.
pub proof fn every_declared_signal_is_drawn(d: DeclV, o: OptionsV, k: int)
    requires
        o.signals || o.runtime,
        0 <= k < signal_keys(d.spec.items).len(),
    ensures
        signal_boxed(chart(d, o), labelled(signal_keys(d.spec.items), o.full_paths)[k]),
{
    lemma_flow(d.spec.items, module_name(d.origin), o, after_deps(d, o), k, -1);
    lemma_stages(d, o);
    lemma_signal_on(
        after_flow(d, o),
        chart(d, o),
        labelled(signal_keys(d.spec.items), o.full_paths)[k],
    );
}

/// Everything that a node or pool declares to read or write stands in a view of signals, as an
/// edge between it and the signal.
pub proof fn every_declared_coupling_is_drawn(d: DeclV, o: OptionsV, k: int)
    requires
        o.signals || o.runtime,
        0 <= k < couplings(d.spec.items).len(),
    ensures
        tied(
            chart(d, o),
            couplings(d.spec.items)[k].node,
            signal_name(couplings(d.spec.items)[k].sig),
            couplings(d.spec.items)[k].write,
            coupling_label(couplings(d.spec.items)[k].sig, o.show_cfg),
            o,
        ),
{
    let c = couplings(d.spec.items)[k];
    lemma_flow(d.spec.items, module_name(d.origin), o, after_deps(d, o), k, -1);
    lemma_stages(d, o);
    lemma_tied_on(
        after_flow(d, o),
        chart(d, o),
        c.node,
        signal_name(c.sig),
        c.write,
        coupling_label(c.sig, o.show_cfg),
        o,
    );
}

/// Everything that the functions of a node or pool were found to read or write stands in a view
/// of signals, as an edge between it and a signal.
pub proof fn every_discovered_access_is_drawn(d: DeclV, o: OptionsV, k: int, m: int)
    requires
        o.signals || o.runtime,
        0 <= k < d.spec.items.len(),
        makes_access(d.spec.items[k], module_name(d.origin), o, m),
    ensures
        access_tied(chart(d, o), boxed_name(d.spec.items[k])->0, o.discovered[m], o),
{
    let node = boxed_name(d.spec.items[k])->0;
    let x = o.discovered[m];
    let label = access_label(x, o.show_cfg);
    lemma_flow(d.spec.items, module_name(d.origin), o, after_deps(d, o), k, m);
    lemma_stages(d, o);
    let signal = choose|signal: Seq<char>|
        #[trigger] tied(after_flow(d, o), node, signal, x.access.write, label, o);
    lemma_tied_on(after_flow(d, o), chart(d, o), node, signal, x.access.write, label, o);
}

/// Every resource that a node or pool takes has its slot in the flowchart, and an edge from the
/// slot to what takes it.
pub proof fn every_taken_resource_is_drawn(d: DeclV, o: OptionsV, x: (Seq<char>, ResourceDeclV))
    requires
        taken(d.spec.items, 0, x),
    ensures
        slot_boxed(chart(d, o), x.1.ident),
        joined_by_use(chart(d, o), x, o),
{
    let resources = draw_resources(d.spec.items, o, after_flow(d, o));
    lemma_resources(d.spec.items, o, after_flow(d, o), x, -1, arbitrary());
    lemma_finished(d, o);
    lemma_slot_on(resources, chart(d, o), x.1.ident);
    lemma_use_on(resources, chart(d, o), x, o);
}

/// Every resource that a node provides and something takes has an edge in the flowchart from the
/// node to the slot.
pub proof fn every_provided_resource_is_drawn(
    d: DeclV,
    o: OptionsV,
    k: int,
    y: ProvideDeclV,
    x: (Seq<char>, ResourceDeclV),
)
    requires
        0 <= k < d.spec.items.len(),
        provides(d.spec.items[k], y),
        taken(d.spec.items, 0, x),
        x.1.ident == y.ident,
    ensures
        joined_by_provide(chart(d, o), boxed_name(d.spec.items[k])->0, y, o),
{
    let resources = draw_resources(d.spec.items, o, after_flow(d, o));
    lemma_resources(d.spec.items, o, after_flow(d, o), x, k, y);
    lemma_finished(d, o);
    lemma_provide_on(resources, chart(d, o), boxed_name(d.spec.items[k])->0, y, o);
}

} // verus!
