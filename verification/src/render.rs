//! Rendering task graphs as Mermaid flowcharts.

use vstd::prelude::*;
use vstd::string::*;

use crate::ast::{
    boxed_name, deps_of, reads_of, resources_of, signal_name, writes_of, Dep, DepV, Item, ItemV,
    ProvideDecl, ProvideDeclV, ResourceDecl, ResourceDeclV,
};
use crate::bindings::FnRef;
use crate::coupling::{
    all_couplings, any_discovered_access, couplings, discovered_key, find_whole, first_access,
    flow_fns, has_discovered_access, is_first_access, key_discovered, labelled, read_flow_fns,
    signal_keys, signal_labels, whole_of, Coupling, CouplingV,
};
use crate::discover::{module_name, module_of, Discovered, DiscoveredV};
use crate::find::{Decl, DeclV, UNRESOLVED_CRATE};
use crate::label::{
    add_if, add_some, cfg_note, coupling_label, dep_edge, dep_label, edge_dep, edge_resource,
    edge_signal, edge_spawn, esc, escaped, label_coupling, label_dep, note_cfg, resource_edge,
    shape, shape_of, signal_edge, spawn_edge, unresolved_label, with_if, with_some,
};
use crate::legend::{arrows, count_links, legend, legend_text, MAIN};
use crate::list::{put, Dup};
use crate::options::{
    diagram_title, frontmatter, frontmatter_of, runtime_dep_edges, runtime_deps, spacing_init,
    spacing_text, title_of, Options, OptionsV, RuntimeDeps,
};
use crate::order::{in_order, ordered};
use crate::pen::{all_named, inked, named, naming, wrote, Pen, PenV};
use crate::pool::holds;
use crate::states::{direction_of, state_direction};
use crate::text::{
    after_last, cat2, cat3, cat4, cat5, cat6, cat7, contains, decimal, decimal_usize, find, join,
    joined, look_up, looked_up, replace, replaced, same, tail_after, text,
};

verus! {

/// The styles of the classes that a flowchart uses.
pub const CLASSDEFS: &'static str = "  classDef parked stroke-dasharray:4 3;\n  classDef disabled stroke-dasharray:2 4,opacity:0.5;\n  classDef external stroke-dasharray:3 3,opacity:0.7;\n  classDef signal stroke-width:1px,font-size:10px;\n  classDef resource stroke-width:1px,stroke-dasharray:0,font-size:10px;\n";

/// The name of a node or pool.
fn name_of(item: &Item) -> (r: Option<String>)
    ensures
        r.deep_view() == boxed_name(item.deep_view()),
{
    match item {
        Item::Node(n) => Some(n.ident.dup()),
        Item::Pool(p) => Some(p.ident.dup()),
        Item::Executor(_) => None,
    }
}

/// The lines above the boxes.
pub open spec fn header(d: DeclV, o: OptionsV) -> Seq<char> {
    let title = title_of(d, o);
    let place = d.origin + ":"@ + decimal(d.line as nat);
    frontmatter_of(title, o) + spacing_text(o) + "%% "@ + (if o.runtime {
        "runtime coupling — "@
    } else {
        ""@
    }) + title + "  ("@ + place + ")\nflowchart "@ + o.direction
        + "\n  accDescr: supervisor task graph declared at "@ + place + "\n"@ + (if o.legend {
        "  subgraph "@ + MAIN@ + "[\" \"]\n    direction "@ + o.direction + "\n"@
    } else {
        ""@
    })
}

fn make_header(d: &Decl, o: &Options) -> (r: String)
    ensures
        r@ == header(d.deep_view(), o.deep_view()),
{
    let title = diagram_title(d, o);
    let line = decimal_usize(d.line);
    let place = cat3(d.origin.as_str(), ":", line.as_str());
    let mut out = frontmatter(title.as_str(), o);
    let spacing = spacing_init(o);
    out.append(spacing.as_str());
    out.append("%% ");
    out.append(if o.runtime {
        "runtime coupling — "
    } else {
        ""
    });
    out.append(title.as_str());
    out.append("  (");
    out.append(place.as_str());
    out.append(")\nflowchart ");
    out.append(o.direction.as_str());
    out.append("\n  accDescr: supervisor task graph declared at ");
    out.append(place.as_str());
    out.append("\n");
    let frame = if o.legend {
        cat5("  subgraph ", MAIN, "[\" \"]\n    direction ", o.direction.as_str(), "\n")
    } else {
        text("")
    };
    out.append(frame.as_str());
    out
}

/// The executor of an item.
pub open spec fn executor_of(item: ItemV) -> Option<Seq<char>> {
    match item {
        ItemV::Node(n) => n.executor,
        ItemV::Pool(p) => p.executor,
        ItemV::Executor(_) => None,
    }
}

/// The fragment of an item.
pub open spec fn fragment_of(item: ItemV) -> Option<Seq<char>> {
    match item {
        ItemV::Node(n) => n.fragment,
        ItemV::Pool(p) => p.fragment,
        ItemV::Executor(_) => None,
    }
}

fn read_fragment(item: &Item) -> (r: Option<String>)
    ensures
        r.deep_view() == fragment_of(item.deep_view()),
{
    match item {
        Item::Node(n) => n.fragment.dup(),
        Item::Pool(p) => p.fragment.dup(),
        Item::Executor(_) => None,
    }
}

/// The group an item is drawn in.
pub open spec fn group_of(item: ItemV, o: OptionsV) -> Option<Seq<char>> {
    if o.executors {
        Some(
            match executor_of(item) {
                Some(e) => "@"@ + e,
                None => "thread mode"@,
            },
        )
    } else if o.fragments {
        fragment_of(item)
    } else {
        None
    }
}

fn read_group(item: &Item, o: &Options) -> (r: Option<String>)
    ensures
        r.deep_view() == group_of(item.deep_view(), o.deep_view()),
{
    if o.executors {
        let executor = match item {
            Item::Node(n) => n.executor.dup(),
            Item::Pool(p) => p.executor.dup(),
            Item::Executor(_) => None,
        };
        Some(
            match executor {
                Some(e) => cat2("@", e.as_str()),
                None => text("thread mode"),
            },
        )
    } else if o.fragments {
        read_fragment(item)
    } else {
        None
    }
}

fn same_group(a: &Option<String>, b: &Option<String>) -> (r: bool)
    ensures
        r == (a.deep_view() == b.deep_view()),
{
    match (a, b) {
        (Some(x), Some(y)) => same(x.as_str(), y.as_str()),
        (None, None) => true,
        _ => false,
    }
}

fn holds_group(list: &Vec<Option<String>>, group: &Option<String>) -> (r: bool)
    ensures
        r == list.deep_view().contains(group.deep_view()),
{
    let ghost d = list.deep_view();
    let mut i: usize = 0;
    while i < list.len()
        invariant
            i <= list@.len(),
            d == list.deep_view(),
            forall|j: int| 0 <= j < i ==> d[j] != group.deep_view(),
        decreases list@.len() - i,
    {
        if same_group(&list[i], group) {
            assert(d[i as int] == group.deep_view());
            return true;
        }
        i = i + 1;
    }
    false
}

/// The groups of the items from number `i` on, each once, behind `acc`.
pub open spec fn groups_from(
    items: Seq<ItemV>,
    o: OptionsV,
    i: int,
    acc: Seq<Option<Seq<char>>>,
) -> Seq<
    Option<Seq<char>>,
>
    decreases items.len() - i,
{
    if i < 0 || i >= items.len() {
        acc
    } else {
        let g = group_of(items[i], o);
        groups_from(
            items,
            o,
            i + 1,
            if acc.contains(g) {
                acc
            } else {
                acc.push(g)
            },
        )
    }
}

/// The groups of a diagram, in the order in which they first occur.
pub open spec fn groups_of(items: Seq<ItemV>, o: OptionsV) -> Seq<Option<Seq<char>>> {
    if o.fragments || o.executors {
        groups_from(items, o, 0, Seq::empty())
    } else {
        seq![None]
    }
}

fn read_groups(items: &Vec<Item>, o: &Options) -> (r: Vec<Option<String>>)
    ensures
        r.deep_view() == groups_of(items.deep_view(), o.deep_view()),
{
    let ghost all = items.deep_view();
    let ghost ov = o.deep_view();
    let mut out: Vec<Option<String>> = Vec::new();
    assert(out.deep_view() == Seq::<Option<Seq<char>>>::empty());
    if !(o.fragments || o.executors) {
        put(&mut out, None);
        assert(out.deep_view() == seq![None::<Seq<char>>]);
        return out;
    }
    let mut i: usize = 0;
    while i < items.len()
        invariant
            i <= items@.len(),
            all == items.deep_view(),
            ov == o.deep_view(),
            groups_from(all, ov, 0, Seq::empty()) == groups_from(all, ov, i as int, out.deep_view()),
        decreases items@.len() - i,
    {
        let g = read_group(&items[i], o);
        if !holds_group(&out, &g) {
            put(&mut out, g);
        }
        i = i + 1;
    }
    out
}

/// An item is drawn in a group.
pub open spec fn in_group(item: ItemV, group: Option<Seq<char>>, o: OptionsV) -> bool {
    boxed_name(item) is Some && ((!o.fragments && !o.executors) || group_of(item, o) == group)
}

fn is_in_group(item: &Item, group: &Option<String>, o: &Options) -> (r: bool)
    ensures
        r == in_group(item.deep_view(), group.deep_view(), o.deep_view()),
{
    let g = read_group(item, o);
    name_of(item).is_some() && ((!o.fragments && !o.executors) || same_group(&g, group))
}

/// Some item is drawn in a group.
pub open spec fn has_members(items: Seq<ItemV>, group: Option<Seq<char>>, o: OptionsV) -> bool {
    exists|i: int| 0 <= i < items.len() && in_group(#[trigger] items[i], group, o)
}

fn any_members(items: &Vec<Item>, group: &Option<String>, o: &Options) -> (r: bool)
    ensures
        r == has_members(items.deep_view(), group.deep_view(), o.deep_view()),
{
    let ghost all = items.deep_view();
    let mut i: usize = 0;
    while i < items.len()
        invariant
            i <= items@.len(),
            all == items.deep_view(),
            forall|j: int| 0 <= j < i ==> !in_group(#[trigger] all[j], group.deep_view(), o.deep_view()),
        decreases items@.len() - i,
    {
        if is_in_group(&items[i], group, o) {
            assert(in_group(all[i as int], group.deep_view(), o.deep_view()));
            return true;
        }
        i = i + 1;
    }
    false
}

/// The box of an item, where it is drawn in the group.
pub open spec fn draw_members_step(
    item: ItemV,
    group: Option<Seq<char>>,
    o: OptionsV,
    indent: Seq<char>,
    pen: PenV,
) -> PenV {
    if in_group(item, group, o) {
        let name = boxed_name(item)->0;
        wrote(naming(pen, "n"@, name), indent + shape_of(named(pen, "n"@, name), item, o.show_cfg))
    } else {
        pen
    }
}

fn make_draw_members_step(item: &Item, group: &Option<String>, o: &Options, indent: &str, pen: &mut Pen)
    ensures
        final(pen).deep_view() == draw_members_step(
            item.deep_view(),
            group.deep_view(),
            o.deep_view(),
            indent@,
            old(pen).deep_view(),
        ),
{
    if is_in_group(item, group, o) {
        if let Some(name) = name_of(item) {
            let id = pen.id("n", name.as_str());
            let s = shape(id.as_str(), item, o.show_cfg);
            let line = cat2(indent, s.as_str());
            pen.line(line.as_str());
        }
    }
}

/// The boxes of a group from item `i` on.
pub open spec fn draw_members_from(
    items: Seq<ItemV>,
    group: Option<Seq<char>>,
    o: OptionsV,
    indent: Seq<char>,
    i: int,
    pen: PenV,
) -> PenV
    decreases items.len() - i,
{
    if i < 0 || i >= items.len() {
        pen
    } else {
        draw_members_from(
            items,
            group,
            o,
            indent,
            i + 1,
            draw_members_step(items[i], group, o, indent, pen),
        )
    }
}

fn draw_members(items: &Vec<Item>, group: &Option<String>, o: &Options, indent: &str, pen: &mut Pen)
    ensures
        final(pen).deep_view() == draw_members_from(
            items.deep_view(),
            group.deep_view(),
            o.deep_view(),
            indent@,
            0,
            old(pen).deep_view(),
        ),
{
    let ghost start = pen.deep_view();
    let mut i: usize = 0;
    while i < items.len()
        invariant
            i <= items@.len(),
            draw_members_from(
                items.deep_view(),
                group.deep_view(),
                o.deep_view(),
                indent@,
                0,
                start,
            ) == draw_members_from(
                items.deep_view(),
                group.deep_view(),
                o.deep_view(),
                indent@,
                i as int,
                pen.deep_view(),
            ),
        decreases items@.len() - i,
    {
        make_draw_members_step(&items[i], group, o, indent, pen);
        i = i + 1;
    }
}

/// A group: its members, in a subgraph where it has a name and is not the only one.
pub open spec fn draw_groups_step(
    items: Seq<ItemV>,
    group: Option<Seq<char>>,
    many: bool,
    o: OptionsV,
    pen: PenV,
) -> PenV {
    if !has_members(items, group, o) {
        pen
    } else if group is Some && many {
        let name = group->0;
        let opened = wrote(
            wrote(
                naming(pen, "f"@, name),
                "  subgraph "@ + named(pen, "f"@, name) + "[\""@ + escaped(name) + "\"]"@,
            ),
            "    direction "@ + o.direction,
        );
        wrote(draw_members_from(items, group, o, "    "@, 0, opened), "  end"@)
    } else {
        draw_members_from(items, group, o, "  "@, 0, pen)
    }
}

fn make_draw_groups_step(
    items: &Vec<Item>,
    group: &Option<String>,
    many: bool,
    o: &Options,
    pen: &mut Pen,
)
    ensures
        final(pen).deep_view() == draw_groups_step(
            items.deep_view(),
            group.deep_view(),
            many,
            o.deep_view(),
            old(pen).deep_view(),
        ),
{
    if !any_members(items, group, o) {
        return;
    }
    if let Some(name) = group {
        if many {
            let id = pen.id("f", name.as_str());
            let label = esc(name.as_str());
            let open = cat5("  subgraph ", id.as_str(), "[\"", label.as_str(), "\"]");
            pen.line(open.as_str());
            let direction = cat2("    direction ", o.direction.as_str());
            pen.line(direction.as_str());
            draw_members(items, group, o, "    ", pen);
            pen.line("  end");
            return;
        }
    }
    draw_members(items, group, o, "  ", pen);
}

/// The groups from number `i` on.
pub open spec fn draw_groups_from(
    items: Seq<ItemV>,
    groups: Seq<Option<Seq<char>>>,
    many: bool,
    o: OptionsV,
    i: int,
    pen: PenV,
) -> PenV
    decreases groups.len() - i,
{
    if i < 0 || i >= groups.len() {
        pen
    } else {
        draw_groups_from(
            items,
            groups,
            many,
            o,
            i + 1,
            draw_groups_step(items, groups[i], many, o, pen),
        )
    }
}

fn draw_groups(items: &Vec<Item>, groups: &Vec<Option<String>>, many: bool, o: &Options, pen: &mut Pen)
    ensures
        final(pen).deep_view() == draw_groups_from(
            items.deep_view(),
            groups.deep_view(),
            many,
            o.deep_view(),
            0,
            old(pen).deep_view(),
        ),
{
    let ghost start = pen.deep_view();
    let mut i: usize = 0;
    while i < groups.len()
        invariant
            i <= groups@.len(),
            draw_groups_from(
                items.deep_view(),
                groups.deep_view(),
                many,
                o.deep_view(),
                0,
                start,
            ) == draw_groups_from(
                items.deep_view(),
                groups.deep_view(),
                many,
                o.deep_view(),
                i as int,
                pen.deep_view(),
            ),
        decreases groups@.len() - i,
    {
        make_draw_groups_step(items, &groups[i], many, o, pen);
        i = i + 1;
    }
}

/// The file in which an item was written.
pub open spec fn link_origin(d: DeclV, item: ItemV) -> Seq<char> {
    match fragment_of(item) {
        Some(name) => match looked_up(d.fragment_origins, name, d.fragment_origins.len() as int) {
            Some(origin) => origin,
            None => d.origin,
        },
        None => d.origin,
    }
}

fn origin_of_link(d: &Decl, item: &Item) -> (r: String)
    ensures
        r@ == link_origin(d.deep_view(), item.deep_view()),
{
    match read_fragment(item) {
        Some(name) => match look_up(&d.fragment_origins, name.as_str()) {
            Some(origin) => origin,
            None => d.origin.dup(),
        },
        None => d.origin.dup(),
    }
}

/// The line of an item.
pub open spec fn item_line(item: ItemV) -> usize {
    match item {
        ItemV::Node(n) => n.line,
        ItemV::Pool(p) => p.line,
        ItemV::Executor(x) => x.line,
    }
}

fn read_line(item: &Item) -> (r: usize)
    ensures
        r == item_line(item.deep_view()),
{
    match item {
        Item::Node(n) => n.line,
        Item::Pool(p) => p.line,
        Item::Executor(x) => x.line,
    }
}

/// Where a link to an item leads: the template with the file and the line, from one on, filled in.
pub open spec fn link_url(d: DeclV, o: OptionsV, template: Seq<char>, item: ItemV) -> Seq<char> {
    let origin = link_origin(d, item);
    let file = match looked_up(o.files, origin, o.files.len() as int) {
        Some(f) => f,
        None => origin,
    };
    let line = if item_line(item) < 1 {
        1
    } else {
        item_line(item) as nat
    };
    replaced(replaced(template, "{file}"@, file), "{line}"@, decimal(line))
}

fn make_link_url(d: &Decl, o: &Options, template: &str, item: &Item) -> (r: String)
    ensures
        r@ == link_url(d.deep_view(), o.deep_view(), template@, item.deep_view()),
{
    proof {
        reveal_strlit("{file}");
        reveal_strlit("{line}");
    }
    let origin = origin_of_link(d, item);
    let file = match look_up(&o.files, origin.as_str()) {
        Some(f) => f,
        None => origin.dup(),
    };
    let at = read_line(item);
    let line = decimal_usize(
        if at < 1 {
            1
        } else {
            at
        },
    );
    let first = replace(template, "{file}", file.as_str());
    replace(first.as_str(), "{line}", line.as_str())
}

/// The link of an item.
pub open spec fn draw_links_step(
    d: DeclV,
    o: OptionsV,
    template: Seq<char>,
    item: ItemV,
    pen: PenV,
) -> PenV {
    match boxed_name(item) {
        Some(name) => wrote(
            naming(pen, "n"@, name),
            "  click "@ + named(pen, "n"@, name) + " \""@ + escaped(link_url(d, o, template, item)) + "\""@,
        ),
        None => pen,
    }
}

fn make_draw_links_step(d: &Decl, o: &Options, template: &str, item: &Item, pen: &mut Pen)
    ensures
        final(pen).deep_view() == draw_links_step(
            d.deep_view(),
            o.deep_view(),
            template@,
            item.deep_view(),
            old(pen).deep_view(),
        ),
{
    if let Some(name) = name_of(item) {
        let url = make_link_url(d, o, template, item);
        let id = pen.id("n", name.as_str());
        let inner = esc(url.as_str());
        let line = cat5("  click ", id.as_str(), " \"", inner.as_str(), "\"");
        pen.line(line.as_str());
    }
}

/// The links of the items from number `i` on.
pub open spec fn draw_links_from(
    d: DeclV,
    o: OptionsV,
    template: Seq<char>,
    items: Seq<ItemV>,
    i: int,
    pen: PenV,
) -> PenV
    decreases items.len() - i,
{
    if i < 0 || i >= items.len() {
        pen
    } else {
        draw_links_from(d, o, template, items, i + 1, draw_links_step(d, o, template, items[i], pen))
    }
}

fn draw_links(d: &Decl, o: &Options, template: &str, items: &Vec<Item>, pen: &mut Pen)
    ensures
        final(pen).deep_view() == draw_links_from(
            d.deep_view(),
            o.deep_view(),
            template@,
            items.deep_view(),
            0,
            old(pen).deep_view(),
        ),
{
    let ghost start = pen.deep_view();
    let mut i: usize = 0;
    while i < items.len()
        invariant
            i <= items@.len(),
            draw_links_from(
                d.deep_view(),
                o.deep_view(),
                template@,
                items.deep_view(),
                0,
                start,
            ) == draw_links_from(
                d.deep_view(),
                o.deep_view(),
                template@,
                items.deep_view(),
                i as int,
                pen.deep_view(),
            ),
        decreases items@.len() - i,
    {
        make_draw_links_step(d, o, template, &items[i], pen);
        i = i + 1;
    }
}

/// The names of the nodes and pools from item `i` on, behind `acc`.
pub open spec fn boxed_names_from(items: Seq<ItemV>, i: int, acc: Seq<Seq<char>>) -> Seq<Seq<char>>
    decreases items.len() - i,
{
    if i < 0 || i >= items.len() {
        acc
    } else {
        boxed_names_from(items, i + 1, with_some(acc, boxed_name(items[i])))
    }
}

fn read_boxed_names(items: &Vec<Item>) -> (r: Vec<String>)
    ensures
        r.deep_view() == boxed_names_from(items.deep_view(), 0, Seq::empty()),
{
    let mut out: Vec<String> = Vec::new();
    assert(out.deep_view() == Seq::<Seq<char>>::empty());
    let mut i: usize = 0;
    while i < items.len()
        invariant
            i <= items@.len(),
            boxed_names_from(items.deep_view(), 0, Seq::empty()) == boxed_names_from(
                items.deep_view(),
                i as int,
                out.deep_view(),
            ),
        decreases items@.len() - i,
    {
        add_some(&mut out, name_of(&items[i]));
        i = i + 1;
    }
    out
}

/// Nothing but its place in the bring-up order ties an item to the graph.
pub open spec fn is_uncoupled(item: ItemV, module: Seq<char>, o: OptionsV) -> bool {
    writes_of(item).len() == 0 && reads_of(item).len() == 0 && resources_of(item).len() == 0
        && !has_discovered_access(item, module, o.discovered, o.bundles)
}

fn uncoupled(item: &Item, module: &str, o: &Options) -> (r: bool)
    ensures
        r == is_uncoupled(item.deep_view(), module@, o.deep_view()),
{
    let bare = match item {
        Item::Node(n) => n.writes.len() == 0 && n.reads.len() == 0 && n.resources.len() == 0,
        Item::Pool(p) => p.writes.len() == 0 && p.reads.len() == 0 && p.resources.len() == 0,
        Item::Executor(_) => true,
    };
    bare && !any_discovered_access(item, module, &o.discovered, &o.bundles)
}

/// The uncoupled nodes and pools from item `i` on, behind `acc`.
pub open spec fn anchors_from(
    items: Seq<ItemV>,
    module: Seq<char>,
    o: OptionsV,
    i: int,
    acc: Seq<Seq<char>>,
) -> Seq<Seq<char>>
    decreases items.len() - i,
{
    if i < 0 || i >= items.len() {
        acc
    } else {
        anchors_from(items, module, o, i + 1, if is_uncoupled(items[i], module, o) {
            with_some(acc, boxed_name(items[i]))
        } else {
            acc
        })
    }
}

fn read_anchors(items: &Vec<Item>, module: &str, o: &Options) -> (r: Vec<String>)
    ensures
        r.deep_view() == anchors_from(items.deep_view(), module@, o.deep_view(), 0, Seq::empty()),
{
    let mut out: Vec<String> = Vec::new();
    assert(out.deep_view() == Seq::<Seq<char>>::empty());
    let mut i: usize = 0;
    while i < items.len()
        invariant
            i <= items@.len(),
            anchors_from(items.deep_view(), module@, o.deep_view(), 0, Seq::empty()) == anchors_from(
                items.deep_view(),
                module@,
                o.deep_view(),
                i as int,
                out.deep_view(),
            ),
        decreases items@.len() - i,
    {
        if uncoupled(&items[i], module, o) {
            add_some(&mut out, name_of(&items[i]));
        }
        i = i + 1;
    }
    out
}

/// The items that the runtime view anchors by their deps.
pub open spec fn anchored(items: Seq<ItemV>, module: Seq<char>, o: OptionsV) -> Seq<Seq<char>> {
    if o.runtime && runtime_deps(o) == RuntimeDeps::Anchors {
        anchors_from(items, module, o, 0, Seq::empty())
    } else {
        Seq::empty()
    }
}

fn read_anchored(items: &Vec<Item>, module: &str, o: &Options) -> (r: Vec<String>)
    ensures
        r.deep_view() == anchored(items.deep_view(), module@, o.deep_view()),
{
    if o.runtime && runtime_dep_edges(o) == RuntimeDeps::Anchors {
        read_anchors(items, module, o)
    } else {
        let none: Vec<String> = Vec::new();
        assert(none.deep_view() == Seq::<Seq<char>>::empty());
        none
    }
}

/// A dep is drawn: always in the bring-up view, in the runtime view as the options say.
pub open spec fn shows_dep(o: OptionsV, anchored: Seq<Seq<char>>, node: Seq<char>, dep: DepV) -> bool {
    ||| !o.runtime
    ||| runtime_deps(o) == RuntimeDeps::All
    ||| runtime_deps(o) == RuntimeDeps::Anchors && (anchored.contains(node) || anchored.contains(dep.ident))
}

fn does_show_dep(o: &Options, anchored: &Vec<String>, node: &str, dep: &Dep) -> (r: bool)
    ensures
        r == shows_dep(o.deep_view(), anchored.deep_view(), node@, dep.deep_view()),
{
    if !o.runtime {
        return true;
    }
    match runtime_dep_edges(o) {
        RuntimeDeps::All => true,
        RuntimeDeps::Anchors => holds(anchored, node) || holds(anchored, dep.ident.as_str()),
        RuntimeDeps::Nothing => false,
    }
}

/// The shown deps of an item from number `i` on, behind `acc`.
pub open spec fn item_deps_from(
    o: OptionsV,
    anchored: Seq<Seq<char>>,
    node: Seq<char>,
    deps: Seq<DepV>,
    i: int,
    acc: Seq<(Seq<char>, DepV)>,
) -> Seq<(Seq<char>, DepV)>
    decreases deps.len() - i,
{
    if i < 0 || i >= deps.len() {
        acc
    } else {
        item_deps_from(
            o,
            anchored,
            node,
            deps,
            i + 1,
            if shows_dep(o, anchored, node, deps[i]) {
                acc.push((node, deps[i]))
            } else {
                acc
            },
        )
    }
}

fn add_item_deps(
    o: &Options,
    anchored: &Vec<String>,
    node: &String,
    deps: &Vec<Dep>,
    out: &mut Vec<(String, Dep)>,
)
    ensures
        final(out).deep_view() == item_deps_from(
            o.deep_view(),
            anchored.deep_view(),
            node@,
            deps.deep_view(),
            0,
            old(out).deep_view(),
        ),
{
    let ghost start = out.deep_view();
    let ghost ds = deps.deep_view();
    let ghost ov = o.deep_view();
    let ghost an = anchored.deep_view();
    let mut i: usize = 0;
    while i < deps.len()
        invariant
            i <= deps@.len(),
            ds == deps.deep_view(),
            ov == o.deep_view(),
            an == anchored.deep_view(),
            item_deps_from(ov, an, node@, ds, 0, start) == item_deps_from(
                ov,
                an,
                node@,
                ds,
                i as int,
                out.deep_view(),
            ),
        decreases deps@.len() - i,
    {
        if does_show_dep(o, anchored, node.as_str(), &deps[i]) {
            put(out, (node.dup(), deps[i].dup()));
        }
        i = i + 1;
    }
}

/// The shown deps of the items from number `i` on, behind `acc`.
pub open spec fn dep_edges_from(
    items: Seq<ItemV>,
    anchored: Seq<Seq<char>>,
    o: OptionsV,
    i: int,
    acc: Seq<(Seq<char>, DepV)>,
) -> Seq<(Seq<char>, DepV)>
    decreases items.len() - i,
{
    if i < 0 || i >= items.len() {
        acc
    } else {
        dep_edges_from(
            items,
            anchored,
            o,
            i + 1,
            match boxed_name(items[i]) {
                Some(name) => item_deps_from(o, anchored, name, deps_of(items[i]), 0, acc),
                None => acc,
            },
        )
    }
}

/// The deps that a diagram shows, each with the item that has it.
pub open spec fn dep_edges(
    items: Seq<ItemV>,
    module: Seq<char>,
    o: OptionsV,
) -> Seq<(Seq<char>, DepV)> {
    dep_edges_from(items, anchored(items, module, o), o, 0, Seq::empty())
}

fn read_dep_edges(items: &Vec<Item>, module: &str, o: &Options) -> (r: Vec<(String, Dep)>)
    ensures
        r.deep_view() == dep_edges(items.deep_view(), module@, o.deep_view()),
{
    let anchor = read_anchored(items, module, o);
    let ghost an = anchor.deep_view();
    let ghost all = items.deep_view();
    let ghost ov = o.deep_view();
    let mut out: Vec<(String, Dep)> = Vec::new();
    assert(out.deep_view() == Seq::<(Seq<char>, DepV)>::empty());
    let mut i: usize = 0;
    while i < items.len()
        invariant
            i <= items@.len(),
            all == items.deep_view(),
            ov == o.deep_view(),
            an == anchor.deep_view(),
            dep_edges_from(all, an, ov, 0, Seq::empty()) == dep_edges_from(
                all,
                an,
                ov,
                i as int,
                out.deep_view(),
            ),
        decreases items@.len() - i,
    {
        match &items[i] {
            Item::Node(n) => add_item_deps(o, &anchor, &n.ident, &n.deps, &mut out),
            Item::Pool(p) => add_item_deps(o, &anchor, &p.ident, &p.deps, &mut out),
            Item::Executor(_) => {},
        }
        i = i + 1;
    }
    out
}

/// The names that the deps from number `i` on need and nothing declares, each once, behind `acc`.
pub open spec fn externals_from(
    edges: Seq<(Seq<char>, DepV)>,
    declared: Seq<Seq<char>>,
    i: int,
    acc: Seq<Seq<char>>,
) -> Seq<Seq<char>>
    decreases edges.len() - i,
{
    if i < 0 || i >= edges.len() {
        acc
    } else {
        externals_from(edges, declared, i + 1, with_if(
            acc,
            !declared.contains(edges[i].1.ident) && !acc.contains(edges[i].1.ident),
            edges[i].1.ident,
        ))
    }
}

fn read_externals(edges: &Vec<(String, Dep)>, declared: &Vec<String>) -> (r: Vec<String>)
    ensures
        r.deep_view() == externals_from(edges.deep_view(), declared.deep_view(), 0, Seq::empty()),
{
    let mut out: Vec<String> = Vec::new();
    assert(out.deep_view() == Seq::<Seq<char>>::empty());
    let mut i: usize = 0;
    while i < edges.len()
        invariant
            i <= edges@.len(),
            externals_from(edges.deep_view(), declared.deep_view(), 0, Seq::empty()) == externals_from(
                edges.deep_view(),
                declared.deep_view(),
                i as int,
                out.deep_view(),
            ),
        decreases edges@.len() - i,
    {
        let name = edges[i].1.ident.as_str();
        let fresh = !holds(declared, name) && !holds(&out, name);
        add_if(&mut out, fresh, name);
        i = i + 1;
    }
    out
}

/// The box of a name from outside the graph.
pub open spec fn draw_externals_step(name: Seq<char>, pen: PenV) -> PenV {
    wrote(naming(pen, "n"@, name), "  "@ + named(pen, "n"@, name) + "([\""@ + escaped(name) + "\"])"@)
}

fn make_draw_externals_step(name: &String, pen: &mut Pen)
    ensures
        final(pen).deep_view() == draw_externals_step(name@, old(pen).deep_view()),
{
    let id = pen.id("n", name.as_str());
    let inner = esc(name.as_str());
    let line = cat5("  ", id.as_str(), "([\"", inner.as_str(), "\"])");
    pen.line(line.as_str());
}

/// The boxes of the names from number `i` on.
pub open spec fn draw_externals_from(names: Seq<Seq<char>>, i: int, pen: PenV) -> PenV
    decreases names.len() - i,
{
    if i < 0 || i >= names.len() {
        pen
    } else {
        draw_externals_from(names, i + 1, draw_externals_step(names[i], pen))
    }
}

fn draw_externals(names: &Vec<String>, pen: &mut Pen)
    ensures
        final(pen).deep_view() == draw_externals_from(names.deep_view(), 0, old(pen).deep_view()),
{
    let ghost start = pen.deep_view();
    let mut i: usize = 0;
    while i < names.len()
        invariant
            i <= names@.len(),
            draw_externals_from(names.deep_view(), 0, start) == draw_externals_from(
                names.deep_view(),
                i as int,
                pen.deep_view(),
            ),
        decreases names@.len() - i,
    {
        make_draw_externals_step(&names[i], pen);
        i = i + 1;
    }
}

/// The edge of a dep.
pub open spec fn draw_deps_step(edge: (Seq<char>, DepV), o: OptionsV, pen: PenV) -> PenV {
    let to = named(pen, "n"@, edge.0);
    let mid = naming(pen, "n"@, edge.0);
    let from = named(mid, "n"@, edge.1.ident);
    let label = dep_label(edge.1, o.show_cfg);
    wrote(
        naming(mid, "n"@, edge.1.ident),
        "  "@ + (if o.runtime {
            spawn_edge(from, to, label)
        } else {
            dep_edge(from, to, edge.1, label)
        }),
    )
}

fn make_draw_deps_step(edge: &(String, Dep), o: &Options, pen: &mut Pen)
    ensures
        final(pen).deep_view() == draw_deps_step(edge.deep_view(), o.deep_view(), old(pen).deep_view()),
{
    let to = pen.id("n", edge.0.as_str());
    let from = pen.id("n", edge.1.ident.as_str());
    let label = label_dep(&edge.1, o.show_cfg);
    let drawn = if o.runtime {
        edge_spawn(from.as_str(), to.as_str(), label.as_str())
    } else {
        edge_dep(from.as_str(), to.as_str(), &edge.1, label.as_str())
    };
    let line = cat2("  ", drawn.as_str());
    pen.line(line.as_str());
}

/// The edges of the deps from number `i` on.
pub open spec fn draw_deps_from(edges: Seq<(Seq<char>, DepV)>, o: OptionsV, i: int, pen: PenV) -> PenV
    decreases edges.len() - i,
{
    if i < 0 || i >= edges.len() {
        pen
    } else {
        draw_deps_from(edges, o, i + 1, draw_deps_step(edges[i], o, pen))
    }
}

fn draw_deps(edges: &Vec<(String, Dep)>, o: &Options, pen: &mut Pen)
    ensures
        final(pen).deep_view() == draw_deps_from(
            edges.deep_view(),
            o.deep_view(),
            0,
            old(pen).deep_view(),
        ),
{
    let ghost start = pen.deep_view();
    let mut i: usize = 0;
    while i < edges.len()
        invariant
            i <= edges@.len(),
            draw_deps_from(edges.deep_view(), o.deep_view(), 0, start) == draw_deps_from(
                edges.deep_view(),
                o.deep_view(),
                i as int,
                pen.deep_view(),
            ),
        decreases edges@.len() - i,
    {
        make_draw_deps_step(&edges[i], o, pen);
        i = i + 1;
    }
}

/// A reader of a signal, to be drawn once all writers are.
#[derive(Debug)]
pub struct Reader {
    /// The identifier of the signal.
    pub signal: String,
    /// The item that reads it.
    pub node: String,
    /// The edge between them.
    pub edge: String,
}

/// What a [`Reader`] means.
pub struct ReaderV {
    pub signal: Seq<char>,
    pub node: Seq<char>,
    pub edge: Seq<char>,
}

impl DeepView for Reader {
    type V = ReaderV;

    open spec fn deep_view(&self) -> ReaderV {
        ReaderV { signal: self.signal@, node: self.node@, edge: self.edge@ }
    }
}

/// The signals of a diagram under construction.
#[derive(Debug)]
pub struct Flow {
    /// The diagram.
    pub pen: Pen,
    /// The signals that have a box.
    pub emitted: Vec<String>,
    /// The readers.
    pub readers: Vec<Reader>,
}

/// What a [`Flow`] means.
pub struct FlowV {
    pub pen: PenV,
    pub emitted: Seq<Seq<char>>,
    pub readers: Seq<ReaderV>,
}

impl DeepView for Flow {
    type V = FlowV;

    open spec fn deep_view(&self) -> FlowV {
        FlowV {
            pen: self.pen.deep_view(),
            emitted: self.emitted.deep_view(),
            readers: self.readers.deep_view(),
        }
    }
}

/// The box of a declared signal, with its label.
pub open spec fn draw_signals_step(entry: (Seq<char>, Seq<char>), flow: FlowV) -> FlowV {
    FlowV {
        pen: wrote(
            naming(flow.pen, "s"@, entry.0),
            "  "@ + named(flow.pen, "s"@, entry.0) + "[/\""@ + escaped(unresolved_label(entry.1)) + "\"/]"@,
        ),
        emitted: flow.emitted.push(entry.0),
        readers: flow.readers,
    }
}

fn make_draw_signals_step(entry: &(String, String), flow: &mut Flow)
    ensures
        final(flow).deep_view() == draw_signals_step(entry.deep_view(), old(flow).deep_view()),
{
    proof {
        reveal_strlit("__sv_unresolved_crate");
    }
    let id = flow.pen.id("s", entry.0.as_str());
    let label = replace(entry.1.as_str(), UNRESOLVED_CRATE, "$crate");
    let inner = esc(label.as_str());
    let line = cat5("  ", id.as_str(), "[/\"", inner.as_str(), "\"/]");
    flow.pen.line(line.as_str());
    put(&mut flow.emitted, entry.0.dup());
}

/// The boxes of the declared signals from number `i` on.
pub open spec fn draw_signals_from(entries: Seq<(Seq<char>, Seq<char>)>, i: int, flow: FlowV) -> FlowV
    decreases entries.len() - i,
{
    if i < 0 || i >= entries.len() {
        flow
    } else {
        draw_signals_from(entries, i + 1, draw_signals_step(entries[i], flow))
    }
}

fn draw_signals(entries: &Vec<(String, String)>, flow: &mut Flow)
    ensures
        final(flow).deep_view() == draw_signals_from(entries.deep_view(), 0, old(flow).deep_view()),
{
    let ghost start = flow.deep_view();
    let mut i: usize = 0;
    while i < entries.len()
        invariant
            i <= entries@.len(),
            draw_signals_from(entries.deep_view(), 0, start) == draw_signals_from(
                entries.deep_view(),
                i as int,
                flow.deep_view(),
            ),
        decreases entries@.len() - i,
    {
        make_draw_signals_step(&entries[i], flow);
        i = i + 1;
    }
}

/// The edge of a declared coupling: a writer's is drawn, a reader's is kept.
pub open spec fn draw_couplings_step(c: CouplingV, o: OptionsV, dotted: bool, flow: FlowV) -> FlowV {
    let name = signal_name(c.sig);
    let node = named(flow.pen, "n"@, c.node);
    let mid = naming(flow.pen, "n"@, c.node);
    let sig = named(mid, "s"@, name);
    let pen = naming(mid, "s"@, name);
    let label = coupling_label(c.sig, o.show_cfg);
    if c.write {
        FlowV {
            pen: wrote(pen, "  "@ + signal_edge(node, sig, label, dotted)),
            emitted: flow.emitted,
            readers: flow.readers,
        }
    } else {
        FlowV {
            pen,
            emitted: flow.emitted,
            readers: flow.readers.push(
                ReaderV { signal: sig, node: c.node, edge: signal_edge(sig, node, label, dotted) },
            ),
        }
    }
}

fn make_draw_couplings_step(c: &Coupling, o: &Options, dotted: bool, flow: &mut Flow)
    ensures
        final(flow).deep_view() == draw_couplings_step(
            c.deep_view(),
            o.deep_view(),
            dotted,
            old(flow).deep_view(),
        ),
{
    let name = c.sig.display();
    let node = flow.pen.id("n", c.node.as_str());
    let sig = flow.pen.id("s", name.as_str());
    let label = label_coupling(&c.sig, o.show_cfg);
    if c.write {
        let edge = edge_signal(node.as_str(), sig.as_str(), label.as_str(), dotted);
        let line = cat2("  ", edge.as_str());
        flow.pen.line(line.as_str());
    } else {
        let edge = edge_signal(sig.as_str(), node.as_str(), label.as_str(), dotted);
        put(&mut flow.readers, Reader { signal: sig, node: c.node.dup(), edge });
    }
}

/// The edges of the declared couplings from number `i` on.
pub open spec fn draw_couplings_from(
    list: Seq<CouplingV>,
    o: OptionsV,
    dotted: bool,
    i: int,
    flow: FlowV,
) -> FlowV
    decreases list.len() - i,
{
    if i < 0 || i >= list.len() {
        flow
    } else {
        draw_couplings_from(list, o, dotted, i + 1, draw_couplings_step(list[i], o, dotted, flow))
    }
}

fn draw_couplings(list: &Vec<Coupling>, o: &Options, dotted: bool, flow: &mut Flow)
    ensures
        final(flow).deep_view() == draw_couplings_from(
            list.deep_view(),
            o.deep_view(),
            dotted,
            0,
            old(flow).deep_view(),
        ),
{
    let ghost start = flow.deep_view();
    let mut i: usize = 0;
    while i < list.len()
        invariant
            i <= list@.len(),
            draw_couplings_from(list.deep_view(), o.deep_view(), dotted, 0, start) == draw_couplings_from(
                list.deep_view(),
                o.deep_view(),
                dotted,
                i as int,
                flow.deep_view(),
            ),
        decreases list@.len() - i,
    {
        make_draw_couplings_step(&list[i], o, dotted, flow);
        i = i + 1;
    }
}

/// What an edge says of the verb of a discovered access.
pub open spec fn verb_label(verb: Seq<char>) -> Seq<char> {
    if verb == "open"@ {
        "gated"@
    } else if verb == "beat_put"@ || verb == "beat_writer"@ {
        "beat"@
    } else if verb == "get"@ || verb == "put"@ || verb == "reader"@ || verb == "writer"@ {
        "discovered"@
    } else {
        verb
    }
}

fn label_verb(verb: &str) -> (r: String)
    ensures
        r@ == verb_label(verb@),
{
    if same(verb, "open") {
        text("gated")
    } else if same(verb, "beat_put") || same(verb, "beat_writer") {
        text("beat")
    } else if same(verb, "get") || same(verb, "put") || same(verb, "reader") || same(verb, "writer") {
        text("discovered")
    } else {
        text(verb)
    }
}

/// A label with the notes of the predicates from number `i` on.
pub open spec fn noted(label: Seq<char>, cfgs: Seq<Seq<char>>, i: int) -> Seq<char>
    decreases cfgs.len() - i,
{
    if i < 0 || i >= cfgs.len() {
        label
    } else {
        noted(label + " · <small>cfg("@ + cfgs[i] + ")</small>"@, cfgs, i + 1)
    }
}

/// The label of a discovered access.
pub open spec fn access_label(d: DiscoveredV, show: bool) -> Seq<char> {
    if show {
        noted(verb_label(d.access.verb), d.access.cfgs, 0)
    } else {
        verb_label(d.access.verb)
    }
}

fn label_access(d: &Discovered, show: bool) -> (r: String)
    ensures
        r@ == access_label(d.deep_view(), show),
{
    let mut label = label_verb(d.access.verb.as_str());
    if show {
        let ghost cs = d.access.cfgs.deep_view();
        let mut i: usize = 0;
        while i < d.access.cfgs.len()
            invariant
                i <= d.access.cfgs@.len(),
                cs == d.access.cfgs.deep_view(),
                noted(verb_label(d.access.verb@), cs, 0) == noted(label@, cs, i as int),
            decreases d.access.cfgs@.len() - i,
        {
            label = cat4(
                label.as_str(),
                " · <small>cfg(",
                d.access.cfgs[i].as_str(),
                ")</small>",
            );
            i = i + 1;
        }
    }
    label
}

/// A signal that only the sources know: its box, where it has none yet.
pub open spec fn with_box(key: Seq<char>, o: OptionsV, flow: FlowV) -> FlowV {
    if flow.emitted.contains(key) {
        flow
    } else {
        let label = if o.full_paths {
            key
        } else {
            after_last(key, "::"@)
        };
        FlowV {
            pen: wrote(
                naming(flow.pen, "s"@, key),
                "  "@ + named(flow.pen, "s"@, key) + "[/\""@ + escaped(label) + "\"/]"@,
            ),
            emitted: flow.emitted.push(key),
            readers: flow.readers,
        }
    }
}

fn add_box(key: &String, o: &Options, flow: &mut Flow)
    ensures
        final(flow).deep_view() == with_box(key@, o.deep_view(), old(flow).deep_view()),
{
    if holds(&flow.emitted, key.as_str()) {
        return;
    }
    let id = flow.pen.id("s", key.as_str());
    let label = if o.full_paths {
        key.dup()
    } else {
        proof {
            reveal_strlit("::");
        }
        tail_after(key.as_str(), "::")
    };
    let inner = esc(label.as_str());
    let line = cat5("  ", id.as_str(), "[/\"", inner.as_str(), "\"/]");
    flow.pen.line(line.as_str());
    put(&mut flow.emitted, key.dup());
}

/// The edge of a discovered access of an item.
pub open spec fn draw_access(
    node: Seq<char>,
    node_id: Seq<char>,
    d: DiscoveredV,
    declared: Seq<Seq<char>>,
    o: OptionsV,
    dotted: bool,
    flow: FlowV,
) -> FlowV {
    let key = discovered_key(d, flow.emitted, declared);
    let boxed = with_box(key, o, flow);
    let sig = named(boxed.pen, "s"@, key);
    let pen = naming(boxed.pen, "s"@, key);
    let label = access_label(d, o.show_cfg);
    if d.access.write {
        FlowV {
            pen: wrote(pen, "  "@ + signal_edge(node_id, sig, label, dotted)),
            emitted: boxed.emitted,
            readers: boxed.readers,
        }
    } else {
        FlowV {
            pen,
            emitted: boxed.emitted,
            readers: boxed.readers.push(
                ReaderV { signal: sig, node, edge: signal_edge(sig, node_id, label, dotted) },
            ),
        }
    }
}

fn make_draw_access(
    node: &String,
    node_id: &str,
    d: &Discovered,
    declared: &Vec<String>,
    o: &Options,
    dotted: bool,
    flow: &mut Flow,
)
    ensures
        final(flow).deep_view() == draw_access(
            node@,
            node_id@,
            d.deep_view(),
            declared.deep_view(),
            o.deep_view(),
            dotted,
            old(flow).deep_view(),
        ),
{
    let key = key_discovered(d, &flow.emitted, declared);
    add_box(&key, o, flow);
    let sig = flow.pen.id("s", key.as_str());
    let label = label_access(d, o.show_cfg);
    if d.access.write {
        let edge = edge_signal(node_id, sig.as_str(), label.as_str(), dotted);
        let line = cat2("  ", edge.as_str());
        flow.pen.line(line.as_str());
    } else {
        let edge = edge_signal(sig.as_str(), node_id, label.as_str(), dotted);
        put(&mut flow.readers, Reader { signal: sig, node: node.dup(), edge });
    }
}

/// The edges of the accesses of an item from number `j` on.
pub open spec fn draw_accesses(
    funcs: Seq<FnRef>,
    module: Seq<char>,
    node: Seq<char>,
    node_id: Seq<char>,
    declared: Seq<Seq<char>>,
    o: OptionsV,
    dotted: bool,
    j: int,
    flow: FlowV,
) -> FlowV
    decreases o.discovered.len() - j,
{
    if j < 0 || j >= o.discovered.len() {
        flow
    } else {
        draw_accesses(
            funcs,
            module,
            node,
            node_id,
            declared,
            o,
            dotted,
            j + 1,
            if first_access(funcs, o.discovered, module, j) {
                draw_access(node, node_id, o.discovered[j], declared, o, dotted, flow)
            } else {
                flow
            },
        )
    }
}

/// The discovered accesses of an item.
pub open spec fn draw_discovered_step(
    item: ItemV,
    module: Seq<char>,
    declared: Seq<Seq<char>>,
    o: OptionsV,
    dotted: bool,
    flow: FlowV,
) -> FlowV {
    let funcs = flow_fns(item, o.bundles);
    match boxed_name(item) {
        Some(name) => if funcs.len() == 0 {
            flow
        } else {
            draw_accesses(
                funcs,
                module,
                name,
                named(flow.pen, "n"@, name),
                declared,
                o,
                dotted,
                0,
                FlowV {
                    pen: naming(flow.pen, "n"@, name),
                    emitted: flow.emitted,
                    readers: flow.readers,
                },
            )
        },
        None => flow,
    }
}

fn make_draw_discovered_step(
    item: &Item,
    module: &str,
    declared: &Vec<String>,
    o: &Options,
    dotted: bool,
    flow: &mut Flow,
)
    ensures
        final(flow).deep_view() == draw_discovered_step(
            item.deep_view(),
            module@,
            declared.deep_view(),
            o.deep_view(),
            dotted,
            old(flow).deep_view(),
        ),
{
    let name = match name_of(item) {
        Some(name) => name,
        None => {
            return;
        },
    };
    let funcs = read_flow_fns(item, &o.bundles);
    if funcs.len() == 0 {
        return;
    }
    let node_id = flow.pen.id("n", name.as_str());
    let ghost start = flow.deep_view();
    let ghost fs = funcs.deep_view();
    let ghost dc = declared.deep_view();
    let ghost ov = o.deep_view();
    let mut j: usize = 0;
    while j < o.discovered.len()
        invariant
            j <= o.discovered@.len(),
            fs == funcs.deep_view(),
            dc == declared.deep_view(),
            ov == o.deep_view(),
            draw_accesses(fs, module@, name@, node_id@, dc, ov, dotted, 0, start) == draw_accesses(
                fs,
                module@,
                name@,
                node_id@,
                dc,
                ov,
                dotted,
                j as int,
                flow.deep_view(),
            ),
        decreases o.discovered@.len() - j,
    {
        if is_first_access(&funcs, &o.discovered, module, j) {
            assert(ov.discovered[j as int] == o.discovered@[j as int].deep_view());
            make_draw_access(&name, node_id.as_str(), &o.discovered[j], declared, o, dotted, flow);
        }
        j = j + 1;
    }
}

/// The discovered accesses of the items from number `i` on.
pub open spec fn draw_discovered_from(
    items: Seq<ItemV>,
    module: Seq<char>,
    declared: Seq<Seq<char>>,
    o: OptionsV,
    dotted: bool,
    i: int,
    flow: FlowV,
) -> FlowV
    decreases items.len() - i,
{
    if i < 0 || i >= items.len() {
        flow
    } else {
        draw_discovered_from(
            items,
            module,
            declared,
            o,
            dotted,
            i + 1,
            draw_discovered_step(items[i], module, declared, o, dotted, flow),
        )
    }
}

fn draw_discovered(
    items: &Vec<Item>,
    module: &str,
    declared: &Vec<String>,
    o: &Options,
    dotted: bool,
    flow: &mut Flow,
)
    ensures
        final(flow).deep_view() == draw_discovered_from(
            items.deep_view(),
            module@,
            declared.deep_view(),
            o.deep_view(),
            dotted,
            0,
            old(flow).deep_view(),
        ),
{
    let ghost start = flow.deep_view();
    let mut i: usize = 0;
    while i < items.len()
        invariant
            i <= items@.len(),
            draw_discovered_from(
                items.deep_view(),
                module@,
                declared.deep_view(),
                o.deep_view(),
                dotted,
                0,
                start,
            ) == draw_discovered_from(
                items.deep_view(),
                module@,
                declared.deep_view(),
                o.deep_view(),
                dotted,
                i as int,
                flow.deep_view(),
            ),
        decreases items@.len() - i,
    {
        make_draw_discovered_step(&items[i], module, declared, o, dotted, flow);
        i = i + 1;
    }
}

/// The edge between an element and its array.
pub open spec fn draw_elements_step(key: Seq<char>, names: Seq<Seq<char>>, pen: PenV) -> PenV {
    match whole_of(names, key) {
        Some(whole) => {
            let mid = naming(pen, "s"@, key);
            wrote(
                naming(mid, "s"@, whole),
                "  "@ + named(pen, "s"@, key) + " -. \"element of\" .- "@ + named(mid, "s"@, whole),
            )
        },
        None => pen,
    }
}

fn make_draw_elements_step(key: &String, names: &Vec<String>, pen: &mut Pen)
    ensures
        final(pen).deep_view() == draw_elements_step(key@, names.deep_view(), old(pen).deep_view()),
{
    if let Some(whole) = find_whole(names, key.as_str()) {
        let a = pen.id("s", key.as_str());
        let b = pen.id("s", whole.as_str());
        let line = cat4("  ", a.as_str(), " -. \"element of\" .- ", b.as_str());
        pen.line(line.as_str());
    }
}

/// The edges between elements and their arrays, from signal `i` on.
pub open spec fn draw_elements_from(names: Seq<Seq<char>>, i: int, pen: PenV) -> PenV
    decreases names.len() - i,
{
    if i < 0 || i >= names.len() {
        pen
    } else {
        draw_elements_from(names, i + 1, draw_elements_step(names[i], names, pen))
    }
}

fn draw_elements(names: &Vec<String>, pen: &mut Pen)
    ensures
        final(pen).deep_view() == draw_elements_from(names.deep_view(), 0, old(pen).deep_view()),
{
    let ghost start = pen.deep_view();
    let mut i: usize = 0;
    while i < names.len()
        invariant
            i <= names@.len(),
            draw_elements_from(names.deep_view(), 0, start) == draw_elements_from(
                names.deep_view(),
                i as int,
                pen.deep_view(),
            ),
        decreases names@.len() - i,
    {
        make_draw_elements_step(&names[i], names, pen);
        i = i + 1;
    }
}

/// The readers of a signal from number `i` on, behind `acc`.
pub open spec fn readers_of_from(
    readers: Seq<ReaderV>,
    signal: Seq<char>,
    i: int,
    acc: Seq<ReaderV>,
) -> Seq<ReaderV>
    decreases readers.len() - i,
{
    if i < 0 || i >= readers.len() {
        acc
    } else {
        readers_of_from(readers, signal, i + 1, if readers[i].signal == signal {
            acc.push(readers[i])
        } else {
            acc
        })
    }
}

fn read_readers_of(readers: &Vec<Reader>, signal: &str) -> (r: Vec<Reader>)
    ensures
        r.deep_view() == readers_of_from(readers.deep_view(), signal@, 0, Seq::empty()),
{
    let mut out: Vec<Reader> = Vec::new();
    assert(out.deep_view() == Seq::<ReaderV>::empty());
    let mut i: usize = 0;
    while i < readers.len()
        invariant
            i <= readers@.len(),
            readers_of_from(readers.deep_view(), signal@, 0, Seq::empty()) == readers_of_from(
                readers.deep_view(),
                signal@,
                i as int,
                out.deep_view(),
            ),
        decreases readers@.len() - i,
    {
        assert(readers.deep_view()[i as int] == readers@[i as int].deep_view());
        if same(readers[i].signal.as_str(), signal) {
            put(
                &mut out,
                Reader {
                    signal: readers[i].signal.dup(),
                    node: readers[i].node.dup(),
                    edge: readers[i].edge.dup(),
                },
            );
        }
        i = i + 1;
    }
    out
}

/// The items that read.
pub open spec fn reader_nodes(readers: Seq<ReaderV>) -> Seq<Seq<char>> {
    Seq::new(readers.len(), |i: int| readers[i].node)
}

fn read_reader_nodes(readers: &Vec<Reader>) -> (r: Vec<String>)
    ensures
        r.deep_view() == reader_nodes(readers.deep_view()),
{
    let ghost all = reader_nodes(readers.deep_view());
    let mut out: Vec<String> = Vec::new();
    let mut i: usize = 0;
    while i < readers.len()
        invariant
            i <= readers@.len(),
            all == reader_nodes(readers.deep_view()),
            out.deep_view() == all.take(i as int),
        decreases readers@.len() - i,
    {
        put(&mut out, readers[i].node.dup());
        i = i + 1;
        assert(out.deep_view() == all.take(i as int));
    }
    assert(all.take(all.len() as int) == all);
    out
}

/// The signals that are read.
pub open spec fn reader_signals(readers: Seq<ReaderV>) -> Seq<Seq<char>> {
    Seq::new(readers.len(), |i: int| readers[i].signal)
}

fn read_reader_signals(readers: &Vec<Reader>) -> (r: Vec<String>)
    ensures
        r.deep_view() == reader_signals(readers.deep_view()),
{
    let ghost all = reader_signals(readers.deep_view());
    let mut out: Vec<String> = Vec::new();
    let mut i: usize = 0;
    while i < readers.len()
        invariant
            i <= readers@.len(),
            all == reader_signals(readers.deep_view()),
            out.deep_view() == all.take(i as int),
        decreases readers@.len() - i,
    {
        put(&mut out, readers[i].signal.dup());
        i = i + 1;
        assert(out.deep_view() == all.take(i as int));
    }
    assert(all.take(all.len() as int) == all);
    out
}

/// The edge of a reader.
pub open spec fn draw_edges_step(reader: ReaderV, pen: PenV) -> PenV {
    wrote(pen, "  "@ + reader.edge)
}

fn make_draw_edges_step(reader: &Reader, pen: &mut Pen)
    ensures
        final(pen).deep_view() == draw_edges_step(reader.deep_view(), old(pen).deep_view()),
{
    let line = cat2("  ", reader.edge.as_str());
    pen.line(line.as_str());
}

/// The edges of the readers from number `i` on.
pub open spec fn draw_edges_from(readers: Seq<ReaderV>, i: int, pen: PenV) -> PenV
    decreases readers.len() - i,
{
    if i < 0 || i >= readers.len() {
        pen
    } else {
        draw_edges_from(readers, i + 1, draw_edges_step(readers[i], pen))
    }
}

fn draw_edges(readers: &Vec<Reader>, pen: &mut Pen)
    ensures
        final(pen).deep_view() == draw_edges_from(readers.deep_view(), 0, old(pen).deep_view()),
{
    let ghost start = pen.deep_view();
    let mut i: usize = 0;
    while i < readers.len()
        invariant
            i <= readers@.len(),
            draw_edges_from(readers.deep_view(), 0, start) == draw_edges_from(
                readers.deep_view(),
                i as int,
                pen.deep_view(),
            ),
        decreases readers@.len() - i,
    {
        make_draw_edges_step(&readers[i], pen);
        i = i + 1;
    }
}

/// The readers of a signal: an edge each, or one box for all where they are too many.
pub open spec fn draw_readers_step(
    signal: Seq<char>,
    readers: Seq<ReaderV>,
    o: OptionsV,
    dotted: bool,
    pen: PenV,
) -> PenV {
    let mine = readers_of_from(readers, signal, 0, Seq::empty());
    if o.max_fanout > 0 && mine.len() > o.max_fanout {
        let fan = "fan_"@ + signal;
        wrote(
            wrote(
                pen,
                "  "@ + fan + "[\""@ + decimal(mine.len()) + " readers: "@ + escaped(
                    joined(reader_nodes(mine), ", "@),
                ) + "\"]"@,
            ),
            "  "@ + signal_edge(signal, fan, ""@, dotted),
        )
    } else {
        draw_edges_from(mine, 0, pen)
    }
}

fn make_draw_readers_step(
    signal: &String,
    readers: &Vec<Reader>,
    o: &Options,
    dotted: bool,
    pen: &mut Pen,
)
    ensures
        final(pen).deep_view() == draw_readers_step(
            signal@,
            readers.deep_view(),
            o.deep_view(),
            dotted,
            old(pen).deep_view(),
        ),
{
    let mine = read_readers_of(readers, signal.as_str());
    assert(mine.deep_view().len() == mine@.len());
    if o.max_fanout > 0 && mine.len() > o.max_fanout {
        let fan = cat2("fan_", signal.as_str());
        let nodes = read_reader_nodes(&mine);
        let names = join(&nodes, ", ");
        let inner = esc(names.as_str());
        let size = decimal_usize(mine.len());
        let line = cat7("  ", fan.as_str(), "[\"", size.as_str(), " readers: ", inner.as_str(), "\"]");
        pen.line(line.as_str());
        let edge = edge_signal(signal.as_str(), fan.as_str(), "", dotted);
        let second = cat2("  ", edge.as_str());
        pen.line(second.as_str());
    } else {
        draw_edges(&mine, pen);
    }
}

/// The readers of the signals from number `i` on.
pub open spec fn draw_readers_from(
    signals: Seq<Seq<char>>,
    readers: Seq<ReaderV>,
    o: OptionsV,
    dotted: bool,
    i: int,
    pen: PenV,
) -> PenV
    decreases signals.len() - i,
{
    if i < 0 || i >= signals.len() {
        pen
    } else {
        draw_readers_from(
            signals,
            readers,
            o,
            dotted,
            i + 1,
            draw_readers_step(signals[i], readers, o, dotted, pen),
        )
    }
}

fn draw_readers(signals: &Vec<String>, readers: &Vec<Reader>, o: &Options, dotted: bool, pen: &mut Pen)
    ensures
        final(pen).deep_view() == draw_readers_from(
            signals.deep_view(),
            readers.deep_view(),
            o.deep_view(),
            dotted,
            0,
            old(pen).deep_view(),
        ),
{
    let ghost start = pen.deep_view();
    let mut i: usize = 0;
    while i < signals.len()
        invariant
            i <= signals@.len(),
            draw_readers_from(
                signals.deep_view(),
                readers.deep_view(),
                o.deep_view(),
                dotted,
                0,
                start,
            ) == draw_readers_from(
                signals.deep_view(),
                readers.deep_view(),
                o.deep_view(),
                dotted,
                i as int,
                pen.deep_view(),
            ),
        decreases signals@.len() - i,
    {
        make_draw_readers_step(&signals[i], readers, o, dotted, pen);
        i = i + 1;
    }
}

/// The line that gives elements their class: nothing where there are none.
pub open spec fn draw_class(
    prefix: Seq<char>,
    names: Seq<Seq<char>>,
    class: Seq<char>,
    pen: PenV,
) -> PenV {
    if names.len() == 0 {
        pen
    } else {
        let (after, ids) = all_named(pen, prefix, names);
        wrote(after, "  class "@ + joined(ids, ","@) + " "@ + class + ";"@)
    }
}

fn make_class(prefix: &str, names: &Vec<String>, class: &str, pen: &mut Pen)
    ensures
        final(pen).deep_view() == draw_class(prefix@, names.deep_view(), class@, old(pen).deep_view()),
{
    if names.len() == 0 {
        return;
    }
    let ids = pen.name_all(prefix, names);
    let list = join(&ids, ",");
    let line = cat5("  class ", list.as_str(), " ", class, ";");
    pen.line(line.as_str());
}

/// The signals of a graph and all edges to and from them.
pub open spec fn draw_flow(items: Seq<ItemV>, module: Seq<char>, o: OptionsV, pen: PenV) -> PenV {
    let dotted = o.signals && !o.runtime;
    let start = FlowV { pen: wrote(pen, ""@), emitted: Seq::empty(), readers: Seq::empty() };
    let boxes = draw_signals_from(labelled(signal_keys(items), o.full_paths), 0, start);
    let edges = draw_couplings_from(couplings(items), o, dotted, 0, boxes);
    let all = draw_discovered_from(items, module, edges.emitted, o, dotted, 0, edges);
    let elements = draw_elements_from(all.emitted, 0, all.pen);
    let read = draw_readers_from(
        ordered(reader_signals(all.readers)),
        all.readers,
        o,
        dotted,
        0,
        elements,
    );
    draw_class("s"@, all.emitted, "signal"@, read)
}

fn make_flow(items: &Vec<Item>, module: &str, o: &Options, pen: Pen) -> (r: Pen)
    ensures
        r.deep_view() == draw_flow(items.deep_view(), module@, o.deep_view(), pen.deep_view()),
{
    let dotted = o.signals && !o.runtime;
    let mut start = pen;
    start.line("");
    let mut flow = Flow { pen: start, emitted: Vec::new(), readers: Vec::new() };
    assert(flow.emitted.deep_view() == Seq::<Seq<char>>::empty());
    assert(flow.readers.deep_view() == Seq::<ReaderV>::empty());
    let labels = signal_labels(items, o.full_paths);
    draw_signals(&labels, &mut flow);
    let list = all_couplings(items);
    draw_couplings(&list, o, dotted, &mut flow);
    let declared = flow.emitted.dup();
    draw_discovered(items, module, &declared, o, dotted, &mut flow);
    let mut last = flow.pen;
    draw_elements(&flow.emitted, &mut last);
    let read = read_reader_signals(&flow.readers);
    let signals = in_order(&read);
    draw_readers(&signals, &flow.readers, o, dotted, &mut last);
    make_class("s", &flow.emitted, "signal", &mut last);
    last
}

/// The resources an item takes, each with its name, from number `i` on, behind `acc`.
pub open spec fn takes_from(
    node: Seq<char>,
    list: Seq<ResourceDeclV>,
    i: int,
    acc: Seq<(Seq<char>, ResourceDeclV)>,
) -> Seq<
    (Seq<char>, ResourceDeclV),
>
    decreases list.len() - i,
{
    if i < 0 || i >= list.len() {
        acc
    } else {
        takes_from(node, list, i + 1, acc.push((node, list[i])))
    }
}

fn add_takes(node: &String, list: &Vec<ResourceDecl>, out: &mut Vec<(String, ResourceDecl)>)
    ensures
        final(out).deep_view() == takes_from(node@, list.deep_view(), 0, old(out).deep_view()),
{
    let ghost start = out.deep_view();
    let ghost l = list.deep_view();
    let mut i: usize = 0;
    while i < list.len()
        invariant
            i <= list@.len(),
            l == list.deep_view(),
            takes_from(node@, l, 0, start) == takes_from(node@, l, i as int, out.deep_view()),
        decreases list@.len() - i,
    {
        put(out, (node.dup(), list[i].dup()));
        i = i + 1;
    }
}

/// The resources that the items from number `i` on take, each with the item, behind `acc`.
pub open spec fn uses_from(
    items: Seq<ItemV>,
    i: int,
    acc: Seq<(Seq<char>, ResourceDeclV)>,
) -> Seq<(Seq<char>, ResourceDeclV)>
    decreases items.len() - i,
{
    if i < 0 || i >= items.len() {
        acc
    } else {
        uses_from(items, i + 1, match boxed_name(items[i]) {
            Some(name) => takes_from(name, resources_of(items[i]), 0, acc),
            None => acc,
        })
    }
}

fn read_uses(items: &Vec<Item>) -> (r: Vec<(String, ResourceDecl)>)
    ensures
        r.deep_view() == uses_from(items.deep_view(), 0, Seq::empty()),
{
    let mut out: Vec<(String, ResourceDecl)> = Vec::new();
    assert(out.deep_view() == Seq::<(Seq<char>, ResourceDeclV)>::empty());
    let mut i: usize = 0;
    while i < items.len()
        invariant
            i <= items@.len(),
            uses_from(items.deep_view(), 0, Seq::empty()) == uses_from(
                items.deep_view(),
                i as int,
                out.deep_view(),
            ),
        decreases items@.len() - i,
    {
        match &items[i] {
            Item::Node(n) => add_takes(&n.ident, &n.resources, &mut out),
            Item::Pool(p) => add_takes(&p.ident, &p.resources, &mut out),
            Item::Executor(_) => {},
        }
        i = i + 1;
    }
    out
}

/// The slots of the uses from number `i` on, each once, behind `acc`.
pub open spec fn slots_from(
    uses: Seq<(Seq<char>, ResourceDeclV)>,
    i: int,
    acc: Seq<Seq<char>>,
) -> Seq<Seq<char>>
    decreases uses.len() - i,
{
    if i < 0 || i >= uses.len() {
        acc
    } else {
        slots_from(uses, i + 1, with_if(acc, !acc.contains(uses[i].1.ident), uses[i].1.ident))
    }
}

fn read_slots(uses: &Vec<(String, ResourceDecl)>) -> (r: Vec<String>)
    ensures
        r.deep_view() == slots_from(uses.deep_view(), 0, Seq::empty()),
{
    let mut out: Vec<String> = Vec::new();
    assert(out.deep_view() == Seq::<Seq<char>>::empty());
    let mut i: usize = 0;
    while i < uses.len()
        invariant
            i <= uses@.len(),
            slots_from(uses.deep_view(), 0, Seq::empty()) == slots_from(
                uses.deep_view(),
                i as int,
                out.deep_view(),
            ),
        decreases uses@.len() - i,
    {
        let name = uses[i].1.ident.as_str();
        let fresh = !holds(&out, name);
        add_if(&mut out, fresh, name);
        i = i + 1;
    }
    out
}

/// The box of a slot.
pub open spec fn draw_slots_step(name: Seq<char>, pen: PenV) -> PenV {
    wrote(
        naming(pen, "r"@, name),
        "  "@ + named(pen, "r"@, name) + "@{ shape: notch-rect, label: \""@ + escaped(name) + "\" }"@,
    )
}

fn make_draw_slots_step(name: &String, pen: &mut Pen)
    ensures
        final(pen).deep_view() == draw_slots_step(name@, old(pen).deep_view()),
{
    let id = pen.id("r", name.as_str());
    let inner = esc(name.as_str());
    let line = cat5("  ", id.as_str(), "@{ shape: notch-rect, label: \"", inner.as_str(), "\" }");
    pen.line(line.as_str());
}

/// The boxes of the slots from number `i` on.
pub open spec fn draw_slots_from(names: Seq<Seq<char>>, i: int, pen: PenV) -> PenV
    decreases names.len() - i,
{
    if i < 0 || i >= names.len() {
        pen
    } else {
        draw_slots_from(names, i + 1, draw_slots_step(names[i], pen))
    }
}

fn draw_slots(names: &Vec<String>, pen: &mut Pen)
    ensures
        final(pen).deep_view() == draw_slots_from(names.deep_view(), 0, old(pen).deep_view()),
{
    let ghost start = pen.deep_view();
    let mut i: usize = 0;
    while i < names.len()
        invariant
            i <= names@.len(),
            draw_slots_from(names.deep_view(), 0, start) == draw_slots_from(
                names.deep_view(),
                i as int,
                pen.deep_view(),
            ),
        decreases names@.len() - i,
    {
        make_draw_slots_step(&names[i], pen);
        i = i + 1;
    }
}

/// The edge of a resource.
pub open spec fn draw_uses_step(entry: (Seq<char>, ResourceDeclV), o: OptionsV, pen: PenV) -> PenV {
    let node = named(pen, "n"@, entry.0);
    let mid = naming(pen, "n"@, entry.0);
    let slot = named(mid, "r"@, entry.1.ident);
    wrote(
        naming(mid, "r"@, entry.1.ident),
        "  "@ + resource_edge(slot, node, entry.1, o.show_cfg),
    )
}

fn make_draw_uses_step(entry: &(String, ResourceDecl), o: &Options, pen: &mut Pen)
    ensures
        final(pen).deep_view() == draw_uses_step(
            entry.deep_view(),
            o.deep_view(),
            old(pen).deep_view(),
        ),
{
    let node = pen.id("n", entry.0.as_str());
    let slot = pen.id("r", entry.1.ident.as_str());
    let edge = edge_resource(slot.as_str(), node.as_str(), &entry.1, o.show_cfg);
    let line = cat2("  ", edge.as_str());
    pen.line(line.as_str());
}

/// The edges of the resources from number `i` on.
pub open spec fn draw_uses_from(
    uses: Seq<(Seq<char>, ResourceDeclV)>,
    o: OptionsV,
    i: int,
    pen: PenV,
) -> PenV
    decreases uses.len() - i,
{
    if i < 0 || i >= uses.len() {
        pen
    } else {
        draw_uses_from(uses, o, i + 1, draw_uses_step(uses[i], o, pen))
    }
}

fn draw_uses(uses: &Vec<(String, ResourceDecl)>, o: &Options, pen: &mut Pen)
    ensures
        final(pen).deep_view() == draw_uses_from(
            uses.deep_view(),
            o.deep_view(),
            0,
            old(pen).deep_view(),
        ),
{
    let ghost start = pen.deep_view();
    let mut i: usize = 0;
    while i < uses.len()
        invariant
            i <= uses@.len(),
            draw_uses_from(uses.deep_view(), o.deep_view(), 0, start) == draw_uses_from(
                uses.deep_view(),
                o.deep_view(),
                i as int,
                pen.deep_view(),
            ),
        decreases uses@.len() - i,
    {
        make_draw_uses_step(&uses[i], o, pen);
        i = i + 1;
    }
}

/// The edge from a provider to the slot it fills, where the slot is drawn.
pub open spec fn provide_step(
    node: Seq<char>,
    p: ProvideDeclV,
    slots: Seq<Seq<char>>,
    o: OptionsV,
    pen: PenV,
) -> PenV {
    if !slots.contains(p.ident) {
        pen
    } else {
        let node_id = named(pen, "n"@, node);
        let mid = naming(pen, "n"@, node);
        let slot = named(mid, "r"@, p.ident);
        let label = match cfg_note(p.cfg, o.show_cfg) {
            Some(c) => "provides · "@ + c,
            None => "provides"@,
        };
        wrote(
            naming(mid, "r"@, p.ident),
            "  "@ + node_id + " -- \""@ + escaped(label) + "\" --> "@ + slot,
        )
    }
}

fn make_provide_step(node: &String, p: &ProvideDecl, slots: &Vec<String>, o: &Options, pen: &mut Pen)
    ensures
        final(pen).deep_view() == provide_step(
            node@,
            p.deep_view(),
            slots.deep_view(),
            o.deep_view(),
            old(pen).deep_view(),
        ),
{
    if !holds(slots, p.ident.as_str()) {
        return;
    }
    let node_id = pen.id("n", node.as_str());
    let slot = pen.id("r", p.ident.as_str());
    let label = match note_cfg(&p.cfg, o.show_cfg) {
        Some(c) => cat2("provides · ", c.as_str()),
        None => text("provides"),
    };
    let inner = esc(label.as_str());
    let line = cat6("  ", node_id.as_str(), " -- \"", inner.as_str(), "\" --> ", slot.as_str());
    pen.line(line.as_str());
}

/// The edges from a provider to its slots from number `i` on.
pub open spec fn provides_from(
    node: Seq<char>,
    list: Seq<ProvideDeclV>,
    slots: Seq<Seq<char>>,
    o: OptionsV,
    i: int,
    pen: PenV,
) -> PenV
    decreases list.len() - i,
{
    if i < 0 || i >= list.len() {
        pen
    } else {
        provides_from(node, list, slots, o, i + 1, provide_step(node, list[i], slots, o, pen))
    }
}

/// The edges from an item to the slots it fills.
pub open spec fn draw_provides_step(
    item: ItemV,
    slots: Seq<Seq<char>>,
    o: OptionsV,
    pen: PenV,
) -> PenV {
    match item {
        ItemV::Node(n) => provides_from(n.ident, n.provides, slots, o, 0, pen),
        _ => pen,
    }
}

fn make_draw_provides_step(item: &Item, slots: &Vec<String>, o: &Options, pen: &mut Pen)
    ensures
        final(pen).deep_view() == draw_provides_step(
            item.deep_view(),
            slots.deep_view(),
            o.deep_view(),
            old(pen).deep_view(),
        ),
{
    if let Item::Node(n) = item {
        let ghost start = pen.deep_view();
        let ghost l = n.provides.deep_view();
        let ghost sv = slots.deep_view();
        let ghost ov = o.deep_view();
        let mut i: usize = 0;
        while i < n.provides.len()
            invariant
                i <= n.provides@.len(),
                l == n.provides.deep_view(),
                sv == slots.deep_view(),
                ov == o.deep_view(),
                provides_from(n.ident@, l, sv, ov, 0, start) == provides_from(
                    n.ident@,
                    l,
                    sv,
                    ov,
                    i as int,
                    pen.deep_view(),
                ),
            decreases n.provides@.len() - i,
        {
            make_provide_step(&n.ident, &n.provides[i], slots, o, pen);
            i = i + 1;
        }
    }
}

/// The edges to filled slots of the items from number `i` on.
pub open spec fn draw_provides_from(
    items: Seq<ItemV>,
    slots: Seq<Seq<char>>,
    o: OptionsV,
    i: int,
    pen: PenV,
) -> PenV
    decreases items.len() - i,
{
    if i < 0 || i >= items.len() {
        pen
    } else {
        draw_provides_from(items, slots, o, i + 1, draw_provides_step(items[i], slots, o, pen))
    }
}

fn draw_provides(items: &Vec<Item>, slots: &Vec<String>, o: &Options, pen: &mut Pen)
    ensures
        final(pen).deep_view() == draw_provides_from(
            items.deep_view(),
            slots.deep_view(),
            o.deep_view(),
            0,
            old(pen).deep_view(),
        ),
{
    let ghost start = pen.deep_view();
    let mut i: usize = 0;
    while i < items.len()
        invariant
            i <= items@.len(),
            draw_provides_from(items.deep_view(), slots.deep_view(), o.deep_view(), 0, start) == draw_provides_from(
                items.deep_view(),
                slots.deep_view(),
                o.deep_view(),
                i as int,
                pen.deep_view(),
            ),
        decreases items@.len() - i,
    {
        make_draw_provides_step(&items[i], slots, o, pen);
        i = i + 1;
    }
}

/// The resource slots of a graph and the edges to and from them.
pub open spec fn draw_resources(items: Seq<ItemV>, o: OptionsV, pen: PenV) -> PenV {
    let uses = uses_from(items, 0, Seq::empty());
    let slots = slots_from(uses, 0, Seq::empty());
    let boxes = draw_slots_from(slots, 0, wrote(pen, ""@));
    let taken = draw_uses_from(uses, o, 0, boxes);
    draw_class("r"@, slots, "resource"@, draw_provides_from(items, slots, o, 0, taken))
}

fn make_resources(items: &Vec<Item>, o: &Options, pen: &mut Pen)
    ensures
        final(pen).deep_view() == draw_resources(
            items.deep_view(),
            o.deep_view(),
            old(pen).deep_view(),
        ),
{
    let uses = read_uses(items);
    let slots = read_slots(&uses);
    pen.line("");
    draw_slots(&slots, pen);
    draw_uses(&uses, o, pen);
    draw_provides(items, &slots, o, pen);
    make_class("r", &slots, "resource", pen);
}

/// A node that starts disabled.
pub open spec fn is_disabled(item: ItemV) -> bool {
    item matches ItemV::Node(n) && n.disabled is Some
}

/// A node without a task that does not start disabled.
pub open spec fn is_parked(item: ItemV) -> bool {
    item matches ItemV::Node(n) && n.disabled is None && n.source is None
}

fn disabled(item: &Item) -> (r: bool)
    ensures
        r == is_disabled(item.deep_view()),
{
    match item {
        Item::Node(n) => n.disabled.is_some(),
        _ => false,
    }
}

fn parked(item: &Item) -> (r: bool)
    ensures
        r == is_parked(item.deep_view()),
{
    match item {
        Item::Node(n) => n.disabled.is_none() && n.source.is_none(),
        _ => false,
    }
}

/// The disabled nodes from item `i` on, behind `acc`.
pub open spec fn disabled_names_from(items: Seq<ItemV>, i: int, acc: Seq<Seq<char>>) -> Seq<Seq<char>>
    decreases items.len() - i,
{
    if i < 0 || i >= items.len() {
        acc
    } else {
        disabled_names_from(items, i + 1, if is_disabled(items[i]) {
            with_some(acc, boxed_name(items[i]))
        } else {
            acc
        })
    }
}

fn read_disabled_names(items: &Vec<Item>) -> (r: Vec<String>)
    ensures
        r.deep_view() == disabled_names_from(items.deep_view(), 0, Seq::empty()),
{
    let mut out: Vec<String> = Vec::new();
    assert(out.deep_view() == Seq::<Seq<char>>::empty());
    let mut i: usize = 0;
    while i < items.len()
        invariant
            i <= items@.len(),
            disabled_names_from(items.deep_view(), 0, Seq::empty()) == disabled_names_from(
                items.deep_view(),
                i as int,
                out.deep_view(),
            ),
        decreases items@.len() - i,
    {
        if disabled(&items[i]) {
            add_some(&mut out, name_of(&items[i]));
        }
        i = i + 1;
    }
    out
}

/// The parked nodes from item `i` on, behind `acc`.
pub open spec fn parked_names_from(items: Seq<ItemV>, i: int, acc: Seq<Seq<char>>) -> Seq<Seq<char>>
    decreases items.len() - i,
{
    if i < 0 || i >= items.len() {
        acc
    } else {
        parked_names_from(items, i + 1, if is_parked(items[i]) {
            with_some(acc, boxed_name(items[i]))
        } else {
            acc
        })
    }
}

fn read_parked_names(items: &Vec<Item>) -> (r: Vec<String>)
    ensures
        r.deep_view() == parked_names_from(items.deep_view(), 0, Seq::empty()),
{
    let mut out: Vec<String> = Vec::new();
    assert(out.deep_view() == Seq::<Seq<char>>::empty());
    let mut i: usize = 0;
    while i < items.len()
        invariant
            i <= items@.len(),
            parked_names_from(items.deep_view(), 0, Seq::empty()) == parked_names_from(
                items.deep_view(),
                i as int,
                out.deep_view(),
            ),
        decreases items@.len() - i,
    {
        if parked(&items[i]) {
            add_some(&mut out, name_of(&items[i]));
        }
        i = i + 1;
    }
    out
}

/// A declaration as a flowchart, without its legend.
pub open spec fn drawing(d: DeclV, o: OptionsV) -> PenV {
    let items = d.spec.items;
    let module = module_name(d.origin);
    let groups = groups_of(items, o);
    let start = PenV { out: header(d, o), ids: Seq::empty() };
    let boxes = draw_groups_from(items, groups, groups.len() > 1, o, 0, start);
    let linked = match o.links {
        Some(template) => draw_links_from(d, o, template, items, 0, boxes),
        None => boxes,
    };
    let edges = dep_edges(items, module, o);
    let externals = externals_from(edges, boxed_names_from(items, 0, Seq::empty()), 0, Seq::empty());
    let outside = draw_externals_from(externals, 0, linked);
    let spaced = if edges.len() > 0 {
        wrote(outside, ""@)
    } else {
        outside
    };
    let deps = draw_deps_from(edges, o, 0, spaced);
    let flow = if o.signals || o.runtime {
        draw_flow(items, module, o, deps)
    } else {
        deps
    };
    let resources = draw_resources(items, o, flow);
    let closed = wrote(
        if o.legend {
            wrote(resources, "  end"@)
        } else {
            resources
        },
        ""@,
    );
    let off = draw_class("n"@, disabled_names_from(items, 0, Seq::empty()), "disabled"@, closed);
    let ext = draw_class("n"@, externals, "external"@, off);
    let all = draw_class("n"@, parked_names_from(items, 0, Seq::empty()), "parked"@, ext);
    inked(all, CLASSDEFS@)
}

/// A declaration as a flowchart.
pub open spec fn flowchart(d: DeclV, o: OptionsV) -> Seq<char> {
    let body = drawing(d, o).out;
    if o.legend {
        body + legend_text(o, true, arrows(body))
    } else {
        body
    }
}

/// Renders a declaration as a Mermaid flowchart diagram.
pub fn render(decl: &Decl, opts: &Options) -> (r: String)
    ensures
        r@ == flowchart(decl.deep_view(), opts.deep_view()),
{
    let ghost d = decl.deep_view();
    let ghost o = opts.deep_view();
    let items = &decl.spec.items;
    let module = module_of(decl.origin.as_str());
    let groups = read_groups(items, opts);
    let mut pen = Pen::new(make_header(decl, opts));
    assert(groups.deep_view().len() == groups@.len());
    draw_groups(items, &groups, groups.len() > 1, opts, &mut pen);
    if let Some(template) = &opts.links {
        draw_links(decl, opts, template.as_str(), items, &mut pen);
    }
    let edges = read_dep_edges(items, module.as_str(), opts);
    let declared = read_boxed_names(items);
    let externals = read_externals(&edges, &declared);
    draw_externals(&externals, &mut pen);
    assert(edges.deep_view().len() == edges@.len());
    if edges.len() > 0 {
        pen.line("");
    }
    draw_deps(&edges, opts, &mut pen);
    if opts.signals || opts.runtime {
        pen = make_flow(items, module.as_str(), opts, pen);
    }
    make_resources(items, opts, &mut pen);
    if opts.legend {
        pen.line("  end");
    }
    pen.line("");
    let off = read_disabled_names(items);
    make_class("n", &off, "disabled", &mut pen);
    make_class("n", &externals, "external", &mut pen);
    let idle = read_parked_names(items);
    make_class("n", &idle, "parked", &mut pen);
    pen.ink(CLASSDEFS);
    assert(pen.deep_view() == drawing(d, o));
    let mut out = pen.out;
    if opts.legend {
        let before = count_links(out.as_str());
        let more = legend(opts, true, before);
        out.append(more.as_str());
    }
    out
}

/// The font size of a state legend that stands alone.
pub const STATES_SMALL: &'static str = "%%{init: {\"themeVariables\": {\"fontSize\": \"11px\"}} }%%\n";

/// A legend as a diagram of its own.
pub open spec fn legend_alone(o: OptionsV) -> Seq<char> {
    if o.states {
        let dir = state_direction(o.direction);
        STATES_SMALL@ + "%% legend\nstateDiagram-v2\n  direction "@ + dir + "\n"@ + crate::states::legend_text(dir)
    } else {
        spacing_text((OptionsV { legend: true, ..o })) + "%% legend\nflowchart LR\n"@ + legend_text(o, false, 0)
            + CLASSDEFS@
    }
}

/// Renders a standalone legend diagram for the given options.
pub fn legend_diagram(opts: &Options) -> (r: String)
    ensures
        r@ == legend_alone(opts.deep_view()),
{
    if opts.states {
        let dir = direction_of(opts.direction.as_str());
        let body = crate::states::legend(dir.as_str());
        return cat5(
            STATES_SMALL,
            "%% legend\nstateDiagram-v2\n  direction ",
            dir.as_str(),
            "\n",
            body.as_str(),
        );
    }
    let mut wide = opts.dup();
    wide.legend = true;
    let spacing = spacing_init(&wide);
    let body = legend(opts, false, 0);
    cat4(spacing.as_str(), "%% legend\nflowchart LR\n", body.as_str(), CLASSDEFS)
}

proof fn lemma_item_deps(
    o: OptionsV,
    anchors: Seq<Seq<char>>,
    node: Seq<char>,
    deps: Seq<DepV>,
    i: int,
    acc: Seq<(Seq<char>, DepV)>,
    x: (Seq<char>, DepV),
)
    requires
        0 <= i,
    ensures
        item_deps_from(o, anchors, node, deps, i, acc).contains(x) <==> acc.contains(x) || (x.0 == node
            && shows_dep(o, anchors, node, x.1) && exists|k: int|
            i <= k < deps.len() && #[trigger] deps[k] == x.1),
    decreases deps.len() - i,
{
    if i < deps.len() {
        let shown = shows_dep(o, anchors, node, deps[i]);
        let next = if shown {
            acc.push((node, deps[i]))
        } else {
            acc
        };
        lemma_item_deps(o, anchors, node, deps, i + 1, next, x);
        if acc.contains(x) {
            let m = choose|m: int| 0 <= m < acc.len() && acc[m] == x;
            assert(next[m] == x);
        }
        if shown {
            assert(next[acc.len() as int] == (node, deps[i]));
        }
        if next.contains(x) && !acc.contains(x) {
            let m = choose|m: int| 0 <= m < next.len() && next[m] == x;
            if m < acc.len() {
                assert(acc[m] == x);
            }
            assert(deps[i] == x.1);
        }
    }
}

/// The dep `x` of some item from number `i` on is one that the view draws.
pub open spec fn drawn_dep(
    items: Seq<ItemV>,
    anchors: Seq<Seq<char>>,
    o: OptionsV,
    i: int,
    x: (Seq<char>, DepV),
) -> bool {
    exists|k: int|
        i <= k < items.len() && boxed_name(#[trigger] items[k]) == Some(x.0) && deps_of(
            items[k],
        ).contains(x.1) && shows_dep(o, anchors, x.0, x.1)
}

proof fn lemma_dep_edges(
    items: Seq<ItemV>,
    anchors: Seq<Seq<char>>,
    o: OptionsV,
    i: int,
    acc: Seq<(Seq<char>, DepV)>,
    x: (Seq<char>, DepV),
)
    requires
        0 <= i,
    ensures
        dep_edges_from(items, anchors, o, i, acc).contains(x) <==> acc.contains(x) || drawn_dep(
            items,
            anchors,
            o,
            i,
            x,
        ),
    decreases items.len() - i,
{
    if i < items.len() {
        let next = match boxed_name(items[i]) {
            Some(name) => item_deps_from(o, anchors, name, deps_of(items[i]), 0, acc),
            None => acc,
        };
        lemma_dep_edges(items, anchors, o, i + 1, next, x);
        if let Some(name) = boxed_name(items[i]) {
            lemma_item_deps(o, anchors, name, deps_of(items[i]), 0, acc, x);
            let deps = deps_of(items[i]);
            if deps.contains(x.1) {
                let k = choose|k: int| 0 <= k < deps.len() && deps[k] == x.1;
                assert(deps[k] == x.1);
            }
        }
        assert(drawn_dep(items, anchors, o, i, x) <==> drawn_dep(items, anchors, o, i + 1, x) || (
        boxed_name(items[i]) == Some(x.0) && deps_of(items[i]).contains(x.1) && shows_dep(
            o,
            anchors,
            x.0,
            x.1,
        )));
    }
}

/// The dep edges drawn are the deps of the nodes and pools that the view shows: all of them in the
/// bring-up view.
pub proof fn the_dep_edges_are_the_shown_deps(
    items: Seq<ItemV>,
    module: Seq<char>,
    o: OptionsV,
    x: (Seq<char>, DepV),
)
    ensures
        dep_edges(items, module, o).contains(x) <==> drawn_dep(
            items,
            anchored(items, module, o),
            o,
            0,
            x,
        ),
{
    lemma_dep_edges(items, anchored(items, module, o), o, 0, Seq::empty(), x);
}

/// The runtime view draws no deps unless it is asked to.
pub proof fn the_runtime_view_draws_no_deps(items: Seq<ItemV>, module: Seq<char>, o: OptionsV)
    requires
        o.runtime,
        !o.runtime_deps,
        !o.anchor_uncoupled,
    ensures
        dep_edges(items, module, o).len() == 0,
{
    let edges = dep_edges(items, module, o);
    if edges.len() > 0 {
        let x = edges[0];
        the_dep_edges_are_the_shown_deps(items, module, o, x);
        assert(edges.contains(x));
    }
}

proof fn lemma_externals(
    edges: Seq<(Seq<char>, DepV)>,
    declared: Seq<Seq<char>>,
    i: int,
    acc: Seq<Seq<char>>,
    x: Seq<char>,
)
    requires
        0 <= i,
        acc.no_duplicates(),
    ensures
        externals_from(edges, declared, i, acc).no_duplicates(),
        externals_from(
            edges,
            declared,
            i,
            acc).contains(x) <==> acc.contains(x) || (!declared.contains(x,
        )
            && exists|k: int| i <= k < edges.len() && (#[trigger] edges[k]).1.ident == x),
    decreases edges.len() - i,
{
    if i < edges.len() {
        let name = edges[i].1.ident;
        let next = with_if(acc, !declared.contains(name) && !acc.contains(name), name);
        if !declared.contains(name) && !acc.contains(name) {
            assert(next[acc.len() as int] == name);
            if acc.contains(x) {
                let m = choose|m: int| 0 <= m < acc.len() && acc[m] == x;
                assert(next[m] == x);
            }
        }
        lemma_externals(edges, declared, i + 1, next, x);
    }
}

/// A name is drawn as external, once, where a drawn dep needs it and nothing declares it.
pub proof fn an_external_is_what_is_needed_and_not_declared(
    edges: Seq<(Seq<char>, DepV)>,
    declared: Seq<Seq<char>>,
    x: Seq<char>,
)
    ensures
        externals_from(edges, declared, 0, Seq::empty()).no_duplicates(),
        externals_from(edges, declared, 0, Seq::empty()).contains(x) <==> !declared.contains(x)
            && exists|k: int| 0 <= k < edges.len() && (#[trigger] edges[k]).1.ident == x,
{
    lemma_externals(edges, declared, 0, Seq::empty(), x);
}

} // verus!
