//! Rendering node lifecycles as Mermaid state diagrams.

use vstd::prelude::*;
use vstd::string::*;

use crate::ast::{
    deps_of, signal_name, Dep, DepV, Gated, GatedV, Item, ItemV, NodeItem, NodeItemV, PoolItem,
    PoolItemV, ProvideDecl, ProvideDeclV, ResourceDecl, ResourceDeclV, SignalDecl, SignalDeclV,
};
use crate::find::{Decl, DeclV};
use crate::label::{add_if, add_some, esc, escaped, prefix_some, prefixed, with_if, with_some};
use crate::list::{put, Dup};
use crate::options::{
    diagram_title, frontmatter, frontmatter_of, spacing_init, spacing_text, title_of, Options,
    OptionsV,
};
use crate::order::{
    comes_before, in_order, ordered, precedes, text_order_is_total, text_order_is_transitive,
};
use crate::rust::{IntLit, IntLitV};
use crate::text::{
    after_last, cat2, cat3, cat4, cat6, cat7, decimal, decimal_usize, free_of, join, joined, same,
    tail_after, text,
};

verus! {

/// What sets the lifecycle of a node: nodes of one shape share a composite state.
#[derive(Debug)]
pub struct Shape {
    /// The lifecycle mode.
    pub mode: String,
    /// It is a member of a pool.
    pub pool: bool,
    /// It has no task of its own.
    pub parked: bool,
    /// It starts disabled.
    pub disabled: bool,
    /// Its future is dropped in place.
    pub cancel: bool,
    /// A dependent waits for its readiness.
    pub asserts_ready: bool,
    /// A declared write makes it ready.
    pub ready_on_write: bool,
    /// A dep binds it.
    pub bound: bool,
    /// Its heartbeat timeout.
    pub beat: Option<String>,
}

/// What a [`Shape`] means.
pub struct ShapeV {
    pub mode: Seq<char>,
    pub pool: bool,
    pub parked: bool,
    pub disabled: bool,
    pub cancel: bool,
    pub asserts_ready: bool,
    pub ready_on_write: bool,
    pub bound: bool,
    pub beat: Option<Seq<char>>,
}

impl DeepView for Shape {
    type V = ShapeV;

    open spec fn deep_view(&self) -> ShapeV {
        ShapeV {
            mode: self.mode.deep_view(),
            pool: self.pool.deep_view(),
            parked: self.parked.deep_view(),
            disabled: self.disabled.deep_view(),
            cancel: self.cancel.deep_view(),
            asserts_ready: self.asserts_ready.deep_view(),
            ready_on_write: self.ready_on_write.deep_view(),
            bound: self.bound.deep_view(),
            beat: self.beat.deep_view(),
        }
    }
}

impl Dup for Shape {
    fn dup(&self) -> (r: Self) {
        Shape {
            mode: self.mode.dup(),
            pool: self.pool.dup(),
            parked: self.parked.dup(),
            disabled: self.disabled.dup(),
            cancel: self.cancel.dup(),
            asserts_ready: self.asserts_ready.dup(),
            ready_on_write: self.ready_on_write.dup(),
            bound: self.bound.dup(),
            beat: self.beat.dup(),
        }
    }
}

/// What a node waits for, takes, and exchanges.
#[derive(Debug)]
pub struct Gates {
    /// The resources it takes.
    pub takes: Vec<String>,
    /// The deps whose readiness it waits for.
    pub waits: Vec<String>,
    /// The slots it clears when it stops.
    pub clears: Vec<String>,
    /// How long a slot may take.
    pub within: Option<String>,
    /// The signals it reads.
    pub reads: Vec<String>,
    /// The signals it writes.
    pub writes: Vec<String>,
}

/// What a [`Gates`] means.
pub struct GatesV {
    pub takes: Seq<Seq<char>>,
    pub waits: Seq<Seq<char>>,
    pub clears: Seq<Seq<char>>,
    pub within: Option<Seq<char>>,
    pub reads: Seq<Seq<char>>,
    pub writes: Seq<Seq<char>>,
}

impl DeepView for Gates {
    type V = GatesV;

    open spec fn deep_view(&self) -> GatesV {
        GatesV {
            takes: self.takes.deep_view(),
            waits: self.waits.deep_view(),
            clears: self.clears.deep_view(),
            within: self.within.deep_view(),
            reads: self.reads.deep_view(),
            writes: self.writes.deep_view(),
        }
    }
}

impl Dup for Gates {
    fn dup(&self) -> (r: Self) {
        Gates {
            takes: self.takes.dup(),
            waits: self.waits.dup(),
            clears: self.clears.dup(),
            within: self.within.dup(),
            reads: self.reads.dup(),
            writes: self.writes.dup(),
        }
    }
}

/// Nodes that share a composite state.
#[derive(Debug)]
pub struct Group {
    /// Their shape.
    pub shape: Shape,
    /// Their names.
    pub members: Vec<String>,
    /// Their gates.
    pub gates: Gates,
}

/// What a [`Group`] means.
pub struct GroupV {
    pub shape: ShapeV,
    pub members: Seq<Seq<char>>,
    pub gates: GatesV,
}

impl DeepView for Group {
    type V = GroupV;

    open spec fn deep_view(&self) -> GroupV {
        GroupV {
            shape: self.shape.deep_view(),
            members: self.members.deep_view(),
            gates: self.gates.deep_view(),
        }
    }
}

impl Dup for Group {
    fn dup(&self) -> (r: Self) {
        Group {
            shape: self.shape.dup(),
            members: self.members.dup(),
            gates: self.gates.dup(),
        }
    }
}

/// A resource with its kind.
pub open spec fn take_text(r: ResourceDeclV) -> Seq<char> {
    r.ident + (if r.shared {
        " (shared)"@
    } else if r.local {
        " (local)"@
    } else if r.consume {
        " (consume)"@
    } else {
        ""@
    })
}

fn make_take(r: &ResourceDecl) -> (t: String)
    ensures
        t@ == take_text(r.deep_view()),
{
    cat2(
        r.ident.as_str(),
        if r.shared {
            " (shared)"
        } else if r.local {
            " (local)"
        } else if r.consume {
            " (consume)"
        } else {
            ""
        },
    )
}

/// The resources an item takes.
pub open spec fn takes_of(list: Seq<ResourceDeclV>) -> Seq<Seq<char>> {
    Seq::new(list.len(), |i: int| take_text(list[i]))
}

fn read_takes_of(list: &Vec<ResourceDecl>) -> (r: Vec<String>)
    ensures
        r.deep_view() == takes_of(list.deep_view()),
{
    let ghost all = takes_of(list.deep_view());
    let mut out: Vec<String> = Vec::new();
    let mut i: usize = 0;
    while i < list.len()
        invariant
            i <= list@.len(),
            all == takes_of(list.deep_view()),
            out.deep_view() == all.take(i as int),
        decreases list@.len() - i,
    {
        put(&mut out, make_take(&list[i]));
        i = i + 1;
        assert(out.deep_view() == all.take(i as int));
    }
    assert(all.take(all.len() as int) == all);
    out
}

/// The last segment of a signal.
pub open spec fn short_signal(s: SignalDeclV) -> Seq<char> {
    after_last(signal_name(s), "::"@)
}

fn shorten(s: &SignalDecl) -> (r: String)
    ensures
        r@ == short_signal(s.deep_view()),
{
    proof {
        reveal_strlit("::");
    }
    let full = s.display();
    tail_after(full.as_str(), "::")
}

/// The last segments of signals.
pub open spec fn short_signals(list: Seq<SignalDeclV>) -> Seq<Seq<char>> {
    Seq::new(list.len(), |i: int| short_signal(list[i]))
}

fn read_short_signals(list: &Vec<SignalDecl>) -> (r: Vec<String>)
    ensures
        r.deep_view() == short_signals(list.deep_view()),
{
    let ghost all = short_signals(list.deep_view());
    let mut out: Vec<String> = Vec::new();
    let mut i: usize = 0;
    while i < list.len()
        invariant
            i <= list@.len(),
            all == short_signals(list.deep_view()),
            out.deep_view() == all.take(i as int),
        decreases list@.len() - i,
    {
        put(&mut out, shorten(&list[i]));
        i = i + 1;
        assert(out.deep_view() == all.take(i as int));
    }
    assert(all.take(all.len() as int) == all);
    out
}

/// The slots an item fills.
pub open spec fn slots_of(list: Seq<ProvideDeclV>) -> Seq<Seq<char>> {
    Seq::new(list.len(), |i: int| list[i].ident)
}

fn read_slots_of(list: &Vec<ProvideDecl>) -> (r: Vec<String>)
    ensures
        r.deep_view() == slots_of(list.deep_view()),
{
    let ghost all = slots_of(list.deep_view());
    let mut out: Vec<String> = Vec::new();
    let mut i: usize = 0;
    while i < list.len()
        invariant
            i <= list@.len(),
            all == slots_of(list.deep_view()),
            out.deep_view() == all.take(i as int),
        decreases list@.len() - i,
    {
        put(&mut out, list[i].ident.dup());
        i = i + 1;
        assert(out.deep_view() == all.take(i as int));
    }
    assert(all.take(all.len() as int) == all);
    out
}

/// The deps from number `i` on whose readiness counts, behind `acc`.
pub open spec fn waits_from(deps: Seq<DepV>, i: int, acc: Seq<Seq<char>>) -> Seq<Seq<char>>
    decreases deps.len() - i,
{
    if i < 0 || i >= deps.len() {
        acc
    } else {
        waits_from(deps, i + 1, with_if(acc, deps[i].ready || deps[i].bound, deps[i].ident))
    }
}

fn read_waits(deps: &Vec<Dep>) -> (r: Vec<String>)
    ensures
        r.deep_view() == waits_from(deps.deep_view(), 0, Seq::empty()),
{
    let mut out: Vec<String> = Vec::new();
    assert(out.deep_view() == Seq::<Seq<char>>::empty());
    let mut i: usize = 0;
    while i < deps.len()
        invariant
            i <= deps@.len(),
            waits_from(deps.deep_view(), 0, Seq::empty()) == waits_from(
                deps.deep_view(),
                i as int,
                out.deep_view(),
            ),
        decreases deps@.len() - i,
    {
        let counts = deps[i].ready || deps[i].bound;
        add_if(&mut out, counts, deps[i].ident.as_str());
        i = i + 1;
    }
    out
}

/// The text of a timeout.
pub open spec fn millis(t: Option<GatedV<IntLitV>>) -> Option<Seq<char>> {
    match t {
        Some(g) => Some(g.value.text),
        None => None,
    }
}

fn read_millis(t: &Option<Gated<IntLit>>) -> (r: Option<String>)
    ensures
        r.deep_view() == millis(t.deep_view()),
{
    match t {
        Some(g) => Some(g.value.text.dup()),
        None => None,
    }
}

/// No gates.
pub open spec fn no_gates() -> GatesV {
    GatesV {
        takes: Seq::empty(),
        waits: Seq::empty(),
        clears: Seq::empty(),
        within: None,
        reads: Seq::empty(),
        writes: Seq::empty(),
    }
}

fn make_no_gates() -> (r: Gates)
    ensures
        r.deep_view() == no_gates(),
{
    let r = Gates {
        takes: Vec::new(),
        waits: Vec::new(),
        clears: Vec::new(),
        within: None,
        reads: Vec::new(),
        writes: Vec::new(),
    };
    assert(r.takes.deep_view() == Seq::<Seq<char>>::empty());
    assert(r.waits.deep_view() == Seq::<Seq<char>>::empty());
    assert(r.clears.deep_view() == Seq::<Seq<char>>::empty());
    assert(r.reads.deep_view() == Seq::<Seq<char>>::empty());
    assert(r.writes.deep_view() == Seq::<Seq<char>>::empty());
    r
}

/// The gates of a node.
pub open spec fn node_gates(n: NodeItemV) -> GatesV {
    GatesV {
        takes: takes_of(n.resources),
        waits: waits_from(n.deps, 0, Seq::empty()),
        clears: slots_of(n.provides),
        within: millis(n.slot_timeout),
        reads: short_signals(n.reads),
        writes: short_signals(n.writes),
    }
}

fn read_node_gates(n: &NodeItem) -> (r: Gates)
    ensures
        r.deep_view() == node_gates(n.deep_view()),
{
    Gates {
        takes: read_takes_of(&n.resources),
        waits: read_waits(&n.deps),
        clears: read_slots_of(&n.provides),
        within: read_millis(&n.slot_timeout),
        reads: read_short_signals(&n.reads),
        writes: read_short_signals(&n.writes),
    }
}

/// The gates of the members of a pool.
pub open spec fn pool_gates(p: PoolItemV) -> GatesV {
    GatesV {
        takes: takes_of(p.resources),
        waits: waits_from(p.deps, 0, Seq::empty()),
        clears: Seq::empty(),
        within: millis(p.slot_timeout),
        reads: short_signals(p.reads),
        writes: short_signals(p.writes),
    }
}

fn read_pool_gates(p: &PoolItem) -> (r: Gates)
    ensures
        r.deep_view() == pool_gates(p.deep_view()),
{
    let clears: Vec<String> = Vec::new();
    assert(clears.deep_view() == Seq::<Seq<char>>::empty());
    Gates {
        takes: read_takes_of(&p.resources),
        waits: read_waits(&p.deps),
        clears,
        within: read_millis(&p.slot_timeout),
        reads: read_short_signals(&p.reads),
        writes: read_short_signals(&p.writes),
    }
}

/// A dep waits for the readiness of `name`.
pub open spec fn waits_for(d: DepV, name: Seq<char>) -> bool {
    d.ident == name && (d.ready || d.bound)
}

/// Some dep of the list waits for the readiness of `name`.
pub open spec fn any_waits(deps: Seq<DepV>, name: Seq<char>) -> bool {
    exists|i: int| 0 <= i < deps.len() && waits_for(#[trigger] deps[i], name)
}

fn has_wait(deps: &Vec<Dep>, name: &str) -> (r: bool)
    ensures
        r == any_waits(deps.deep_view(), name@),
{
    let ghost ds = deps.deep_view();
    let mut i: usize = 0;
    while i < deps.len()
        invariant
            i <= deps@.len(),
            ds == deps.deep_view(),
            forall|j: int| 0 <= j < i ==> !waits_for(#[trigger] ds[j], name@),
        decreases deps@.len() - i,
    {
        assert(ds[i as int] == deps@[i as int].deep_view());
        if same(deps[i].ident.as_str(), name) && (deps[i].ready || deps[i].bound) {
            assert(waits_for(ds[i as int], name@));
            return true;
        }
        i = i + 1;
    }
    false
}

/// Some item waits for the readiness of `name`.
pub open spec fn gates_dependents(items: Seq<ItemV>, name: Seq<char>) -> bool {
    exists|i: int| 0 <= i < items.len() && any_waits(deps_of(#[trigger] items[i]), name)
}

fn gated_by_readiness(name: &str, items: &Vec<Item>) -> (r: bool)
    ensures
        r == gates_dependents(items.deep_view(), name@),
{
    let ghost all = items.deep_view();
    let mut i: usize = 0;
    while i < items.len()
        invariant
            i <= items@.len(),
            all == items.deep_view(),
            forall|j: int| 0 <= j < i ==> !any_waits(deps_of(#[trigger] all[j]), name@),
        decreases items@.len() - i,
    {
        let hit = match &items[i] {
            Item::Node(n) => has_wait(&n.deps, name),
            Item::Pool(p) => has_wait(&p.deps, name),
            Item::Executor(_) => false,
        };
        assert(hit == any_waits(deps_of(all[i as int]), name@));
        if hit {
            return true;
        }
        i = i + 1;
    }
    false
}

/// Some dep of the list is bound.
pub open spec fn any_bound(deps: Seq<DepV>) -> bool {
    exists|i: int| 0 <= i < deps.len() && (#[trigger] deps[i]).bound
}

fn has_bound(deps: &Vec<Dep>) -> (r: bool)
    ensures
        r == any_bound(deps.deep_view()),
{
    let ghost ds = deps.deep_view();
    let mut i: usize = 0;
    while i < deps.len()
        invariant
            i <= deps@.len(),
            ds == deps.deep_view(),
            forall|j: int| 0 <= j < i ==> !(#[trigger] ds[j]).bound,
        decreases deps@.len() - i,
    {
        assert(ds[i as int].bound == deps@[i as int].bound);
        if deps[i].bound {
            return true;
        }
        i = i + 1;
    }
    false
}

/// The shape of a node.
pub open spec fn node_shape(n: NodeItemV, items: Seq<ItemV>) -> ShapeV {
    ShapeV {
        mode: n.mode,
        pool: false,
        parked: n.source is None,
        disabled: n.disabled is Some,
        cancel: n.cancel,
        asserts_ready: gates_dependents(items, n.ident),
        ready_on_write: n.ready_on_write is Some,
        bound: any_bound(n.deps),
        beat: millis(n.beat_timeout),
    }
}

fn read_node_shape(n: &NodeItem, items: &Vec<Item>) -> (r: Shape)
    ensures
        r.deep_view() == node_shape(n.deep_view(), items.deep_view()),
{
    Shape {
        mode: n.mode.dup(),
        pool: false,
        parked: n.source.is_none(),
        disabled: n.disabled.is_some(),
        cancel: n.cancel,
        asserts_ready: gated_by_readiness(n.ident.as_str(), items),
        ready_on_write: n.ready_on_write.is_some(),
        bound: has_bound(&n.deps),
        beat: read_millis(&n.beat_timeout),
    }
}

/// The shape of the members of a pool that have a mode.
pub open spec fn pool_shape(p: PoolItemV, items: Seq<ItemV>, mode: Seq<char>) -> ShapeV {
    ShapeV {
        mode,
        pool: true,
        parked: false,
        disabled: false,
        cancel: p.cancel,
        asserts_ready: gates_dependents(items, p.ident),
        ready_on_write: false,
        bound: any_bound(p.deps),
        beat: None,
    }
}

fn read_pool_shape(p: &PoolItem, items: &Vec<Item>, mode: &String) -> (r: Shape)
    ensures
        r.deep_view() == pool_shape(p.deep_view(), items.deep_view(), mode@),
{
    Shape {
        mode: mode.dup(),
        pool: true,
        parked: false,
        disabled: false,
        cancel: p.cancel,
        asserts_ready: gated_by_readiness(p.ident.as_str(), items),
        ready_on_write: false,
        bound: has_bound(&p.deps),
        beat: None,
    }
}

/// The places from number `i` on where a mode stands in a list, behind `acc`.
pub open spec fn places_from(
    modes: Seq<Seq<char>>,
    mode: Seq<char>,
    i: int,
    acc: Seq<usize>,
) -> Seq<usize>
    decreases modes.len() - i,
{
    if i < 0 || i >= modes.len() {
        acc
    } else {
        places_from(
            modes,
            mode,
            i + 1,
            if modes[i] == mode {
                acc.push(i as usize)
            } else {
                acc
            },
        )
    }
}

fn find_places(modes: &Vec<String>, mode: &str) -> (r: Vec<usize>)
    ensures
        r@ == places_from(modes.deep_view(), mode@, 0, Seq::empty()),
{
    let ghost ms = modes.deep_view();
    let mut out: Vec<usize> = Vec::new();
    let mut i: usize = 0;
    while i < modes.len()
        invariant
            i <= modes@.len(),
            ms == modes.deep_view(),
            places_from(ms, mode@, 0, Seq::empty()) == places_from(ms, mode@, i as int, out@),
        decreases modes@.len() - i,
    {
        if same(modes[i].as_str(), mode) {
            out.push(i);
        }
        i = i + 1;
    }
    out
}

/// The members at the given places, in words.
pub open spec fn range_text(places: Seq<usize>) -> Seq<char> {
    if places.len() == 0 {
        "no members"@
    } else if places.len() == 1 {
        "member "@ + decimal(places[0] as nat)
    } else {
        "members "@ + decimal(places[0] as nat) + ".."@ + decimal(places.last() as nat)
    }
}

fn member_range(places: &Vec<usize>) -> (r: String)
    ensures
        r@ == range_text(places@),
{
    if places.len() == 0 {
        return text("no members");
    }
    let first = decimal_usize(places[0]);
    if places.len() == 1 {
        return cat2("member ", first.as_str());
    }
    let last = decimal_usize(places[places.len() - 1]);
    cat4("members ", first.as_str(), "..", last.as_str())
}

/// The members of a pool that have a mode.
pub open spec fn pool_entry(p: PoolItemV, items: Seq<ItemV>, mode: Seq<char>) -> GroupV {
    GroupV {
        shape: pool_shape(p, items, mode),
        members: seq![p.ident + " "@ + range_text(places_from(p.modes, mode, 0, Seq::empty()))],
        gates: pool_gates(p),
    }
}

fn one(name: String) -> (r: Vec<String>)
    ensures
        r.deep_view() == seq![name@],
{
    let mut out: Vec<String> = Vec::new();
    out.push(name);
    assert(out.deep_view() == seq![name@]);
    out
}

fn make_pool_entry(p: &PoolItem, items: &Vec<Item>, mode: &String) -> (r: Group)
    ensures
        r.deep_view() == pool_entry(p.deep_view(), items.deep_view(), mode@),
{
    let places = find_places(&p.modes, mode.as_str());
    let range = member_range(&places);
    let name = cat3(p.ident.as_str(), " ", range.as_str());
    Group { shape: read_pool_shape(p, items, mode), members: one(name), gates: read_pool_gates(p) }
}

/// The entries of a pool for the modes from number `i` on, behind `acc`.
pub open spec fn pool_entries_from(
    p: PoolItemV,
    items: Seq<ItemV>,
    modes: Seq<Seq<char>>,
    i: int,
    acc: Seq<GroupV>,
) -> Seq<GroupV>
    decreases modes.len() - i,
{
    if i < 0 || i >= modes.len() {
        acc
    } else {
        pool_entries_from(p, items, modes, i + 1, acc.push(pool_entry(p, items, modes[i])))
    }
}

/// The entries of an item behind `acc`: one for a node, one for each mode of a pool.
pub open spec fn item_entries(item: ItemV, items: Seq<ItemV>, acc: Seq<GroupV>) -> Seq<GroupV> {
    match item {
        ItemV::Node(n) => acc.push(
            GroupV { shape: node_shape(n, items), members: seq![n.ident], gates: node_gates(n) },
        ),
        ItemV::Pool(p) => pool_entries_from(p, items, ordered(p.modes), 0, acc),
        ItemV::Executor(_) => acc,
    }
}

fn add_item_entries(item: &Item, items: &Vec<Item>, out: &mut Vec<Group>)
    ensures
        final(out).deep_view() == item_entries(
            item.deep_view(),
            items.deep_view(),
            old(out).deep_view(),
        ),
{
    match item {
        Item::Node(n) => put(
            out,
            Group {
                shape: read_node_shape(n, items),
                members: one(n.ident.dup()),
                gates: read_node_gates(n),
            },
        ),
        Item::Pool(p) => {
            let modes = in_order(&p.modes);
            let ghost start = out.deep_view();
            let ghost ms = modes.deep_view();
            let ghost all = items.deep_view();
            let ghost pv = p.deep_view();
            let mut i: usize = 0;
            while i < modes.len()
                invariant
                    i <= modes@.len(),
                    ms == modes.deep_view(),
                    all == items.deep_view(),
                    pv == p.deep_view(),
                    pool_entries_from(pv, all, ms, 0, start) == pool_entries_from(
                        pv,
                        all,
                        ms,
                        i as int,
                        out.deep_view(),
                    ),
                decreases modes@.len() - i,
            {
                put(out, make_pool_entry(p, items, &modes[i]));
                i = i + 1;
            }
        },
        Item::Executor(_) => {},
    }
}

/// The entries of the items from number `i` on, behind `acc`.
pub open spec fn entries_from(items: Seq<ItemV>, i: int, acc: Seq<GroupV>) -> Seq<GroupV>
    decreases items.len() - i,
{
    if i < 0 || i >= items.len() {
        acc
    } else {
        entries_from(items, i + 1, item_entries(items[i], items, acc))
    }
}

fn read_entries(items: &Vec<Item>) -> (r: Vec<Group>)
    ensures
        r.deep_view() == entries_from(items.deep_view(), 0, Seq::empty()),
{
    let ghost all = items.deep_view();
    let mut out: Vec<Group> = Vec::new();
    assert(out.deep_view() == Seq::<GroupV>::empty());
    let mut i: usize = 0;
    while i < items.len()
        invariant
            i <= items@.len(),
            all == items.deep_view(),
            entries_from(all, 0, Seq::empty()) == entries_from(all, i as int, out.deep_view()),
        decreases items@.len() - i,
    {
        add_item_entries(&items[i], items, &mut out);
        i = i + 1;
    }
    out
}

/// A heartbeat comes before another: none first, then by its text.
pub open spec fn beat_before(a: Option<Seq<char>>, b: Option<Seq<char>>) -> bool {
    match (a, b) {
        (None, Some(_)) => true,
        (Some(x), Some(y)) => precedes(x, y),
        _ => false,
    }
}

/// A shape comes before another: by its fields in order, `false` before `true`.
pub open spec fn shape_before(a: ShapeV, b: ShapeV) -> bool {
    if a.mode != b.mode {
        precedes(a.mode, b.mode)
    } else if a.pool != b.pool {
        b.pool
    } else if a.parked != b.parked {
        b.parked
    } else if a.disabled != b.disabled {
        b.disabled
    } else if a.cancel != b.cancel {
        b.cancel
    } else if a.asserts_ready != b.asserts_ready {
        b.asserts_ready
    } else if a.ready_on_write != b.ready_on_write {
        b.ready_on_write
    } else if a.bound != b.bound {
        b.bound
    } else {
        beat_before(a.beat, b.beat)
    }
}

fn is_shape_before(a: &Shape, b: &Shape) -> (r: bool)
    ensures
        r == shape_before(a.deep_view(), b.deep_view()),
{
    if !same(a.mode.as_str(), b.mode.as_str()) {
        comes_before(a.mode.as_str(), b.mode.as_str())
    } else if a.pool != b.pool {
        b.pool
    } else if a.parked != b.parked {
        b.parked
    } else if a.disabled != b.disabled {
        b.disabled
    } else if a.cancel != b.cancel {
        b.cancel
    } else if a.asserts_ready != b.asserts_ready {
        b.asserts_ready
    } else if a.ready_on_write != b.ready_on_write {
        b.ready_on_write
    } else if a.bound != b.bound {
        b.bound
    } else {
        match (&a.beat, &b.beat) {
            (None, Some(_)) => true,
            (Some(x), Some(y)) => comes_before(x.as_str(), y.as_str()),
            _ => false,
        }
    }
}

fn same_shape(a: &Shape, b: &Shape) -> (r: bool)
    ensures
        r == (a.deep_view() == b.deep_view()),
{
    let beat = match (&a.beat, &b.beat) {
        (None, None) => true,
        (Some(x), Some(y)) => same(x.as_str(), y.as_str()),
        _ => false,
    };
    beat && same(a.mode.as_str(), b.mode.as_str()) && a.pool == b.pool && a.parked == b.parked && a.disabled
        == b.disabled && a.cancel == b.cancel && a.asserts_ready == b.asserts_ready && a.ready_on_write
        == b.ready_on_write && a.bound == b.bound
}

/// The first group from number `i` on whose shape does not come before `s`.
pub open spec fn group_slot(groups: Seq<GroupV>, s: ShapeV, i: int) -> int
    decreases groups.len() - i,
{
    if i < 0 || i >= groups.len() || !shape_before(groups[i].shape, s) {
        i
    } else {
        group_slot(groups, s, i + 1)
    }
}

/// The ordered groups with an entry in its place: in the group of its shape where there is one.
pub open spec fn merged(groups: Seq<GroupV>, entry: GroupV) -> Seq<GroupV> {
    let at = group_slot(groups, entry.shape, 0);
    if at < groups.len() && groups[at].shape == entry.shape {
        groups.update(
            at,
            GroupV {
                shape: groups[at].shape,
                members: groups[at].members + entry.members,
                gates: groups[at].gates,
            },
        )
    } else {
        groups.insert(
            at,
            GroupV { shape: entry.shape, members: entry.members, gates: no_gates() },
        )
    }
}

fn append(a: &Vec<String>, b: &Vec<String>) -> (r: Vec<String>)
    ensures
        r.deep_view() == a.deep_view() + b.deep_view(),
{
    let mut out = a.dup();
    let ghost av = a.deep_view();
    let ghost bv = b.deep_view();
    assert(av + bv.take(0) == av);
    let mut i: usize = 0;
    while i < b.len()
        invariant
            i <= b@.len(),
            bv == b.deep_view(),
            out.deep_view() == av + bv.take(i as int),
        decreases b@.len() - i,
    {
        put(&mut out, b[i].dup());
        i = i + 1;
        assert(out.deep_view() == av + bv.take(i as int));
    }
    assert(bv.take(bv.len() as int) == bv);
    out
}

fn merge(groups: &mut Vec<Group>, entry: &Group)
    ensures
        final(groups).deep_view() == merged(old(groups).deep_view(), entry.deep_view()),
{
    let ghost g = groups.deep_view();
    let ghost s = entry.shape.deep_view();
    let mut i: usize = 0;
    while i < groups.len() && is_shape_before(&groups[i].shape, &entry.shape)
        invariant
            i <= groups@.len(),
            groups@ == old(groups)@,
            g == groups.deep_view(),
            s == entry.shape.deep_view(),
            group_slot(g, s, 0) == group_slot(g, s, i as int),
        decreases groups@.len() - i,
    {
        i = i + 1;
    }
    if i < groups.len() && same_shape(&groups[i].shape, &entry.shape) {
        let all = append(&groups[i].members, &entry.members);
        let next = Group { shape: groups[i].shape.dup(), members: all, gates: groups[i].gates.dup() };
        groups.set(i, next);
        assert(groups.deep_view() == g.update(i as int, next.deep_view()));
        return;
    }
    let next = Group {
        shape: entry.shape.dup(),
        members: entry.members.dup(),
        gates: make_no_gates(),
    };
    groups.insert(i, next);
    assert(groups.deep_view() == g.insert(i as int, next.deep_view()));
}

/// The entries from number `i` on, merged into the ordered groups.
pub open spec fn merged_from(entries: Seq<GroupV>, i: int, acc: Seq<GroupV>) -> Seq<GroupV>
    decreases entries.len() - i,
{
    if i < 0 || i >= entries.len() {
        acc
    } else {
        merged_from(entries, i + 1, merged(acc, entries[i]))
    }
}

/// The groups of a diagram: with signals one for each node, else one for each shape.
pub open spec fn groups_of(items: Seq<ItemV>, signals: bool) -> Seq<GroupV> {
    let entries = entries_from(items, 0, Seq::empty());
    if signals {
        entries
    } else {
        merged_from(entries, 0, Seq::empty())
    }
}

fn read_groups(items: &Vec<Item>, signals: bool) -> (r: Vec<Group>)
    ensures
        r.deep_view() == groups_of(items.deep_view(), signals),
{
    let entries = read_entries(items);
    if signals {
        return entries;
    }
    let ghost es = entries.deep_view();
    let mut out: Vec<Group> = Vec::new();
    assert(out.deep_view() == Seq::<GroupV>::empty());
    let mut i: usize = 0;
    while i < entries.len()
        invariant
            i <= entries@.len(),
            es == entries.deep_view(),
            merged_from(es, 0, Seq::empty()) == merged_from(es, i as int, out.deep_view()),
        decreases entries@.len() - i,
    {
        merge(&mut out, &entries[i]);
        i = i + 1;
    }
    out
}

/// How many members a label names.
pub const SHOWN: usize = 4;

/// The names of the members: the first few, and how many more there are.
pub open spec fn names_text(members: Seq<Seq<char>>) -> Seq<char> {
    if members.len() > SHOWN {
        joined(members.take(SHOWN as int), ", "@) + ", +"@ + decimal((members.len() - SHOWN) as nat)
            + " more"@
    } else {
        joined(members, ", "@)
    }
}

fn make_names(members: &Vec<String>) -> (r: String)
    ensures
        r@ == names_text(members.deep_view()),
{
    let ghost all = members.deep_view().take(SHOWN as int);
    if members.len() > SHOWN {
        let mut few: Vec<String> = Vec::new();
        let mut i: usize = 0;
        while i < SHOWN
            invariant
                i <= SHOWN < members@.len(),
                all == members.deep_view().take(SHOWN as int),
                few.deep_view() == all.take(i as int),
            decreases SHOWN - i,
        {
            put(&mut few, members[i].dup());
            i = i + 1;
            assert(few.deep_view() == all.take(i as int));
        }
        assert(all.take(SHOWN as int) == all);
        let shown = join(&few, ", ");
        let more = decimal_usize(members.len() - SHOWN);
        cat4(shown.as_str(), ", +", more.as_str(), " more")
    } else {
        join(members, ", ")
    }
}

/// What the label of a shape says.
pub open spec fn shape_facts(s: ShapeV) -> Seq<Seq<char>> {
    let a = with_if(Seq::<Seq<char>>::empty().push(s.mode), s.pool, "pool member"@);
    let b = with_if(a, s.parked, "parked"@);
    let c = with_if(b, s.disabled, "disabled"@);
    let d = with_if(c, s.cancel, "cancel"@);
    let e = with_if(d, s.ready_on_write, "ready_on_write"@);
    let f = with_if(e, !s.ready_on_write && s.asserts_ready, "gates dependents"@);
    with_some(with_if(f, s.bound, "bound"@), prefixed("beat "@, s.beat))
}

/// The label of a shape and its members.
pub open spec fn label_text(s: ShapeV, members: Seq<Seq<char>>) -> Seq<char> {
    joined(shape_facts(s), " · "@) + " — "@ + names_text(members)
}

fn label(s: &Shape, members: &Vec<String>) -> (r: String)
    ensures
        r@ == label_text(s.deep_view(), members.deep_view()),
{
    let mut facts: Vec<String> = Vec::new();
    assert(facts.deep_view() == Seq::<Seq<char>>::empty());
    put(&mut facts, s.mode.dup());
    add_if(&mut facts, s.pool, "pool member");
    add_if(&mut facts, s.parked, "parked");
    add_if(&mut facts, s.disabled, "disabled");
    add_if(&mut facts, s.cancel, "cancel");
    add_if(&mut facts, s.ready_on_write, "ready_on_write");
    add_if(&mut facts, !s.ready_on_write && s.asserts_ready, "gates dependents");
    add_if(&mut facts, s.bound, "bound");
    add_some(&mut facts, prefix_some("beat ", &s.beat));
    let list = join(&facts, " · ");
    let names = make_names(members);
    cat3(list.as_str(), " — ", names.as_str())
}

/// What a start waits for.
pub open spec fn up_text(g: GatesV) -> Seq<char> {
    let a = with_if(Seq::empty(), g.takes.len() > 0, "takes "@ + joined(g.takes, ", "@));
    let b = with_if(a, g.waits.len() > 0, "waits "@ + joined(g.waits, ", "@) + " ready"@);
    let c = match g.within {
        Some(ms) => with_if(b, b.len() > 0, "within "@ + ms + " ms"@),
        None => b,
    };
    if c.len() == 0 {
        ""@
    } else {
        " · "@ + joined(c, " · "@)
    }
}

fn make_up(g: &Gates) -> (r: String)
    ensures
        r@ == up_text(g.deep_view()),
{
    let mut parts: Vec<String> = Vec::new();
    assert(parts.deep_view() == Seq::<Seq<char>>::empty());
    let takes = join(&g.takes, ", ");
    let take = cat2("takes ", takes.as_str());
    add_if(&mut parts, g.takes.len() > 0, take.as_str());
    let waits = join(&g.waits, ", ");
    let wait = cat3("waits ", waits.as_str(), " ready");
    add_if(&mut parts, g.waits.len() > 0, wait.as_str());
    if let Some(ms) = &g.within {
        let within = cat3("within ", ms.as_str(), " ms");
        let some = parts.len() > 0;
        add_if(&mut parts, some, within.as_str());
    }
    if parts.len() == 0 {
        return text("");
    }
    let all = join(&parts, " · ");
    cat2(" · ", all.as_str())
}

/// What a stop clears.
pub open spec fn down_text(g: GatesV) -> Seq<char> {
    if g.clears.len() == 0 {
        ""@
    } else {
        " · clears "@ + joined(g.clears, ", "@)
    }
}

fn make_down(g: &Gates) -> (r: String)
    ensures
        r@ == down_text(g.deep_view()),
{
    if g.clears.len() == 0 {
        return text("");
    }
    let all = join(&g.clears, ", ");
    cat2(" · clears ", all.as_str())
}

/// A list behind a word, or nothing where it is empty.
pub open spec fn listed(word: Seq<char>, list: Seq<Seq<char>>) -> Seq<char> {
    if list.len() == 0 {
        ""@
    } else {
        word + joined(list, ", "@)
    }
}

fn make_listed(word: &str, list: &Vec<String>) -> (r: String)
    ensures
        r@ == listed(word@, list.deep_view()),
{
    if list.len() == 0 {
        return text("");
    }
    let all = join(list, ", ");
    cat2(word, all.as_str())
}

/// The title of a composite state; gates are those to be shown.
pub open spec fn composite_title(
    s: ShapeV,
    members: Seq<Seq<char>>,
    gates: Option<GatesV>,
) -> Seq<char> {
    match gates {
        Some(g) => label_text(s, members) + listed(" · reads "@, g.reads) + listed(" · writes "@, g.writes),
        None => label_text(s, members),
    }
}

/// A transition of a state diagram.
pub open spec fn arrow(from: Seq<char>, to: Seq<char>, label: Seq<char>) -> Seq<char> {
    "    "@ + from + " --> "@ + to + ": "@ + label + "\n"@
}

fn make_arrow(from: &str, to: &str, label: &str) -> (r: String)
    ensures
        r@ == arrow(from@, to@, label@),
{
    cat7("    ", from, " --> ", to, ": ", label, "\n")
}

/// Where a disabled node begins.
pub open spec fn off_part(s: ShapeV, g: Seq<char>) -> Seq<char> {
    if s.disabled {
        "    state \"disabled\" as "@ + g + "_off\n    [*] --> "@ + g + "_off\n"@ + arrow(
            g + "_off"@,
            g + "_down"@,
            "activate · the one path that clears the latch"@,
        )
    } else {
        ""@
    }
}

fn make_off(s: &Shape, g: &str) -> (r: String)
    ensures
        r@ == off_part(s.deep_view(), g@),
{
    if !s.disabled {
        return text("");
    }
    let off = cat2(g, "_off");
    let down = cat2(g, "_down");
    let move_on = make_arrow(
        off.as_str(),
        down.as_str(),
        "activate · the one path that clears the latch",
    );
    cat6("    state \"disabled\" as ", g, "_off\n    [*] --> ", g, "_off\n", move_on.as_str())
}

/// The running state: with a readiness of its own where a dependent waits for it.
pub open spec fn running_part(s: ShapeV, g: Seq<char>, dir: Seq<char>) -> Seq<char> {
    if s.asserts_ready {
        "    state \"running\" as "@ + g + "_run {\n      direction "@ + dir
            + "\n      state \"starting\" as "@ + g + "_starting\n      state \"ready\" as "@ + g
            + "_ready\n      [*] --> "@ + g + "_starting\n      "@ + g + "_starting --> "@ + g + "_ready: "@
            + (if s.ready_on_write {
            "the sweep sees a declared write advance"@
        } else {
            "the task calls set_ready()"@
        }) + "\n      "@ + g + "_ready --> "@ + g
            + "_starting: clear_ready() · dependents wait again\n    }\n"@
    } else {
        "    state \"running\" as "@ + g + "_run\n"@
    }
}

fn make_running(s: &Shape, g: &str, dir: &str) -> (r: String)
    ensures
        r@ == running_part(s.deep_view(), g@, dir@),
{
    if !s.asserts_ready {
        return cat3("    state \"running\" as ", g, "_run\n");
    }
    let mut out = text("    state \"running\" as ");
    out.append(g);
    out.append("_run {\n      direction ");
    out.append(dir);
    out.append("\n      state \"starting\" as ");
    out.append(g);
    out.append("_starting\n      state \"ready\" as ");
    out.append(g);
    out.append("_ready\n      [*] --> ");
    out.append(g);
    out.append("_starting\n      ");
    out.append(g);
    out.append("_starting --> ");
    out.append(g);
    out.append("_ready: ");
    out.append(
        if s.ready_on_write {
            "the sweep sees a declared write advance"
        } else {
            "the task calls set_ready()"
        },
    );
    out.append("\n      ");
    out.append(g);
    out.append("_ready --> ");
    out.append(g);
    out.append("_starting: clear_ready() · dependents wait again\n    }\n");
    out
}

/// How a node starts.
pub open spec fn start_text(s: ShapeV) -> Seq<char> {
    if s.parked {
        "start · only marked running, the application spawns the task"@
    } else if s.pool {
        "the pool policy brings the member up"@
    } else {
        "start · spawned in dep order"@
    }
}

fn start_label(s: &Shape) -> (r: &'static str)
    ensures
        r@ == start_text(s.deep_view()),
{
    if s.parked {
        "start · only marked running, the application spawns the task"
    } else if s.pool {
        "the pool policy brings the member up"
    } else {
        "start · spawned in dep order"
    }
}

/// The mode of a shape without its path.
pub open spec fn mode_of(s: ShapeV) -> Seq<char> {
    after_last(s.mode, "::"@)
}

pub const PAUSED: &'static str = "teardown or stop_node · acks, then parks on wait_resume()";

pub const RESUMED: &'static str = "resume_node or resume_pausable · resumed in place, keeps its resources";

pub const GROWS: &'static str = "start_node · the pool grows under load, start() skips it";

/// The transitions that supervisor operations make, by the lifecycle mode.
pub open spec fn moves_part(s: ShapeV, g: Seq<char>, up: Seq<char>, down: Seq<char>) -> Seq<char> {
    let run = g + "_run"@;
    let low = g + "_down"@;
    if mode_of(s) == "Pause"@ {
        "    state \"parked\" as "@ + g + "_parked\n"@ + arrow(low, run, start_text(s) + up) + arrow(
            run,
            g + "_parked"@,
            PAUSED@ + down,
        ) + arrow(g + "_parked"@, run, RESUMED@)
    } else if mode_of(s) == "OnDemand"@ {
        arrow(low, run, GROWS@ + up) + arrow(
            run,
            low,
            "stop_node · the pool shrinks"@ + (if s.cancel {
                ", its future dropped in place"@
            } else {
                ", acks and exits"@
            }) + down,
        )
    } else {
        arrow(low, run, start_text(s) + up) + arrow(
            run,
            low,
            "teardown or stop_node · "@ + (if s.cancel {
                "future dropped in place, the shell still runs its tail"@
            } else {
                "acks, exits its loop"@
            }) + down,
        ) + (if s.pool {
            ""@
        } else {
            arrow(low, run, "respawn_terminate"@)
        })
    }
}

fn make_moves(s: &Shape, g: &str, up: &str, down: &str) -> (r: String)
    ensures
        r@ == moves_part(s.deep_view(), g@, up@, down@),
{
    proof {
        reveal_strlit("::");
    }
    let run = cat2(g, "_run");
    let low = cat2(g, "_down");
    let mode = tail_after(s.mode.as_str(), "::");
    if same(mode.as_str(), "Pause") {
        let parked = cat2(g, "_parked");
        let first = cat2(start_label(s), up);
        let second = cat2(PAUSED, down);
        let a = make_arrow(low.as_str(), run.as_str(), first.as_str());
        let b = make_arrow(run.as_str(), parked.as_str(), second.as_str());
        let c = make_arrow(parked.as_str(), run.as_str(), RESUMED);
        cat6("    state \"parked\" as ", g, "_parked\n", a.as_str(), b.as_str(), c.as_str())
    } else if same(mode.as_str(), "OnDemand") {
        let first = cat2(GROWS, up);
        let second = cat3(
            "stop_node · the pool shrinks",
            if s.cancel {
                ", its future dropped in place"
            } else {
                ", acks and exits"
            },
            down,
        );
        let a = make_arrow(low.as_str(), run.as_str(), first.as_str());
        let b = make_arrow(run.as_str(), low.as_str(), second.as_str());
        cat2(a.as_str(), b.as_str())
    } else {
        let first = cat2(start_label(s), up);
        let second = cat3(
            "teardown or stop_node · ",
            if s.cancel {
                "future dropped in place, the shell still runs its tail"
            } else {
                "acks, exits its loop"
            },
            down,
        );
        let a = make_arrow(low.as_str(), run.as_str(), first.as_str());
        let b = make_arrow(run.as_str(), low.as_str(), second.as_str());
        let c = if s.pool {
            text("")
        } else {
            make_arrow(low.as_str(), run.as_str(), "respawn_terminate")
        };
        cat3(a.as_str(), b.as_str(), c.as_str())
    }
}

/// The transitions that a bound dep makes.
pub open spec fn bound_part(s: ShapeV, g: Seq<char>) -> Seq<char> {
    let paused = mode_of(s) == "Pause"@;
    let stopped = if paused {
        g + "_parked"@
    } else {
        g + "_down"@
    };
    if s.bound {
        arrow(g + "_run"@, stopped, "a bound dep called clear_ready()"@) + arrow(
            stopped,
            g + "_run"@,
            if paused {
                "that dep is ready again · resumed in place"@
            } else {
                "that dep is ready again · brought back through the gates"@
            },
        )
    } else {
        ""@
    }
}

fn make_bound(s: &Shape, g: &str) -> (r: String)
    ensures
        r@ == bound_part(s.deep_view(), g@),
{
    if !s.bound {
        return text("");
    }
    proof {
        reveal_strlit("::");
    }
    let mode = tail_after(s.mode.as_str(), "::");
    let paused = same(mode.as_str(), "Pause");
    let run = cat2(g, "_run");
    let stopped = cat2(
        g,
        if paused {
            "_parked"
        } else {
            "_down"
        },
    );
    let a = make_arrow(run.as_str(), stopped.as_str(), "a bound dep called clear_ready()");
    let b = make_arrow(
        stopped.as_str(),
        run.as_str(),
        if paused {
            "that dep is ready again · resumed in place"
        } else {
            "that dep is ready again · brought back through the gates"
        },
    );
    cat2(a.as_str(), b.as_str())
}

/// The report of a missed heartbeat.
pub open spec fn beat_part(s: ShapeV, g: Seq<char>) -> Seq<char> {
    match s.beat {
        Some(ms) => arrow(
            g + "_run"@,
            g + "_run"@,
            "no beat for "@ + ms + " ms · reported stale, still running"@,
        ),
        None => ""@,
    }
}

fn make_beat(s: &Shape, g: &str) -> (r: String)
    ensures
        r@ == beat_part(s.deep_view(), g@),
{
    match &s.beat {
        Some(ms) => {
            let run = cat2(g, "_run");
            let label = cat3("no beat for ", ms.as_str(), " ms · reported stale, still running");
            make_arrow(run.as_str(), run.as_str(), label.as_str())
        },
        None => text(""),
    }
}

/// What a start waits for, where gates are shown.
pub open spec fn shown_up(gates: Option<GatesV>) -> Seq<char> {
    match gates {
        Some(g) => up_text(g),
        None => ""@,
    }
}

/// What a stop clears, where gates are shown.
pub open spec fn shown_down(gates: Option<GatesV>) -> Seq<char> {
    match gates {
        Some(g) => down_text(g),
        None => ""@,
    }
}

/// The composite state of a shape.
pub open spec fn composite_text(
    i: nat,
    s: ShapeV,
    members: Seq<Seq<char>>,
    dir: Seq<char>,
    gates: Option<GatesV>,
) -> Seq<char> {
    let g = "g"@ + decimal(i);
    "  state \""@ + escaped(composite_title(s, members, gates)) + "\" as "@ + g + " {\n    direction "@ + dir
        + "\n"@ + off_part(s, g) + "    state \"down\" as "@ + g + "_down\n"@ + running_part(s, g, dir) + (
    if s.disabled {
        ""@
    } else {
        "    [*] --> "@ + g + "_down\n"@
    }) + moves_part(s, g, shown_up(gates), shown_down(gates)) + bound_part(s, g) + beat_part(s, g)
        + "  }\n"@
}

fn composite(
    i: usize,
    s: &Shape,
    members: &Vec<String>,
    dir: &str,
    gates: &Gates,
    show: bool,
) -> (r: String)
    ensures
        r@ == composite_text(
            i as nat,
            s.deep_view(),
            members.deep_view(),
            dir@,
            if show {
                Some(gates.deep_view())
            } else {
                None
            },
        ),
{
    let digits = decimal_usize(i);
    let g = cat2("g", digits.as_str());
    let up = if show {
        make_up(gates)
    } else {
        text("")
    };
    let down = if show {
        make_down(gates)
    } else {
        text("")
    };
    let plain = label(s, members);
    let title = if show {
        let reads = make_listed(" · reads ", &gates.reads);
        let writes = make_listed(" · writes ", &gates.writes);
        cat3(plain.as_str(), reads.as_str(), writes.as_str())
    } else {
        plain
    };
    let mut out = text("  state \"");
    let quoted = esc(title.as_str());
    out.append(quoted.as_str());
    out.append("\" as ");
    out.append(g.as_str());
    out.append(" {\n    direction ");
    out.append(dir);
    out.append("\n");
    let off = make_off(s, g.as_str());
    out.append(off.as_str());
    out.append("    state \"down\" as ");
    out.append(g.as_str());
    out.append("_down\n");
    let running = make_running(s, g.as_str(), dir);
    out.append(running.as_str());
    let begin = if s.disabled {
        text("")
    } else {
        cat3("    [*] --> ", g.as_str(), "_down\n")
    };
    out.append(begin.as_str());
    let moves = make_moves(s, g.as_str(), up.as_str(), down.as_str());
    out.append(moves.as_str());
    let bound = make_bound(s, g.as_str());
    out.append(bound.as_str());
    let beat = make_beat(s, g.as_str());
    out.append(beat.as_str());
    out.append("  }\n");
    out
}

/// The direction of a state diagram, which calls top-down `TB`.
pub open spec fn state_direction(direction: Seq<char>) -> Seq<char> {
    if direction == "TD"@ {
        "TB"@
    } else {
        direction
    }
}

pub fn direction_of(direction: &str) -> (r: String)
    ensures
        r@ == state_direction(direction@),
{
    if same(direction, "TD") {
        text("TB")
    } else {
        text(direction)
    }
}

pub const LEGEND_OPEN: &'static str = "  state \"legend — one composite per lifecycle shape, shared by the nodes it names\" as legend {\n    direction ";

pub const LEGEND_REST: &'static str = "\n    state \"down\" as lg_down\n    state \"running\" as lg_run\n    [*] --> lg_down: where the node begins\n    lg_down --> lg_run: a supervisor operation moves it\n    lg_run --> lg_run: an observation, and it stays put\n  }\n";

/// The legend of a state diagram.
pub open spec fn legend_text(dir: Seq<char>) -> Seq<char> {
    LEGEND_OPEN@ + dir + LEGEND_REST@
}

pub fn legend(dir: &str) -> (r: String)
    ensures
        r@ == legend_text(dir@),
{
    cat3(LEGEND_OPEN, dir, LEGEND_REST)
}

/// The composite states from number `i` on, behind `acc`.
pub open spec fn composites_from(
    groups: Seq<GroupV>,
    dir: Seq<char>,
    show: bool,
    i: int,
    acc: Seq<char>,
) -> Seq<
    char,
>
    decreases groups.len() - i,
{
    if i < 0 || i >= groups.len() {
        acc
    } else {
        composites_from(
            groups,
            dir,
            show,
            i + 1,
            acc + "\n"@ + composite_text(
                i as nat,
                groups[i].shape,
                groups[i].members,
                dir,
                if show {
                    Some(groups[i].gates)
                } else {
                    None
                },
            ),
        )
    }
}

/// The lines above the states.
pub open spec fn head_text(d: DeclV, o: OptionsV) -> Seq<char> {
    let title = title_of(d, o);
    let place = d.origin + ":"@ + decimal(d.line as nat);
    frontmatter_of(title, o) + "%% node lifecycles — "@ + title + "  ("@ + place + ")\n"@ + spacing_text(o)
        + "stateDiagram-v2\n  accDescr: supervisor node lifecycles declared at "@ + place
        + "\n  direction "@ + state_direction(o.direction) + "\n"@
}

/// A declaration as a state diagram.
pub open spec fn state_diagram(d: DeclV, o: OptionsV) -> Seq<char> {
    let dir = state_direction(o.direction);
    let groups = groups_of(d.spec.items, o.signals);
    if groups.len() == 0 {
        head_text(d, o) + "  state \"no nodes declared\" as empty\n"@
    } else {
        composites_from(groups, dir, o.signals, 0, head_text(d, o)) + (if o.legend {
            "\n"@ + legend_text(dir)
        } else {
            ""@
        })
    }
}

/// Renders a declaration as a Mermaid state diagram of node lifecycles.
pub fn render(decl: &Decl, opts: &Options) -> (r: String)
    ensures
        r@ == state_diagram(decl.deep_view(), opts.deep_view()),
{
    let title = diagram_title(decl, opts);
    let line = decimal_usize(decl.line);
    let place = cat3(decl.origin.as_str(), ":", line.as_str());
    let mut out = frontmatter(title.as_str(), opts);
    out.append("%% node lifecycles — ");
    out.append(title.as_str());
    out.append("  (");
    out.append(place.as_str());
    out.append(")\n");
    let spacing = spacing_init(opts);
    out.append(spacing.as_str());
    out.append("stateDiagram-v2\n  accDescr: supervisor node lifecycles declared at ");
    out.append(place.as_str());
    out.append("\n  direction ");
    let dir = direction_of(opts.direction.as_str());
    out.append(dir.as_str());
    out.append("\n");
    let ghost head = out@;
    assert(head == head_text(decl.deep_view(), opts.deep_view()));
    let groups = read_groups(&decl.spec.items, opts.signals);
    assert(groups.deep_view().len() == groups@.len());
    if groups.len() == 0 {
        out.append("  state \"no nodes declared\" as empty\n");
        return out;
    }
    let ghost gs = groups.deep_view();
    let mut i: usize = 0;
    while i < groups.len()
        invariant
            i <= groups@.len(),
            gs == groups.deep_view(),
            composites_from(gs, dir@, opts.signals, 0, head) == composites_from(
                gs,
                dir@,
                opts.signals,
                i as int,
                out@,
            ),
        decreases groups@.len() - i,
    {
        assert(gs[i as int] == groups@[i as int].deep_view());
        let body = composite(
            i,
            &groups[i].shape,
            &groups[i].members,
            dir.as_str(),
            &groups[i].gates,
            opts.signals,
        );
        out.append("\n");
        out.append(body.as_str());
        i = i + 1;
    }
    let tail = if opts.legend {
        let rest = legend(dir.as_str());
        cat2("\n", rest.as_str())
    } else {
        text("")
    };
    out.append(tail.as_str());
    out
}

proof fn lemma_shapes_total(a: ShapeV, b: ShapeV)
    ensures
        !(shape_before(a, b) && shape_before(b, a)),
        !shape_before(a, b) && !shape_before(b, a) ==> a == b,
        !shape_before(a, a),
{
    text_order_is_total(a.mode, b.mode);
    text_order_is_total(a.mode, a.mode);
    if let (Some(x), Some(y)) = (a.beat, b.beat) {
        text_order_is_total(x, y);
    }
    if let Some(x) = a.beat {
        text_order_is_total(x, x);
    }
}

proof fn lemma_shapes_transitive(a: ShapeV, b: ShapeV, c: ShapeV)
    requires
        shape_before(a, b),
        shape_before(b, c),
    ensures
        shape_before(a, c),
{
    text_order_is_total(a.mode, b.mode);
    text_order_is_total(b.mode, c.mode);
    text_order_is_total(a.mode, c.mode);
    if precedes(a.mode, b.mode) && precedes(b.mode, c.mode) {
        text_order_is_transitive(a.mode, b.mode, c.mode);
    }
    if let (Some(x), Some(y), Some(z)) = (a.beat, b.beat, c.beat) {
        if precedes(x, y) && precedes(y, z) {
            text_order_is_transitive(x, y, z);
        }
    }
}

/// The groups stand in the order of their shapes, each shape once.
pub open spec fn shapes_ascend(groups: Seq<GroupV>) -> bool {
    forall|i: int, j: int|
        #![trigger groups[i], groups[j]]
        0 <= i < j < groups.len() ==> shape_before(groups[i].shape, groups[j].shape)
}

/// A group of this shape names this member.
pub open spec fn names_member(groups: Seq<GroupV>, s: ShapeV, x: Seq<char>) -> bool {
    exists|i: int|
        0 <= i < groups.len() && (#[trigger] groups[i]).shape == s && groups[i].members.contains(x)
}

proof fn lemma_group_slot(groups: Seq<GroupV>, s: ShapeV, i: int)
    requires
        0 <= i <= groups.len(),
        forall|k: int| 0 <= k < i ==> shape_before((#[trigger] groups[k]).shape, s),
    ensures
        i <= group_slot(groups, s, i) <= groups.len(),
        forall|k: int|
            0 <= k < group_slot(groups, s, i) ==> shape_before((#[trigger] groups[k]).shape, s),
        group_slot(groups, s, i) < groups.len() ==> !shape_before(
            groups[group_slot(groups, s, i)].shape,
            s,
        ),
    decreases groups.len() - i,
{
    if i < groups.len() && shape_before(groups[i].shape, s) {
        lemma_group_slot(groups, s, i + 1);
    }
}

proof fn lemma_merged(groups: Seq<GroupV>, entry: GroupV, s: ShapeV, x: Seq<char>)
    requires
        shapes_ascend(groups),
    ensures
        shapes_ascend(merged(groups, entry)),
        names_member(merged(groups, entry), s, x) <==> names_member(groups, s, x) || (s == entry.shape
            && entry.members.contains(x)),
{
    let at = group_slot(groups, entry.shape, 0);
    lemma_group_slot(groups, entry.shape, 0);
    let next = merged(groups, entry);
    if at < groups.len() && groups[at].shape == entry.shape {
        let all = groups[at].members + entry.members;
        assert(next[at].members == all);
        assert(all.contains(x) <==> groups[at].members.contains(x) || entry.members.contains(x)) by {
            if groups[at].members.contains(x) {
                let k = choose|k: int| 0 <= k < groups[at].members.len() && groups[at].members[k] == x;
                assert(all[k] == x);
            }
            if entry.members.contains(x) {
                let k = choose|k: int| 0 <= k < entry.members.len() && entry.members[k] == x;
                assert(all[groups[at].members.len() + k] == x);
            }
        }
        if names_member(groups, s, x) {
            let i = choose|i: int|
                0 <= i < groups.len() && (#[trigger] groups[i]).shape == s && groups[i].members.contains(x);
            assert(next[i].shape == s && next[i].members.contains(x));
        }
        if names_member(next, s, x) {
            let i = choose|i: int|
                0 <= i < next.len() && (#[trigger] next[i]).shape == s && next[i].members.contains(x);
            assert(groups[i].shape == s);
        }
    } else {
        assert(next[at].shape == entry.shape);
        assert forall|i: int, j: int| #![trigger next[i], next[j]] 0 <= i < j < next.len() implies shape_before(
            next[i].shape,
            next[j].shape,
        ) by {
            if j == at {
                assert(next[i] == groups[i]);
            } else if i == at {
                assert(next[j] == groups[j - 1]);
                lemma_shapes_total(groups[at].shape, entry.shape);
                if j - 1 > at {
                    assert(shape_before(groups[at].shape, groups[j - 1].shape));
                    lemma_shapes_transitive(entry.shape, groups[at].shape, groups[j - 1].shape);
                }
            } else {
                let a = if i < at {
                    i
                } else {
                    i - 1
                };
                let b = if j < at {
                    j
                } else {
                    j - 1
                };
                assert(next[i] == groups[a] && next[j] == groups[b]);
            }
        }
        if names_member(groups, s, x) {
            let i = choose|i: int|
                0 <= i < groups.len() && (#[trigger] groups[i]).shape == s && groups[i].members.contains(x);
            let j = if i < at {
                i
            } else {
                i + 1
            };
            assert(next[j] == groups[i]);
        }
        if names_member(next, s, x) {
            let i = choose|i: int|
                0 <= i < next.len() && (#[trigger] next[i]).shape == s && next[i].members.contains(x);
            if i < at {
                assert(next[i] == groups[i]);
            } else if i > at {
                assert(next[i] == groups[i - 1]);
            }
        }
    }
}

proof fn lemma_merged_from(entries: Seq<GroupV>, i: int, acc: Seq<GroupV>, s: ShapeV, x: Seq<char>)
    requires
        0 <= i,
        shapes_ascend(acc),
    ensures
        shapes_ascend(merged_from(entries, i, acc)),
        names_member(merged_from(entries, i, acc), s, x) <==> names_member(acc, s, x) || exists|k: int|
            i <= k < entries.len() && (#[trigger] entries[k]).shape == s && entries[k].members.contains(x),
    decreases entries.len() - i,
{
    if i < entries.len() {
        lemma_merged(acc, entries[i], s, x);
        lemma_merged_from(entries, i + 1, merged(acc, entries[i]), s, x);
    }
}

/// Without signals, the nodes and pool members of one lifecycle shape stand in one group and in no
/// other: the shapes of the groups are distinct and in order, and a group names what has its shape.
pub proof fn what_shares_a_lifecycle_shares_a_group(items: Seq<ItemV>, s: ShapeV, x: Seq<char>)
    ensures
        shapes_ascend(groups_of(items, false)),
        names_member(groups_of(items, false), s, x) <==> names_member(
            entries_from(items, 0, Seq::empty()),
            s,
            x,
        ),
{
    lemma_merged_from(entries_from(items, 0, Seq::empty()), 0, Seq::empty(), s, x);
}

/// Shapes that stand in order are distinct.
pub proof fn ordered_shapes_are_distinct(groups: Seq<GroupV>, i: int, j: int)
    requires
        shapes_ascend(groups),
        0 <= i < j < groups.len(),
    ensures
        groups[i].shape != groups[j].shape,
{
    lemma_shapes_total(groups[i].shape, groups[j].shape);
}

/// Two texts without a character give one without it.
broadcast proof fn lemma_free_both(a: Seq<char>, b: Seq<char>, c: char)
    requires
        free_of(a, c),
        free_of(b, c),
    ensures
        #[trigger] free_of(a + b, c),
{
}

proof fn lemma_joined_free(list: Seq<Seq<char>>, sep: Seq<char>, c: char)
    requires
        free_of(sep, c),
        forall|k: int| 0 <= k < list.len() ==> free_of(#[trigger] list[k], c),
    ensures
        free_of(joined(list, sep), c),
    decreases list.len(),
{
    broadcast use lemma_free_both;

    if list.len() > 1 {
        let front = list.drop_last();
        assert forall|k: int| 0 <= k < front.len() implies free_of(#[trigger] front[k], c) by {
            assert(front[k] == list[k]);
        }
        lemma_joined_free(front, sep, c);
    }
}

proof fn lemma_decimal_free(n: nat)
    ensures
        free_of(decimal(n), ';'),
    decreases n,
{
    if n >= 10 {
        lemma_decimal_free(n / 10);
    }
}

proof fn lemma_arrow_free(from: Seq<char>, to: Seq<char>, label: Seq<char>)
    requires
        free_of(from, ';'),
        free_of(to, ';'),
        free_of(label, ';'),
    ensures
        free_of(arrow(from, to, label), ';'),
{
    broadcast use lemma_free_both;

    reveal_strlit("    ");
    assert(free_of("    "@, ';'));
    reveal_strlit(" --> ");
    assert(free_of(" --> "@, ';'));
    reveal_strlit(": ");
    assert(free_of(": "@, ';'));
    reveal_strlit("\n");
    assert(free_of("\n"@, ';'));
}

proof fn lemma_off_free(s: ShapeV, g: Seq<char>)
    requires
        free_of(g, ';'),
    ensures
        free_of(off_part(s, g), ';'),
{
    broadcast use lemma_free_both;

    reveal_strlit("    state \"disabled\" as ");
    assert(free_of("    state \"disabled\" as "@, ';'));
    reveal_strlit("_off\n    [*] --> ");
    assert(free_of("_off\n    [*] --> "@, ';'));
    reveal_strlit("_off\n");
    assert(free_of("_off\n"@, ';'));
    reveal_strlit("_off");
    assert(free_of("_off"@, ';'));
    reveal_strlit("_down");
    assert(free_of("_down"@, ';'));
    reveal_strlit("activate · the one path that clears the latch");
    assert(free_of("activate · the one path that clears the latch"@, ';'));
    reveal_strlit("");
    assert(free_of(""@, ';'));
    lemma_arrow_free(g + "_off"@, g + "_down"@, "activate · the one path that clears the latch"@);
}

proof fn lemma_running_free(s: ShapeV, g: Seq<char>, dir: Seq<char>)
    requires
        free_of(g, ';'),
        free_of(dir, ';'),
    ensures
        free_of(running_part(s, g, dir), ';'),
{
    broadcast use lemma_free_both;

    reveal_strlit("    state \"running\" as ");
    assert(free_of("    state \"running\" as "@, ';'));
    reveal_strlit("_run {\n      direction ");
    assert(free_of("_run {\n      direction "@, ';'));
    reveal_strlit("\n      state \"starting\" as ");
    assert(free_of("\n      state \"starting\" as "@, ';'));
    reveal_strlit("_starting\n      state \"ready\" as ");
    assert(free_of("_starting\n      state \"ready\" as "@, ';'));
    reveal_strlit("_ready\n      [*] --> ");
    assert(free_of("_ready\n      [*] --> "@, ';'));
    reveal_strlit("_starting\n      ");
    assert(free_of("_starting\n      "@, ';'));
    reveal_strlit("_starting --> ");
    assert(free_of("_starting --> "@, ';'));
    reveal_strlit("_ready: ");
    assert(free_of("_ready: "@, ';'));
    reveal_strlit("the sweep sees a declared write advance");
    assert(free_of("the sweep sees a declared write advance"@, ';'));
    reveal_strlit("the task calls set_ready()");
    assert(free_of("the task calls set_ready()"@, ';'));
    reveal_strlit("\n      ");
    assert(free_of("\n      "@, ';'));
    reveal_strlit("_ready --> ");
    assert(free_of("_ready --> "@, ';'));
    reveal_strlit("_starting: clear_ready() · dependents wait again\n    }\n");
    assert(free_of("_starting: clear_ready() · dependents wait again\n    }\n"@, ';'));
    reveal_strlit("_run\n");
    assert(free_of("_run\n"@, ';'));
}

proof fn lemma_start_free(s: ShapeV)
    ensures
        free_of(start_text(s), ';'),
{
    reveal_strlit("start · only marked running, the application spawns the task");
    assert(free_of("start · only marked running, the application spawns the task"@, ';'));
    reveal_strlit("the pool policy brings the member up");
    assert(free_of("the pool policy brings the member up"@, ';'));
    reveal_strlit("start · spawned in dep order");
    assert(free_of("start · spawned in dep order"@, ';'));
}

proof fn lemma_moves_free(s: ShapeV, g: Seq<char>, up: Seq<char>, down: Seq<char>)
    requires
        free_of(g, ';'),
        free_of(up, ';'),
        free_of(down, ';'),
    ensures
        free_of(moves_part(s, g, up, down), ';'),
{
    broadcast use lemma_free_both;

    reveal_strlit("_run");
    assert(free_of("_run"@, ';'));
    reveal_strlit("_down");
    assert(free_of("_down"@, ';'));
    reveal_strlit("    state \"parked\" as ");
    assert(free_of("    state \"parked\" as "@, ';'));
    reveal_strlit("_parked\n");
    assert(free_of("_parked\n"@, ';'));
    reveal_strlit("_parked");
    assert(free_of("_parked"@, ';'));
    reveal_strlit("stop_node · the pool shrinks");
    assert(free_of("stop_node · the pool shrinks"@, ';'));
    reveal_strlit(", its future dropped in place");
    assert(free_of(", its future dropped in place"@, ';'));
    reveal_strlit(", acks and exits");
    assert(free_of(", acks and exits"@, ';'));
    reveal_strlit("teardown or stop_node · ");
    assert(free_of("teardown or stop_node · "@, ';'));
    reveal_strlit("future dropped in place, the shell still runs its tail");
    assert(free_of("future dropped in place, the shell still runs its tail"@, ';'));
    reveal_strlit("acks, exits its loop");
    assert(free_of("acks, exits its loop"@, ';'));
    reveal_strlit("");
    assert(free_of(""@, ';'));
    reveal_strlit("respawn_terminate");
    assert(free_of("respawn_terminate"@, ';'));
    reveal_strlit("teardown or stop_node · acks, then parks on wait_resume()");
    assert(free_of(PAUSED@, ';'));
    reveal_strlit("resume_node or resume_pausable · resumed in place, keeps its resources");
    assert(free_of(RESUMED@, ';'));
    reveal_strlit("start_node · the pool grows under load, start() skips it");
    assert(free_of(GROWS@, ';'));
    lemma_start_free(s);
    let run = g + "_run"@;
    let low = g + "_down"@;
    if mode_of(s) == "Pause"@ {
        lemma_arrow_free(low, run, start_text(s) + up);
        lemma_arrow_free(run, g + "_parked"@, PAUSED@ + down);
        lemma_arrow_free(g + "_parked"@, run, RESUMED@);
    } else if mode_of(s) == "OnDemand"@ {
        let how = if s.cancel {
            ", its future dropped in place"@
        } else {
            ", acks and exits"@
        };
        lemma_arrow_free(low, run, GROWS@ + up);
        lemma_arrow_free(run, low, "stop_node · the pool shrinks"@ + how + down);
    } else {
        let how = if s.cancel {
            "future dropped in place, the shell still runs its tail"@
        } else {
            "acks, exits its loop"@
        };
        lemma_arrow_free(low, run, start_text(s) + up);
        lemma_arrow_free(run, low, "teardown or stop_node · "@ + how + down);
        lemma_arrow_free(low, run, "respawn_terminate"@);
    }
}

proof fn lemma_bound_free(s: ShapeV, g: Seq<char>)
    requires
        free_of(g, ';'),
    ensures
        free_of(bound_part(s, g), ';'),
{
    broadcast use lemma_free_both;

    reveal_strlit("_parked");
    assert(free_of("_parked"@, ';'));
    reveal_strlit("_down");
    assert(free_of("_down"@, ';'));
    reveal_strlit("_run");
    assert(free_of("_run"@, ';'));
    reveal_strlit("a bound dep called clear_ready()");
    assert(free_of("a bound dep called clear_ready()"@, ';'));
    reveal_strlit("that dep is ready again · resumed in place");
    assert(free_of("that dep is ready again · resumed in place"@, ';'));
    reveal_strlit("that dep is ready again · brought back through the gates");
    assert(free_of("that dep is ready again · brought back through the gates"@, ';'));
    reveal_strlit("");
    assert(free_of(""@, ';'));
    let paused = mode_of(s) == "Pause"@;
    let stopped = if paused {
        g + "_parked"@
    } else {
        g + "_down"@
    };
    let again = if paused {
        "that dep is ready again · resumed in place"@
    } else {
        "that dep is ready again · brought back through the gates"@
    };
    lemma_arrow_free(g + "_run"@, stopped, "a bound dep called clear_ready()"@);
    lemma_arrow_free(stopped, g + "_run"@, again);
}

proof fn lemma_beat_free(s: ShapeV, g: Seq<char>)
    requires
        free_of(g, ';'),
        s.beat matches Some(ms) ==> free_of(ms, ';'),
    ensures
        free_of(beat_part(s, g), ';'),
{
    broadcast use lemma_free_both;

    reveal_strlit("_run");
    assert(free_of("_run"@, ';'));
    reveal_strlit("no beat for ");
    assert(free_of("no beat for "@, ';'));
    reveal_strlit(" ms · reported stale, still running");
    assert(free_of(" ms · reported stale, still running"@, ';'));
    reveal_strlit("");
    assert(free_of(""@, ';'));
    if let Some(ms) = s.beat {
        lemma_arrow_free(
            g + "_run"@,
            g + "_run"@,
            "no beat for "@ + ms + " ms · reported stale, still running"@,
        );
    }
}

/// No text of the gates holds a semicolon.
pub open spec fn plain_gates(g: GatesV) -> bool {
    &&& forall|k: int| 0 <= k < g.takes.len() ==> free_of(#[trigger] g.takes[k], ';')
    &&& forall|k: int| 0 <= k < g.waits.len() ==> free_of(#[trigger] g.waits[k], ';')
    &&& forall|k: int| 0 <= k < g.clears.len() ==> free_of(#[trigger] g.clears[k], ';')
    &&& (g.within matches Some(ms) ==> free_of(ms, ';'))
}

proof fn lemma_gates_free(g: GatesV)
    requires
        plain_gates(g),
    ensures
        free_of(up_text(g), ';'),
        free_of(down_text(g), ';'),
{
    broadcast use lemma_free_both;

    reveal_strlit("takes ");
    assert(free_of("takes "@, ';'));
    reveal_strlit(", ");
    assert(free_of(", "@, ';'));
    reveal_strlit("waits ");
    assert(free_of("waits "@, ';'));
    reveal_strlit(" ready");
    assert(free_of(" ready"@, ';'));
    reveal_strlit("within ");
    assert(free_of("within "@, ';'));
    reveal_strlit(" ms");
    assert(free_of(" ms"@, ';'));
    reveal_strlit("");
    assert(free_of(""@, ';'));
    reveal_strlit(" · ");
    assert(free_of(" · "@, ';'));
    reveal_strlit(" · clears ");
    assert(free_of(" · clears "@, ';'));
    lemma_joined_free(g.takes, ", "@, ';');
    lemma_joined_free(g.waits, ", "@, ';');
    lemma_joined_free(g.clears, ", "@, ';');
    let a = with_if(Seq::empty(), g.takes.len() > 0, "takes "@ + joined(g.takes, ", "@));
    let b = with_if(a, g.waits.len() > 0, "waits "@ + joined(g.waits, ", "@) + " ready"@);
    let c = match g.within {
        Some(ms) => with_if(b, b.len() > 0, "within "@ + ms + " ms"@),
        None => b,
    };
    lemma_joined_free(c, " · "@, ';');
}

/// No transition of a composite state holds a semicolon, at which a diagram would end the label,
/// where the names and numbers in it hold none. Nor does the legend.
pub proof fn no_transition_holds_a_semicolon(i: nat, s: ShapeV, dir: Seq<char>, gates: Option<GatesV>)
    requires
        free_of(dir, ';'),
        s.beat matches Some(ms) ==> free_of(ms, ';'),
        gates matches Some(g) ==> plain_gates(g),
    ensures
        free_of(off_part(s, "g"@ + decimal(i)), ';'),
        free_of(running_part(s, "g"@ + decimal(i), dir), ';'),
        free_of(moves_part(s, "g"@ + decimal(i), shown_up(gates), shown_down(gates)), ';'),
        free_of(bound_part(s, "g"@ + decimal(i)), ';'),
        free_of(beat_part(s, "g"@ + decimal(i)), ';'),
        free_of(legend_text(dir), ';'),
{
    broadcast use lemma_free_both;

    let g = "g"@ + decimal(i);
    reveal_strlit("g");
    assert(free_of("g"@, ';'));
    reveal_strlit("");
    assert(free_of(""@, ';'));
    reveal_strlit("  state \"legend — one composite per lifecycle shape, shared by the nodes it names\" as legend {\n    direction ");
    assert(free_of(LEGEND_OPEN@, ';'));
    reveal_strlit("\n    state \"down\" as lg_down\n    state \"running\" as lg_run\n    [*] --> lg_down: where the node begins\n    lg_down --> lg_run: a supervisor operation moves it\n    lg_run --> lg_run: an observation, and it stays put\n  }\n");
    assert(free_of(LEGEND_REST@, ';'));
    lemma_decimal_free(i);
    if let Some(x) = gates {
        lemma_gates_free(x);
    }
    lemma_off_free(s, g);
    lemma_running_free(s, g, dir);
    lemma_moves_free(s, g, shown_up(gates), shown_down(gates));
    lemma_bound_free(s, g);
    lemma_beat_free(s, g);
}

} // verus!
