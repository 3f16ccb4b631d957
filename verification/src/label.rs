//! The texts inside a diagram: labels of nodes and pools, and the edges between them.

use vstd::prelude::*;
use vstd::string::*;

use crate::ast::{
    strip, stripped, Dep, DepV, Item, ItemV, NodeItem, NodeItemV, PoolItem, PoolItemV, ResourceDecl,
    ResourceDeclV, SignalDecl, SignalDeclV, TaskSource, TaskSourceV,
};
use crate::find::UNRESOLVED_CRATE;
use crate::list::{put, Dup};
use crate::lists::{is_cfg, is_cfg_list};
use crate::rust::{Attr, AttrV, ExprText, ExprTextV};
use crate::text::{
    free_of, lemma_replaced_free,
    after_last, cat2, cat3, cat4, cat5, decimal, decimal_usize, join, joined, replace, replaced,
    tail_after, text,
};

verus! {

/// A text as it stands inside quotes in a diagram.
pub open spec fn escaped(s: Seq<char>) -> Seq<char> {
    replaced(s, "\""@, "#quot;"@)
}

pub fn esc(s: &str) -> (r: String)
    ensures
        r@ == escaped(s@),
{
    proof {
        reveal_strlit("\"");
    }
    replace(s, "\"", "#quot;")
}

/// The predicates of the `cfg` attributes from number `i` on, as written, behind `acc`.
pub open spec fn predicates_from(attrs: Seq<AttrV>, i: int, acc: Seq<Seq<char>>) -> Seq<Seq<char>>
    decreases attrs.len() - i,
{
    if i < 0 || i >= attrs.len() {
        acc
    } else {
        predicates_from(
            attrs,
            i + 1,
            if is_cfg(attrs[i]) {
                acc.push(attrs[i].list->0)
            } else {
                acc
            },
        )
    }
}

/// The predicates of `cfg` attributes, as written.
pub open spec fn predicates(attrs: Seq<AttrV>) -> Seq<Seq<char>> {
    predicates_from(attrs, 0, Seq::empty())
}

pub fn read_predicates(attrs: &Vec<Attr>) -> (r: Vec<String>)
    ensures
        r.deep_view() == predicates(attrs.deep_view()),
{
    let ghost a = attrs.deep_view();
    let mut out: Vec<String> = Vec::new();
    assert(out.deep_view() == Seq::<Seq<char>>::empty());
    let mut i: usize = 0;
    while i < attrs.len()
        invariant
            i <= attrs@.len(),
            a == attrs.deep_view(),
            predicates(a) == predicates_from(a, i as int, out.deep_view()),
        decreases attrs@.len() - i,
    {
        if is_cfg_list(&attrs[i]) {
            if let Some(list) = &attrs[i].list {
                put(&mut out, list.dup());
            }
        }
        i = i + 1;
    }
    out
}

/// The note on the predicates of an entry, where there are any and they are shown.
pub open spec fn cfg_note(attrs: Seq<AttrV>, show: bool) -> Option<Seq<char>> {
    if !show || predicates(attrs).len() == 0 {
        None
    } else {
        Some("<small>cfg("@ + joined(predicates(attrs), ") · cfg("@) + ")</small>"@)
    }
}

pub fn note_cfg(attrs: &Vec<Attr>, show: bool) -> (r: Option<String>)
    ensures
        r.deep_view() == cfg_note(attrs.deep_view(), show),
{
    if !show {
        return None;
    }
    let preds = read_predicates(attrs);
    if preds.len() == 0 {
        return None;
    }
    let inner = join(&preds, ") · cfg(");
    Some(cat3("<small>cfg(", inner.as_str(), ")</small>"))
}

/// A list with `x` behind it where `c` holds.
pub open spec fn with_if(list: Seq<Seq<char>>, c: bool, x: Seq<char>) -> Seq<Seq<char>> {
    if c {
        list.push(x)
    } else {
        list
    }
}

pub fn add_if(list: &mut Vec<String>, c: bool, x: &str)
    ensures
        final(list).deep_view() == with_if(old(list).deep_view(), c, x@),
{
    if c {
        put(list, text(x));
    }
}

/// A list with what `x` holds behind it.
pub open spec fn with_some(list: Seq<Seq<char>>, x: Option<Seq<char>>) -> Seq<Seq<char>> {
    match x {
        Some(t) => list.push(t),
        None => list,
    }
}

pub fn add_some(list: &mut Vec<String>, x: Option<String>)
    ensures
        final(list).deep_view() == with_some(old(list).deep_view(), x.deep_view()),
{
    if let Some(t) = x {
        put(list, t);
    }
}

/// A fact with the note of its clause.
pub open spec fn gated_fact(fact: Seq<char>, cfg: Seq<AttrV>, show: bool) -> Seq<char> {
    match cfg_note(cfg, show) {
        Some(c) => fact + " "@ + c,
        None => fact,
    }
}

fn gate_fact(fact: &str, cfg: &Vec<Attr>, show: bool) -> (r: String)
    ensures
        r@ == gated_fact(fact@, cfg.deep_view(), show),
{
    match note_cfg(cfg, show) {
        Some(c) => cat3(fact, " ", c.as_str()),
        None => text(fact),
    }
}

/// Where the body of a node comes from, in one word.
pub open spec fn body_kind(source: Option<TaskSourceV>) -> Seq<char> {
    match source {
        Some(TaskSourceV::Shell(_)) => "task"@,
        Some(TaskSourceV::Spawn(_)) => "spawn"@,
        None => "parked"@,
    }
}

fn kind_of_body(source: Option<&TaskSource>) -> (r: &'static str)
    ensures
        r@ == body_kind(
            match source {
                Some(s) => Some(s.deep_view()),
                None => None,
            },
        ),
{
    match source {
        Some(TaskSource::Shell(_)) => "task",
        Some(TaskSource::Spawn(_)) => "spawn",
        None => "parked",
    }
}

/// An optional text behind a mark.
pub open spec fn prefixed(mark: Seq<char>, x: Option<Seq<char>>) -> Option<Seq<char>> {
    match x {
        Some(t) => Some(mark + t),
        None => None,
    }
}

pub fn prefix_some(mark: &str, x: &Option<String>) -> (r: Option<String>)
    ensures
        r.deep_view() == prefixed(mark@, x.deep_view()),
{
    match x {
        Some(t) => Some(cat2(mark, t.as_str())),
        None => None,
    }
}

/// What the label of a node says below its name.
pub open spec fn node_facts(n: NodeItemV, show: bool) -> Seq<Seq<char>> {
    let a = Seq::<Seq<char>>::empty().push(n.mode).push(body_kind(n.source));
    let b = match n.pool_size {
        Some(size) => a.push("×"@ + size.text),
        None => a,
    };
    let c = with_some(b, prefixed("@"@, n.executor));
    let d = match n.beat_timeout {
        Some(bt) => c.push(gated_fact("beat "@ + bt.value.text, bt.cfg, show)),
        None => c,
    };
    let e = match n.ready_on_write {
        Some(w) => d.push(gated_fact("ready_on_write"@, w.cfg, show)),
        None => d,
    };
    let f = match n.disabled {
        Some(g) => with_some(e, prefixed("disabled "@, cfg_note(g.cfg, show))),
        None => e,
    };
    with_some(with_if(f, n.cancel, "cancel"@), cfg_note(n.cfg, show))
}

/// The label of a node.
pub open spec fn node_label(n: NodeItemV, show: bool) -> Seq<char> {
    n.ident + "<br/>"@ + joined(node_facts(n, show), " · "@)
}

fn label_node(n: &NodeItem, show: bool) -> (r: String)
    ensures
        r@ == node_label(n.deep_view(), show),
{
    let mut facts: Vec<String> = Vec::new();
    assert(facts.deep_view() == Seq::<Seq<char>>::empty());
    put(&mut facts, n.mode.dup());
    put(&mut facts, text(kind_of_body(n.source.as_ref())));
    if let Some(size) = &n.pool_size {
        put(&mut facts, cat2("×", size.text.as_str()));
    }
    add_some(&mut facts, prefix_some("@", &n.executor));
    if let Some(bt) = &n.beat_timeout {
        let fact = cat2("beat ", bt.value.text.as_str());
        put(&mut facts, gate_fact(fact.as_str(), &bt.cfg, show));
    }
    if let Some(w) = &n.ready_on_write {
        put(&mut facts, gate_fact("ready_on_write", &w.cfg, show));
    }
    if let Some(g) = &n.disabled {
        add_some(&mut facts, prefix_some("disabled ", &note_cfg(&g.cfg, show)));
    }
    add_if(&mut facts, n.cancel, "cancel");
    add_some(&mut facts, note_cfg(&n.cfg, show));
    let all = join(&facts, " · ");
    cat3(n.ident.as_str(), "<br/>", all.as_str())
}

/// The last segment of a path expression, without spaces.
pub open spec fn tail_of(e: ExprTextV) -> Seq<char> {
    after_last(stripped(e.text), "::"@)
}

fn tail(e: &ExprText) -> (r: String)
    ensures
        r@ == tail_of(e.deep_view()),
{
    let t = strip(e.text.as_str());
    proof {
        reveal_strlit("::");
    }
    tail_after(t.as_str(), "::")
}

/// What the label of a pool says below its name.
pub open spec fn pool_facts(p: PoolItemV, show: bool) -> Seq<Seq<char>> {
    let a = Seq::<Seq<char>>::empty().push("pool ×"@ + decimal(p.modes.len())).push(
        body_kind(Some(p.source)),
    ).push(tail_of(p.min) + ".."@ + tail_of(p.max));
    with_some(
        with_if(with_some(a, prefixed("@"@, p.executor)), p.cancel, "cancel"@),
        cfg_note(p.cfg, show),
    )
}

/// The label of a pool.
pub open spec fn pool_label(p: PoolItemV, show: bool) -> Seq<char> {
    p.ident + "<br/>"@ + joined(pool_facts(p, show), " · "@)
}

fn label_pool(p: &PoolItem, show: bool) -> (r: String)
    ensures
        r@ == pool_label(p.deep_view(), show),
{
    let mut facts: Vec<String> = Vec::new();
    assert(facts.deep_view() == Seq::<Seq<char>>::empty());
    let size = decimal_usize(p.modes.len());
    put(&mut facts, cat2("pool ×", size.as_str()));
    put(&mut facts, text(kind_of_body(Some(&p.source))));
    let low = tail(&p.min);
    let high = tail(&p.max);
    put(&mut facts, cat3(low.as_str(), "..", high.as_str()));
    add_some(&mut facts, prefix_some("@", &p.executor));
    add_if(&mut facts, p.cancel, "cancel");
    add_some(&mut facts, note_cfg(&p.cfg, show));
    let all = join(&facts, " · ");
    cat3(p.ident.as_str(), "<br/>", all.as_str())
}

/// The box of an item: a node is a rectangle, a pool a double-sided one.
pub open spec fn shape_of(id: Seq<char>, item: ItemV, show: bool) -> Seq<char> {
    match item {
        ItemV::Node(n) => id + "[\""@ + escaped(node_label(n, show)) + "\"]"@,
        ItemV::Pool(p) => id + "[[\""@ + escaped(pool_label(p, show)) + "\"]]"@,
        ItemV::Executor(_) => ""@,
    }
}

pub fn shape(id: &str, item: &Item, show: bool) -> (r: String)
    ensures
        r@ == shape_of(id@, item.deep_view(), show),
{
    match item {
        Item::Node(n) => {
            let label = label_node(n, show);
            let inner = esc(label.as_str());
            cat4(id, "[\"", inner.as_str(), "\"]")
        },
        Item::Pool(p) => {
            let label = label_pool(p, show);
            let inner = esc(label.as_str());
            cat4(id, "[[\"", inner.as_str(), "\"]]")
        },
        Item::Executor(_) => text(""),
    }
}

/// A label with the placeholder of an unresolved crate shown as `$crate`.
pub open spec fn unresolved_label(label: Seq<char>) -> Seq<char> {
    replaced(label, UNRESOLVED_CRATE@, "$crate"@)
}

/// The markers of a dep.
pub open spec fn markers(d: DepV) -> Seq<char> {
    joined(with_if(with_if(Seq::empty(), d.ready, "ready"@), d.bound, "bound"@), " "@)
}

fn mark_dep(d: &Dep) -> (r: String)
    ensures
        r@ == markers(d.deep_view()),
{
    let mut m: Vec<String> = Vec::new();
    assert(m.deep_view() == Seq::<Seq<char>>::empty());
    add_if(&mut m, d.ready, "ready");
    add_if(&mut m, d.bound, "bound");
    join(&m, " ")
}

/// The label of a dep edge: its markers and its note.
pub open spec fn dep_label(d: DepV, show: bool) -> Seq<char> {
    match cfg_note(d.cfg, show) {
        Some(c) => if markers(d).len() == 0 {
            c
        } else {
            markers(d) + " · "@ + c
        },
        None => markers(d),
    }
}

pub fn label_dep(d: &Dep, show: bool) -> (r: String)
    ensures
        r@ == dep_label(d.deep_view(), show),
{
    let m = mark_dep(d);
    match note_cfg(&d.cfg, show) {
        Some(c) => if m.as_str().unicode_len() == 0 {
            c
        } else {
            cat3(m.as_str(), " · ", c.as_str())
        },
        None => m,
    }
}

/// The edge of a dep in the bring-up view: thick where it is bound.
pub open spec fn dep_edge(from: Seq<char>, to: Seq<char>, d: DepV, label: Seq<char>) -> Seq<char> {
    let quoted = "\""@ + escaped(label) + "\""@;
    if d.bound {
        from + " == "@ + quoted + " ==> "@ + to
    } else if label.len() == 0 {
        from + " --> "@ + to
    } else {
        from + " -- "@ + quoted + " --> "@ + to
    }
}

pub fn edge_dep(from: &str, to: &str, d: &Dep, label: &str) -> (r: String)
    ensures
        r@ == dep_edge(from@, to@, d.deep_view(), label@),
{
    let inner = esc(label);
    let quoted = cat3("\"", inner.as_str(), "\"");
    if d.bound {
        return cat5(from, " == ", quoted.as_str(), " ==> ", to);
    }
    if label.unicode_len() == 0 {
        cat3(from, " --> ", to)
    } else {
        cat5(from, " -- ", quoted.as_str(), " --> ", to)
    }
}

/// The edge of a dep in the runtime view: dotted context.
pub open spec fn spawn_edge(from: Seq<char>, to: Seq<char>, label: Seq<char>) -> Seq<char> {
    from + " -. \""@ + escaped(
        if label.len() == 0 {
            "spawn"@
        } else {
            "spawn · "@ + label
        },
    ) + "\" .-> "@ + to
}

pub fn edge_spawn(from: &str, to: &str, label: &str) -> (r: String)
    ensures
        r@ == spawn_edge(from@, to@, label@),
{
    let full = if label.unicode_len() == 0 {
        text("spawn")
    } else {
        cat2("spawn · ", label)
    };
    let inner = esc(full.as_str());
    cat5(from, " -. \"", inner.as_str(), "\" .-> ", to)
}

/// The marks of a resource.
pub open spec fn resource_marks(r: ResourceDeclV, show: bool) -> Seq<Seq<char>> {
    let a = with_if(Seq::empty(), r.local, "local"@);
    let b = with_if(a, r.consume, "consume"@);
    let c = with_if(b, r.shared, "shared"@);
    let d = with_if(c, r.serialized, "serialized"@);
    let e = with_if(d, r.divisible, "divisible"@);
    with_some(e, cfg_note(r.cfg, show))
}

/// The edge from a resource slot to the node that takes it.
pub open spec fn resource_edge(
    slot: Seq<char>,
    node: Seq<char>,
    r: ResourceDeclV,
    show: bool,
) -> Seq<char> {
    let marks = resource_marks(r, show);
    if marks.len() == 0 {
        slot + " --> "@ + node
    } else {
        slot + " -- \""@ + joined(marks, " · "@) + "\" --> "@ + node
    }
}

pub fn edge_resource(slot: &str, node: &str, d: &ResourceDecl, show: bool) -> (r: String)
    ensures
        r@ == resource_edge(slot@, node@, d.deep_view(), show),
{
    let mut marks: Vec<String> = Vec::new();
    assert(marks.deep_view() == Seq::<Seq<char>>::empty());
    add_if(&mut marks, d.local, "local");
    add_if(&mut marks, d.consume, "consume");
    add_if(&mut marks, d.shared, "shared");
    add_if(&mut marks, d.serialized, "serialized");
    add_if(&mut marks, d.divisible, "divisible");
    add_some(&mut marks, note_cfg(&d.cfg, show));
    if marks.len() == 0 {
        cat3(slot, " --> ", node)
    } else {
        let all = join(&marks, " · ");
        cat5(slot, " -- \"", all.as_str(), "\" --> ", node)
    }
}

/// The edge between a signal and a node, dotted or solid, with its label.
pub open spec fn signal_edge(
    from: Seq<char>,
    to: Seq<char>,
    label: Seq<char>,
    dotted: bool,
) -> Seq<char> {
    if label.len() == 0 {
        if dotted {
            from + " -.-> "@ + to
        } else {
            from + " --> "@ + to
        }
    } else if dotted {
        from + " -. \""@ + escaped(label) + "\" .-> "@ + to
    } else {
        from + " -- \""@ + escaped(label) + "\" --> "@ + to
    }
}

pub fn edge_signal(from: &str, to: &str, label: &str, dotted: bool) -> (r: String)
    ensures
        r@ == signal_edge(from@, to@, label@, dotted),
{
    if label.unicode_len() == 0 {
        if dotted {
            cat3(from, " -.-> ", to)
        } else {
            cat3(from, " --> ", to)
        }
    } else {
        let inner = esc(label);
        if dotted {
            cat5(from, " -. \"", inner.as_str(), "\" .-> ", to)
        } else {
            cat5(from, " -- \"", inner.as_str(), "\" --> ", to)
        }
    }
}

/// The label of a declared coupling: its marks and its note.
pub open spec fn coupling_label(s: SignalDeclV, show: bool) -> Seq<char> {
    let a = with_if(Seq::empty(), s.observed, "observed"@);
    let b = with_if(a, s.beat, "beat"@);
    let c = with_if(b, s.veto, "veto"@);
    joined(with_some(c, cfg_note(s.cfg, show)), " · "@)
}

pub fn label_coupling(s: &SignalDecl, show: bool) -> (r: String)
    ensures
        r@ == coupling_label(s.deep_view(), show),
{
    let mut marks: Vec<String> = Vec::new();
    assert(marks.deep_view() == Seq::<Seq<char>>::empty());
    add_if(&mut marks, s.observed, "observed");
    add_if(&mut marks, s.beat, "beat");
    add_if(&mut marks, s.veto, "veto");
    add_some(&mut marks, note_cfg(&s.cfg, show));
    join(&marks, " · ")
}

/// An escaped text can stand inside quotes: it holds none.
pub proof fn an_escaped_label_holds_no_quote(s: Seq<char>)
    ensures
        free_of(escaped(s), '"'),
{
    reveal_strlit("\"");
    reveal_strlit("#quot;");
    assert("\""@ == seq!['"']);
    lemma_replaced_free(s, "\""@, "#quot;"@, '"', 0);
}

} // verus!
