//! Graph bodies: the items of a declaration, in order.

use vstd::prelude::*;
use vstd::string::*;

use crate::ast::{
    reads_of, writes_of, ExecutorItem, ExecutorItemV, GraphSpec, GraphSpecV, Item, ItemV,
    NodeItemV, PoolItemV, SignalDecl, SignalDeclV,
};
use crate::clauses::{clause_cfg, common_clause, ClauseHost};
use crate::list::{put, Dup};
use crate::lists::take_modes;
use crate::local::{check_local, local_fault};
use crate::node::{
    lemma_common_clause, lemma_node_clause, line_at, no_node_clauses, node_clause, node_clauses,
    parse_node, take_node, NodeClausesV,
};
use crate::parse::{
    at_punct, at_word, expected, expected_text, outcome, punct_at, read_attrs, read_expr,
    read_ident, read_punct, take_attrs, take_expr, take_ident, take_punct, verdict, word_at, Fault,
};
use crate::pool::{
    lemma_pool_clause, no_pool_clauses, parse_pool, pool_clause, pool_clauses, take_pool,
    PoolClausesV,
};
use crate::rust::{Attr, AttrV, ExprText, ExprTextV};
use crate::text::{cat3, text};
use crate::token::{lex, lexed, line_of, Delim, Tok, TokV};

verus! {

/// What has been read of a graph body.
#[derive(Debug)]
pub struct GraphState {
    /// The default `observe writes:` accessor.
    pub observe_writes: Option<ExprText>,
    /// The default `observe reads:` accessor.
    pub observe_reads: Option<ExprText>,
    /// The items.
    pub items: Vec<Item>,
    /// The fragment the next item belongs to.
    pub fragment: Option<String>,
}

/// What a [`GraphState`] means.
pub struct GraphStateV {
    pub observe_writes: Option<ExprTextV>,
    pub observe_reads: Option<ExprTextV>,
    pub items: Seq<ItemV>,
    pub fragment: Option<Seq<char>>,
}

impl DeepView for GraphState {
    type V = GraphStateV;

    open spec fn deep_view(&self) -> GraphStateV {
        GraphStateV {
            observe_writes: self.observe_writes.deep_view(),
            observe_reads: self.observe_reads.deep_view(),
            items: self.items.deep_view(),
            fragment: self.fragment.deep_view(),
        }
    }
}

impl Dup for GraphState {
    fn dup(&self) -> (r: Self) {
        GraphState {
            observe_writes: self.observe_writes.dup(),
            observe_reads: self.observe_reads.dup(),
            items: self.items.dup(),
            fragment: self.fragment.dup(),
        }
    }
}


pub const FRAGMENT_WANTED: &'static str = "expected `@fragment NAME;` or `@endfragment;`";

pub const OBSERVE_WANTED: &'static str = "expected `observe writes:` or `observe reads:`";

pub const ITEM_WANTED: &'static str = "expected `node`, `pool`, `executor`, or `observe` (optionally `#[cfg(...)]`-prefixed)";

/// Reads a fragment boundary: the fragment that the next items belong to.
pub open spec fn take_boundary(
    s: Seq<TokV>,
    p: int,
    e: int,
) -> Result<(Option<Seq<char>>, int), Fault> {
    if word_at(s, p + 1, e, "fragment"@) {
        match take_ident(s, p + 2, e) {
            Err(m) => Err(m),
            Ok((name, q)) => match take_punct(s, q, e, ';') {
                Err(m) => Err(m),
                Ok(r) => Ok((Some(name), r)),
            },
        }
    } else if word_at(s, p + 1, e, "endfragment"@) {
        match take_punct(s, p + 2, e, ';') {
            Err(m) => Err(m),
            Ok(r) => Ok((None, r)),
        }
    } else {
        Err(expected(p + 1, e, FRAGMENT_WANTED@))
    }
}

fn read_boundary(toks: &Vec<Tok>, p: usize, e: usize) -> (r: Result<(Option<String>, usize), String>)
    requires
        p < e <= toks@.len(),
    ensures
        outcome(r) == take_boundary(toks.deep_view(), p as int, e as int),
        r matches Ok((_, q)) ==> p < q <= e,
{
    if at_word(toks, p + 1, e, "fragment") {
        let (name, q) = read_ident(toks, p + 2, e)?;
        let r = read_punct(toks, q, e, ';')?;
        Ok((Some(name), r))
    } else if at_word(toks, p + 1, e, "endfragment") {
        let r = read_punct(toks, p + 2, e, ';')?;
        Ok((None, r))
    } else {
        Err(expected_text(p + 1, e, FRAGMENT_WANTED))
    }
}

/// Reads `: accessor ;` of an `observe` default, refused where it was given before.
pub open spec fn take_accessor(s: Seq<TokV>, p: int, e: int, dir: Seq<char>, given: bool) -> Result<
    (ExprTextV, int),
    Fault,
> {
    if given {
        Err("duplicate `observe "@ + dir + ":` default"@)
    } else {
        match take_punct(s, p, e, ':') {
            Err(m) => Err(m),
            Ok(a) => match take_expr(s, a, e) {
                Err(m) => Err(m),
                Ok((x, b)) => match take_punct(s, b, e, ';') {
                    Err(m) => Err(m),
                    Ok(q) => Ok((x, q)),
                },
            },
        }
    }
}

fn read_accessor(toks: &Vec<Tok>, p: usize, e: usize, dir: &str, given: bool) -> (r: Result<
    (ExprText, usize),
    String,
>)
    requires
        p <= e <= toks@.len(),
    ensures
        outcome(r) == take_accessor(toks.deep_view(), p as int, e as int, dir@, given),
        r matches Ok((_, q)) ==> p < q <= e,
{
    if given {
        return Err(cat3("duplicate `observe ", dir, ":` default"));
    }
    let a = read_punct(toks, p, e, ':')?;
    let (x, b) = read_expr(toks, a, e)?;
    let q = read_punct(toks, b, e, ';')?;
    Ok((x, q))
}

/// Reads `NAME ;` of an executor declaration.
pub open spec fn take_executor(s: Seq<TokV>, p: int, e: int, cfg: Seq<AttrV>, default: bool) -> Result<
    (ExecutorItemV, int),
    Fault,
> {
    match take_ident(s, p, e) {
        Err(m) => Err(m),
        Ok((ident, a)) => match take_punct(s, a, e, ';') {
            Err(m) => Err(m),
            Ok(q) => Ok((ExecutorItemV { cfg, ident, line: line_of(s[p]), default }, q)),
        },
    }
}

fn read_executor(toks: &Vec<Tok>, p: usize, e: usize, cfg: Vec<Attr>, default: bool) -> (r: Result<
    (ExecutorItem, usize),
    String,
>)
    requires
        p <= e <= toks@.len(),
    ensures
        outcome(r) == take_executor(toks.deep_view(), p as int, e as int, cfg.deep_view(), default),
        r matches Ok((_, q)) ==> p < q <= e,
{
    let (ident, a) = read_ident(toks, p, e)?;
    let line = line_at(toks, p);
    let q = read_punct(toks, a, e, ';')?;
    Ok((ExecutorItem { cfg, ident, line, default }, q))
}

/// Reads a node, pool or executor at `p`, behind the attributes `cfg`, inside `fragment`.
pub open spec fn take_item(
    s: Seq<TokV>,
    p: int,
    e: int,
    cfg: Seq<AttrV>,
    fragment: Option<Seq<char>>,
) -> Result<(ItemV, int), Fault> {
    if word_at(s, p, e, "node"@) {
        match take_node(s, p, e, cfg) {
            Err(m) => Err(m),
            Ok((n, q)) => Ok((ItemV::Node(NodeItemV { fragment, ..n }), q)),
        }
    } else if word_at(s, p, e, "pool"@) {
        match take_pool(s, p, e, cfg) {
            Err(m) => Err(m),
            Ok((n, q)) => Ok((ItemV::Pool(PoolItemV { fragment, ..n }), q)),
        }
    } else if word_at(s, p, e, "executor"@) {
        match take_executor(s, p + 1, e, cfg, false) {
            Err(m) => Err(m),
            Ok((n, q)) => Ok((ItemV::Executor(n), q)),
        }
    } else if word_at(s, p, e, "default"@) && word_at(s, p + 1, e, "executor"@) {
        match take_executor(s, p + 2, e, cfg, true) {
            Err(m) => Err(m),
            Ok((n, q)) => Ok((ItemV::Executor(n), q)),
        }
    } else {
        Err(expected(p, e, ITEM_WANTED@))
    }
}

fn read_item(toks: &Vec<Tok>, p: usize, e: usize, cfg: Vec<Attr>, fragment: &Option<String>) -> (r:
    Result<(Item, usize), String>)
    requires
        p <= e <= toks@.len(),
    ensures
        outcome(r) == take_item(
            toks.deep_view(),
            p as int,
            e as int,
            cfg.deep_view(),
            fragment.deep_view(),
        ),
        r matches Ok((_, q)) ==> p < q <= e,
{
    if at_word(toks, p, e, "node") {
        let (mut n, q) = parse_node(toks, p, e, cfg)?;
        n.fragment = fragment.dup();
        Ok((Item::Node(n), q))
    } else if at_word(toks, p, e, "pool") {
        let (mut n, q) = parse_pool(toks, p, e, cfg)?;
        n.fragment = fragment.dup();
        Ok((Item::Pool(n), q))
    } else if at_word(toks, p, e, "executor") {
        let (n, q) = read_executor(toks, p + 1, e, cfg, false)?;
        Ok((Item::Executor(n), q))
    } else if at_word(toks, p, e, "default") && at_word(toks, p + 1, e, "executor") {
        let (n, q) = read_executor(toks, p + 2, e, cfg, true)?;
        Ok((Item::Executor(n), q))
    } else {
        Err(expected_text(p, e, ITEM_WANTED))
    }
}

/// Reads what stands at `p` of a graph body into `g`.
pub open spec fn graph_step(g: GraphStateV, s: Seq<TokV>, p: int, e: int) -> Result<
    (GraphStateV, int),
    Fault,
> {
    if punct_at(s, p, e, '@') {
        match take_boundary(s, p, e) {
            Err(m) => Err(m),
            Ok((f, q)) => Ok((GraphStateV { fragment: f, ..g }, q)),
        }
    } else if word_at(s, p, e, "observe"@) {
        if word_at(s, p + 1, e, "writes"@) {
            match take_accessor(s, p + 2, e, "writes"@, g.observe_writes is Some) {
                Err(m) => Err(m),
                Ok((x, q)) => Ok((GraphStateV { observe_writes: Some(x), ..g }, q)),
            }
        } else if word_at(s, p + 1, e, "reads"@) {
            match take_accessor(s, p + 2, e, "reads"@, g.observe_reads is Some) {
                Err(m) => Err(m),
                Ok((x, q)) => Ok((GraphStateV { observe_reads: Some(x), ..g }, q)),
            }
        } else {
            Err(expected(p + 1, e, OBSERVE_WANTED@))
        }
    } else {
        match take_attrs(s, p, e) {
            Err(m) => Err(m),
            Ok((cfg, a)) => match take_item(s, a, e, cfg, g.fragment) {
                Err(m) => Err(m),
                Ok((item, q)) => Ok((GraphStateV { items: g.items.push(item), ..g }, q)),
            },
        }
    }
}

pub proof fn lemma_node_clauses(a: NodeClausesV, s: Seq<TokV>, p: int, e: int)
    requires
        p <= e,
    ensures
        node_clauses(a, s, p, e) matches Ok((_, q)) ==> p <= q <= e,
    decreases e - p,
{
    if punct_at(s, p, e, ',') {
        if let Ok((cfg, q)) = clause_cfg(
            s,
            p + 1,
            e,
            ClauseHost::Node,
        ) {
            lemma_common_clause(a.common, s, q, e, cfg);
            lemma_node_clause(a, s, q, e, cfg);
            match common_clause(a.common, s, q, e, cfg) {
                Err(_) => {},
                Ok(Some((c, r))) => lemma_node_clauses(
                    NodeClausesV { common: c, ..a },
                    s,
                    r,
                    e,
                ),
                Ok(None) => {
                    if let Ok((b, r)) = node_clause(a, s, q, e, cfg) {
                        lemma_node_clauses(b, s, r, e);
                    }
                },
            }
        }
    }
}

pub proof fn lemma_pool_clauses(a: PoolClausesV, s: Seq<TokV>, p: int, e: int)
    requires
        p <= e,
    ensures
        pool_clauses(a, s, p, e) matches Ok((_, q)) ==> p <= q <= e,
    decreases e - p,
{
    if punct_at(s, p, e, ',') {
        if let Ok((cfg, q)) = clause_cfg(
            s,
            p + 1,
            e,
            ClauseHost::Pool,
        ) {
            lemma_common_clause(a.common, s, q, e, cfg);
            lemma_pool_clause(a, s, q, e);
            match common_clause(a.common, s, q, e, cfg) {
                Err(_) => {},
                Ok(Some((c, r))) => lemma_pool_clauses(
                    PoolClausesV { common: c, ..a },
                    s,
                    r,
                    e,
                ),
                Ok(None) => {
                    if let Ok((b, r)) = pool_clause(a, s, q, e) {
                        lemma_pool_clauses(b, s, r, e);
                    }
                },
            }
        }
    }
}

pub proof fn lemma_take_item(
    s: Seq<TokV>,
    p: int,
    e: int,
    cfg: Seq<AttrV>,
    fragment: Option<Seq<char>>,
)
    requires
        p <= e,
    ensures
        take_item(s, p, e, cfg, fragment) matches Ok((_, q)) ==> p < q <= e,
{
    if word_at(s, p, e, "node"@) {
        if p + 4 <= e {
            lemma_node_clauses(no_node_clauses(), s, p + 4, e);
        }
    } else if word_at(s, p, e, "pool"@) {
        if p + 3 <= e {
            crate::node::lemma_group_end(s, p + 3, e, Delim::Bracket);
            if let Ok((modes, d)) = take_modes(s, p + 3, e) {
                lemma_pool_clauses(no_pool_clauses(), s, d, e);
            }
        }
    }
}

pub proof fn lemma_graph_step(g: GraphStateV, s: Seq<TokV>, p: int, e: int)
    requires
        p < e,
    ensures
        graph_step(g, s, p, e) matches Ok((_, q)) ==> p < q <= e,
{
    if let Ok((cfg, a)) = take_attrs(s, p, e) {
        lemma_take_item(s, a, e, cfg, g.fragment);
    }
}

/// Reads the rest of a graph body into `g`.
pub open spec fn graph_steps(g: GraphStateV, s: Seq<TokV>, p: int, e: int) -> Result<GraphStateV, Fault>
    decreases e - p,
{
    if p >= e {
        Ok(g)
    } else {
        match graph_step(g, s, p, e) {
            Err(m) => Err(m),
            Ok((h, q)) => {
                proof {
                    lemma_graph_step(g, s, p, e);
                }
                graph_steps(h, s, q, e)
            },
        }
    }
}

/// Nothing read yet.
pub open spec fn no_graph() -> GraphStateV {
    GraphStateV { observe_writes: None, observe_reads: None, items: Seq::empty(), fragment: None }
}

/// The executor that the items of a graph spawn through by default, from item `i` on.
pub open spec fn default_executor(items: Seq<ItemV>, i: int) -> Option<Seq<char>>
    decreases items.len() - i,
{
    if i >= items.len() {
        None
    } else {
        match items[i] {
            ItemV::Executor(x) => if x.default {
                Some(x.ident)
            } else {
                default_executor(items, i + 1)
            },
            _ => default_executor(items, i + 1),
        }
    }
}

/// An item that names no executor, put on the default one.
pub open spec fn defaulted(item: ItemV, name: Seq<char>) -> ItemV {
    match item {
        ItemV::Node(n) => if n.executor is None {
            ItemV::Node(NodeItemV { executor: Some(name), executor_defaulted: true, ..n })
        } else {
            item
        },
        ItemV::Pool(p) => if p.executor is None {
            ItemV::Pool(PoolItemV { executor: Some(name), executor_defaulted: true, ..p })
        } else {
            item
        },
        ItemV::Executor(_) => item,
    }
}

/// The items of a graph, those that name no executor put on the default one.
pub open spec fn with_default(items: Seq<ItemV>) -> Seq<ItemV> {
    match default_executor(items, 0) {
        None => items,
        Some(name) => Seq::new(items.len(), |i: int| defaulted(items[i], name)),
    }
}

/// The `name: NAME;` that may open a graph body.
pub open spec fn take_name(s: Seq<TokV>, p: int, e: int) -> Result<(Option<Seq<char>>, int), Fault> {
    if word_at(s, p, e, "name"@) && punct_at(s, p + 1, e, ':') {
        match take_ident(s, p + 2, e) {
            Err(m) => Err(m),
            Ok((n, a)) => match take_punct(s, a, e, ';') {
                Err(m) => Err(m),
                Ok(q) => Ok((Some(n), q)),
            },
        }
    } else {
        Ok((None, p))
    }
}

/// What a graph body declares, or what is wrong with it.
pub open spec fn graph_of(s: Seq<TokV>) -> Result<GraphSpecV, Fault> {
    match take_name(s, 0, s.len() as int) {
        Err(m) => Err(m),
        Ok((name, p)) => match graph_steps(no_graph(), s, p, s.len() as int) {
            Err(m) => Err(m),
            Ok(g) => match local_fault(with_default(g.items), 0) {
                Some(m) => Err(m),
                None => if any_loose(g.items) {
                    Err(LOOSE_INDEX@)
                } else {
                    Ok(
                        GraphSpecV {
                            name,
                            observe_writes: g.observe_writes,
                            observe_reads: g.observe_reads,
                            items: with_default(g.items),
                        },
                    )
                },
            },
        },
    }
}

fn read_name(toks: &Vec<Tok>) -> (r: Result<(Option<String>, usize), String>)
    ensures
        outcome(r) == take_name(toks.deep_view(), 0, toks@.len() as int),
        r matches Ok((_, q)) ==> q <= toks@.len(),
{
    let e = toks.len();
    if at_word(toks, 0, e, "name") && at_punct(toks, 1, e, ':') {
        let (n, a) = read_ident(toks, 2, e)?;
        let q = read_punct(toks, a, e, ';')?;
        Ok((Some(n), q))
    } else {
        Ok((None, 0))
    }
}

impl GraphState {
    fn step(&mut self, toks: &Vec<Tok>, p: usize, e: usize) -> (r: Result<usize, String>)
        requires
            p < e <= toks@.len(),
        ensures
            match r {
                Ok(q) => graph_step(old(self).deep_view(), toks.deep_view(), p as int, e as int)
                    == Ok::<(GraphStateV, int), Fault>((final(self).deep_view(), q as int)) && p < q
                    <= e,
                Err(m) => graph_step(old(self).deep_view(), toks.deep_view(), p as int, e as int)
                    == Err::<(GraphStateV, int), Fault>(m@),
            },
    {
        if at_punct(toks, p, e, '@') {
            let (f, q) = read_boundary(toks, p, e)?;
            self.fragment = f;
            Ok(q)
        } else if at_word(toks, p, e, "observe") {
            if at_word(toks, p + 1, e, "writes") {
                let (x, q) = read_accessor(toks, p + 2, e, "writes", self.observe_writes.is_some())?;
                self.observe_writes = Some(x);
                Ok(q)
            } else if at_word(toks, p + 1, e, "reads") {
                let (x, q) = read_accessor(toks, p + 2, e, "reads", self.observe_reads.is_some())?;
                self.observe_reads = Some(x);
                Ok(q)
            } else {
                Err(expected_text(p + 1, e, OBSERVE_WANTED))
            }
        } else {
            let (cfg, a) = read_attrs(toks, p, e)?;
            let (item, q) = read_item(toks, a, e, cfg, &self.fragment)?;
            put(&mut self.items, item);
            Ok(q)
        }
    }
}

fn find_default(items: &Vec<Item>) -> (r: Option<String>)
    ensures
        r.deep_view() == default_executor(items.deep_view(), 0),
{
    let mut i: usize = 0;
    while i < items.len()
        invariant
            i <= items@.len(),
            default_executor(items.deep_view(), 0) == default_executor(items.deep_view(), i as int),
        decreases items@.len() - i,
    {
        if let Item::Executor(x) = &items[i] {
            if x.default {
                return Some(x.ident.clone());
            }
        }
        i = i + 1;
    }
    None
}

fn put_on_default(item: Item, name: &String) -> (r: Item)
    ensures
        r.deep_view() == defaulted(item.deep_view(), name@),
{
    match item {
        Item::Node(mut n) => {
            if n.executor.is_none() {
                n.executor = Some(name.clone());
                n.executor_defaulted = true;
            }
            Item::Node(n)
        },
        Item::Pool(mut p) => {
            if p.executor.is_none() {
                p.executor = Some(name.clone());
                p.executor_defaulted = true;
            }
            Item::Pool(p)
        },
        other => other,
    }
}

fn apply_default(items: Vec<Item>) -> (r: Vec<Item>)
    ensures
        r.deep_view() == with_default(items.deep_view()),
{
    match find_default(&items) {
        None => items,
        Some(name) => {
            let ghost all = with_default(items.deep_view());
            let mut out: Vec<Item> = Vec::new();
            let mut i: usize = 0;
            while i < items.len()
                invariant
                    i <= items@.len(),
                    all == Seq::new(
                        items.deep_view().len(),
                        |k: int| defaulted(items.deep_view()[k], name@),
                    ),
                    out.deep_view() == all.take(i as int),
                decreases items@.len() - i,
            {
                put(&mut out, put_on_default(items[i].dup(), &name));
                i = i + 1;
                assert(out.deep_view() == all.take(i as int));
            }
            assert(all.take(all.len() as int) == all);
            out
        },
    }
}

pub const LOOSE_INDEX: &'static str = "unexpected token, expected `]`";

/// An entry of the list has tokens behind its index.
pub open spec fn loose_in(list: Seq<SignalDeclV>) -> bool {
    exists|k: int| 0 <= k < list.len() && (#[trigger] list[k]).loose
}

/// A signal entry of some item has tokens behind its index.
pub open spec fn any_loose(items: Seq<ItemV>) -> bool {
    exists|i: int|
        0 <= i < items.len() && (loose_in(reads_of(#[trigger] items[i])) || loose_in(
            writes_of(items[i]),
        ))
}

fn has_loose_in(list: &Vec<SignalDecl>) -> (r: bool)
    ensures
        r == loose_in(list.deep_view()),
{
    let ghost l = list.deep_view();
    let mut k: usize = 0;
    while k < list.len()
        invariant
            k <= list@.len(),
            l == list.deep_view(),
            forall|m: int| 0 <= m < k ==> !(#[trigger] l[m]).loose,
        decreases list@.len() - k,
    {
        assert(l[k as int].loose == list@[k as int].loose);
        if list[k].loose {
            return true;
        }
        k = k + 1;
    }
    false
}

fn has_loose(items: &Vec<Item>) -> (r: bool)
    ensures
        r == any_loose(items.deep_view()),
{
    let ghost all = items.deep_view();
    let mut i: usize = 0;
    while i < items.len()
        invariant
            i <= items@.len(),
            all == items.deep_view(),
            forall|m: int|
                0 <= m < i ==> !loose_in(reads_of(#[trigger] all[m])) && !loose_in(writes_of(all[m])),
        decreases items@.len() - i,
    {
        assert(all[i as int] == items@[i as int].deep_view());
        let loose = match &items[i] {
            Item::Node(n) => has_loose_in(&n.reads) || has_loose_in(&n.writes),
            Item::Pool(p) => has_loose_in(&p.reads) || has_loose_in(&p.writes),
            Item::Executor(_) => false,
        };
        if loose {
            return true;
        }
        i = i + 1;
    }
    false
}

/// The graph that a text declares, or the complaint on it.
pub open spec fn graph_text(src: Seq<char>) -> Result<GraphSpecV, Fault> {
    match lexed(src) {
        Ok(s) => graph_of(s),
        Err((_, m)) => Err(m),
    }
}

impl GraphSpec {
    /// Parses a graph body.
    pub fn parse(toks: &Vec<Tok>) -> (r: Result<GraphSpec, String>)
        ensures
            verdict(r) == graph_of(toks.deep_view()),
    {
        let (name, start) = read_name(toks)?;
        let e = toks.len();
        let ghost s = toks.deep_view();
        let mut g = GraphState {
            observe_writes: None,
            observe_reads: None,
            items: Vec::new(),
            fragment: None,
        };
        assert(g.items.deep_view() == Seq::<ItemV>::empty());
        let mut i: usize = start;
        while i < e
            invariant
                i <= e == toks@.len(),
                s == toks.deep_view(),
                graph_steps(no_graph(), s, start as int, e as int) == graph_steps(
                    g.deep_view(),
                    s,
                    i as int,
                    e as int,
                ),
                take_name(s, 0, e as int) == Ok::<(Option<Seq<char>>, int), Fault>(
                    (name.deep_view(), start as int),
                ),
            decreases e - i,
        {
            i = g.step(toks, i, e)?;
        }
        let loose = has_loose(&g.items);
        let items = apply_default(g.items);
        check_local(&items)?;
        if loose {
            return Err(text(LOOSE_INDEX));
        }
        Ok(
            GraphSpec {
                name,
                observe_writes: g.observe_writes,
                observe_reads: g.observe_reads,
                items,
            },
        )
    }

    /// Parses the text of a graph body.
    pub fn parse_str(src: &str) -> (r: Result<GraphSpec, String>)
        ensures
            verdict(r) == graph_text(src@),
    {
        match lex(src) {
            Ok(toks) => GraphSpec::parse(&toks),
            Err(e) => Err(e.message),
        }
    }
}

} // verus!
