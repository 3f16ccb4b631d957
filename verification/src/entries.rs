//! The `reads:` and `writes:` entries of a graph, and what comes of each.

use vstd::prelude::*;

use crate::ast::{signal_name, ItemV, SignalDeclV};
use crate::coupling::{
    coupled, couplings, couplings_from, has_key, key_of, keys_from, signal_keys, signals_of,
    CouplingV, SignalKeyV,
};

verus! {

/// A node or pool named `node` has this entry in its `writes:` list.
pub open spec fn writes_entry(item: ItemV, node: Seq<char>, s: SignalDeclV) -> bool {
    match item {
        ItemV::Node(n) => n.ident == node && n.writes.contains(s),
        ItemV::Pool(p) => p.ident == node && p.writes.contains(s),
        ItemV::Executor(_) => false,
    }
}

/// A node or pool named `node` has this entry in its `reads:` list.
pub open spec fn reads_entry(item: ItemV, node: Seq<char>, s: SignalDeclV) -> bool {
    match item {
        ItemV::Node(n) => n.ident == node && n.reads.contains(s),
        ItemV::Pool(p) => p.ident == node && p.reads.contains(s),
        ItemV::Executor(_) => false,
    }
}

/// Some item has this entry: in its `writes:` list, or in its `reads:` list.
pub open spec fn declares(items: Seq<ItemV>, node: Seq<char>, write: bool, s: SignalDeclV) -> bool {
    exists|k: int|
        0 <= k < items.len() && (if write {
            writes_entry(#[trigger] items[k], node, s)
        } else {
            reads_entry(items[k], node, s)
        })
}

proof fn lemma_coupled(node: Seq<char>, write: bool, sigs: Seq<SignalDeclV>, c: CouplingV)
    ensures
        coupled(node, write, sigs).contains(c) <==> c.node == node && c.write == write && sigs.contains(
            c.sig,
        ),
{
    let all = coupled(node, write, sigs);
    if c.node == node && c.write == write && sigs.contains(c.sig) {
        let m = choose|m: int| 0 <= m < sigs.len() && sigs[m] == c.sig;
        assert(all[m] == c);
    }
    if all.contains(c) {
        let m = choose|m: int| 0 <= m < all.len() && all[m] == c;
        assert(sigs[m] == c.sig);
    }
}

pub(crate) proof fn lemma_sum<A>(a: Seq<A>, b: Seq<A>, x: A)
    ensures
        (a + b).contains(x) <==> a.contains(x) || b.contains(x),
{
    let all = a + b;
    if a.contains(x) {
        let m = choose|m: int| 0 <= m < a.len() && a[m] == x;
        assert(all[m] == x);
    }
    if b.contains(x) {
        let m = choose|m: int| 0 <= m < b.len() && b[m] == x;
        assert(all[a.len() + m] == x);
    }
    if all.contains(x) {
        let m = choose|m: int| 0 <= m < all.len() && all[m] == x;
        if m >= a.len() {
            assert(b[m - a.len()] == x);
        }
    }
}

proof fn lemma_signals_of(item: ItemV, c: CouplingV)
    ensures
        signals_of(item).contains(c) <==> (if c.write {
            writes_entry(item, c.node, c.sig)
        } else {
            reads_entry(item, c.node, c.sig)
        }),
{
    match item {
        ItemV::Node(n) => {
            lemma_coupled(n.ident, true, n.writes, c);
            lemma_coupled(n.ident, false, n.reads, c);
            lemma_sum(coupled(n.ident, true, n.writes), coupled(n.ident, false, n.reads), c);
        },
        ItemV::Pool(p) => {
            lemma_coupled(p.ident, true, p.writes, c);
            lemma_coupled(p.ident, false, p.reads, c);
            lemma_sum(coupled(p.ident, true, p.writes), coupled(p.ident, false, p.reads), c);
        },
        ItemV::Executor(_) => {},
    }
}

proof fn lemma_couplings_from(items: Seq<ItemV>, i: int, acc: Seq<CouplingV>, c: CouplingV)
    requires
        0 <= i,
    ensures
        couplings_from(items, i, acc).contains(c) <==> acc.contains(c) || exists|k: int|
            i <= k < items.len() && (if c.write {
                writes_entry(#[trigger] items[k], c.node, c.sig)
            } else {
                reads_entry(items[k], c.node, c.sig)
            }),
    decreases items.len() - i,
{
    if i < items.len() {
        lemma_couplings_from(items, i + 1, acc + signals_of(items[i]), c);
        lemma_sum(acc, signals_of(items[i]), c);
        lemma_signals_of(items[i], c);
    }
}

/// The couplings of a graph are its `writes:` and `reads:` entries: each entry of each node and
/// pool makes one, of its own direction, and nothing else does.
pub proof fn the_couplings_are_the_entries(items: Seq<ItemV>, c: CouplingV)
    ensures
        couplings(items).contains(c) <==> declares(items, c.node, c.write, c.sig),
{
    lemma_couplings_from(items, 0, Seq::empty(), c);
}

proof fn lemma_keys_have(list: Seq<CouplingV>, i: int, acc: Seq<SignalKeyV>, x: Seq<char>)
    requires
        0 <= i,
    ensures
        has_key(keys_from(list, i, acc), x) <==> has_key(acc, x) || exists|k: int|
            i <= k < list.len() && signal_name((#[trigger] list[k]).sig) == x,
    decreases list.len() - i,
{
    if i < list.len() {
        let k = key_of(list[i].sig);
        let next = if has_key(acc, k.key) {
            acc
        } else {
            acc.push(k)
        };
        lemma_keys_have(list, i + 1, next, x);
        if !has_key(acc, k.key) {
            assert(next[acc.len() as int].key == k.key);
            if has_key(acc, x) {
                let m = choose|m: int| 0 <= m < acc.len() && #[trigger] acc[m].key == x;
                assert(next[m].key == x);
            }
            if has_key(next, x) && !has_key(acc, x) {
                let m = choose|m: int| 0 <= m < next.len() && #[trigger] next[m].key == x;
                if m < acc.len() {
                    assert(acc[m].key == x);
                }
                assert(x == k.key);
            }
        }
        assert(k.key == signal_name(list[i].sig));
    }
}

/// The signals of a graph are those that its entries name.
pub proof fn the_signals_are_those_of_the_entries(items: Seq<ItemV>, x: Seq<char>)
    ensures
        has_key(signal_keys(items), x) <==> exists|node: Seq<char>, write: bool, s: SignalDeclV|
            #[trigger] declares(items, node, write, s) && signal_name(s) == x,
{
    let list = couplings(items);
    lemma_keys_have(list, 0, Seq::empty(), x);
    if has_key(signal_keys(items), x) {
        let k = choose|k: int| 0 <= k < list.len() && signal_name((#[trigger] list[k]).sig) == x;
        assert(list.contains(list[k]));
        the_couplings_are_the_entries(items, list[k]);
    }
    if exists|node: Seq<char>, write: bool, s: SignalDeclV|
        #[trigger] declares(items, node, write, s) && signal_name(s) == x {
        let (node, write, s) = choose|node: Seq<char>, write: bool, s: SignalDeclV|
            #[trigger] declares(items, node, write, s) && signal_name(s) == x;
        let c = CouplingV { node, write, sig: s };
        the_couplings_are_the_entries(items, c);
        let k = choose|k: int| 0 <= k < list.len() && list[k] == c;
        assert(signal_name(list[k].sig) == x);
    }
}

} // verus!
