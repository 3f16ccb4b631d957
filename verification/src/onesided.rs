//! What a lint reports: the one-sided signals of the declared entries, all of them and no others.

use vstd::prelude::*;

use crate::ast::{boxed_name, signal_name, ItemV, SignalDeclV};
use crate::bindings::FnRef;
use crate::coupling::{
    couplings, declared_signals, first_access, flow_fns, paths_alias, whole_of, CouplingV,
};
use crate::discover::{gate_of, item_gates, module_name, BundleV, DiscoveredV, GateStaticV};
use crate::entries::{declares, the_couplings_are_the_entries};
use crate::find::DeclV;
use crate::lint::{
    allowed_by, coupling_lints, covered_from, declared_use, declared_uses, discovered_uses,
    findings, gate_texts, joined_sides, keys_of, linted, linted_decls, linted_sides, merged,
    no_lints, noted, noted_from, side_at, sides_of, stale_text, unused, used, uses_of, with_access,
    with_accesses, with_name, with_names, with_stale, FoundV, LintCats, Lints, SidesV, UseV, ADVICE,
    BYPASSED,
};
use crate::scan::SrcItemV;
use crate::text::{contains, decimal, find, joined, lemma_find_from, stands_at, starts_with};

verus! {

/// Some use writes the signal, by `node`.
pub open spec fn is_written(uses: Seq<UseV>, key: Seq<char>, node: Seq<char>) -> bool {
    exists|m: int|
        0 <= m < uses.len() && (#[trigger] uses[m]).key == key && uses[m].write && uses[m].node == node
}

/// Some use reads the signal, by `node`.
pub open spec fn is_read(uses: Seq<UseV>, key: Seq<char>, node: Seq<char>) -> bool {
    exists|m: int|
        0 <= m < uses.len() && (#[trigger] uses[m]).key == key && !uses[m].write && uses[m].node == node
}

/// Some use of the signal is one that the supervisor itself consumes.
pub open spec fn is_consumed(uses: Seq<UseV>, key: Seq<char>) -> bool {
    exists|m: int| 0 <= m < uses.len() && (#[trigger] uses[m]).key == key && uses[m].monitor
}

/// Some use is of the signal.
pub open spec fn is_used(uses: Seq<UseV>, key: Seq<char>) -> bool {
    exists|m: int| 0 <= m < uses.len() && (#[trigger] uses[m]).key == key
}

proof fn lemma_one_more(uses: Seq<UseV>, u: UseV, key: Seq<char>, node: Seq<char>)
    ensures
        is_written(uses.push(u), key, node) <==> is_written(uses, key, node) || (u.key == key && u.write
            && u.node == node),
        is_read(uses.push(u), key, node) <==> is_read(uses, key, node) || (u.key == key && !u.write
            && u.node == node),
        is_consumed(uses.push(u), key) <==> is_consumed(uses, key) || (u.key == key && u.monitor),
        is_used(uses.push(u), key) <==> is_used(uses, key) || u.key == key,
{
    let all = uses.push(u);
    assert(all[uses.len() as int] == u);
    assert forall|m: int| 0 <= m < uses.len() implies #[trigger] all[m] == uses[m] by {}
    if is_written(uses, key, node) {
        let m = choose|m: int|
            0 <= m < uses.len() && (#[trigger] uses[m]).key == key && uses[m].write && uses[m].node
                == node;
        assert(all[m] == uses[m]);
    }
    if is_read(uses, key, node) {
        let m = choose|m: int|
            0 <= m < uses.len() && (#[trigger] uses[m]).key == key && !uses[m].write && uses[m].node
                == node;
        assert(all[m] == uses[m]);
    }
    if is_consumed(uses, key) {
        let m = choose|m: int| 0 <= m < uses.len() && (#[trigger] uses[m]).key == key && uses[m].monitor;
        assert(all[m] == uses[m]);
    }
    if is_used(uses, key) {
        let m = choose|m: int| 0 <= m < uses.len() && (#[trigger] uses[m]).key == key;
        assert(all[m] == uses[m]);
    }
    if is_written(all, key, node) {
        let m = choose|m: int|
            0 <= m < all.len() && (#[trigger] all[m]).key == key && all[m].write && all[m].node == node;
        if m < uses.len() {
            assert(uses[m] == all[m]);
        }
    }
    if is_read(all, key, node) {
        let m = choose|m: int|
            0 <= m < all.len() && (#[trigger] all[m]).key == key && !all[m].write && all[m].node == node;
        if m < uses.len() {
            assert(uses[m] == all[m]);
        }
    }
    if is_consumed(all, key) {
        let m = choose|m: int| 0 <= m < all.len() && (#[trigger] all[m]).key == key && all[m].monitor;
        if m < uses.len() {
            assert(uses[m] == all[m]);
        }
    }
    if is_used(all, key) {
        let m = choose|m: int| 0 <= m < all.len() && (#[trigger] all[m]).key == key;
        if m < uses.len() {
            assert(uses[m] == all[m]);
        }
    }
}

/// The side has the writers and readers of its signal, and knows whether the supervisor consumes it.
pub open spec fn sums(s: SidesV, uses: Seq<UseV>) -> bool {
    &&& forall|x: Seq<char>| #[trigger] s.writers.contains(x) <==> is_written(uses, s.key, x)
    &&& forall|x: Seq<char>| #[trigger] s.readers.contains(x) <==> is_read(uses, s.key, x)
    &&& s.monitored == is_consumed(uses, s.key)
}

/// There is one side for each signal that is used.
pub open spec fn sums_all(sides: Seq<SidesV>, uses: Seq<UseV>) -> bool {
    &&& forall|a: int, b: int|
        #![trigger sides[a], sides[b]]
        0 <= a < b < sides.len() ==> sides[a].key != sides[b].key
    &&& forall|k: int| 0 <= k < sides.len() ==> sums(#[trigger] sides[k], uses)
    &&& forall|k: int| 0 <= k < sides.len() ==> is_used(uses, (#[trigger] sides[k]).key)
    &&& forall|m: int| 0 <= m < uses.len() ==> has_side(sides, (#[trigger] uses[m]).key)
}

/// A signal has a side.
pub open spec fn has_side(sides: Seq<SidesV>, key: Seq<char>) -> bool {
    exists|k: int| 0 <= k < sides.len() && (#[trigger] sides[k]).key == key
}

proof fn lemma_side_at(sides: Seq<SidesV>, key: Seq<char>, i: int)
    requires
        0 <= i <= sides.len(),
    ensures
        i <= side_at(sides, key, i) <= sides.len(),
        side_at(sides, key, i) < sides.len() ==> sides[side_at(sides, key, i)].key == key,
        forall|k: int| i <= k < side_at(sides, key, i) ==> (#[trigger] sides[k]).key != key,
    decreases sides.len() - i,
{
    if i < sides.len() && sides[i].key != key {
        lemma_side_at(sides, key, i + 1);
    }
}

proof fn lemma_with_name(list: Seq<Seq<char>>, name: Seq<char>, x: Seq<char>)
    ensures
        with_name(list, name).contains(x) <==> list.contains(x) || x == name,
{
    if !list.contains(name) {
        let all = list.push(name);
        assert(all[list.len() as int] == name);
        if list.contains(x) {
            let m = choose|m: int| 0 <= m < list.len() && list[m] == x;
            assert(all[m] == x);
        }
        if all.contains(x) {
            let m = choose|m: int| 0 <= m < all.len() && all[m] == x;
            if m < list.len() {
                assert(list[m] == x);
            }
        }
    }
}

proof fn lemma_used(s: SidesV, uses: Seq<UseV>, u: UseV)
    requires
        sums(s, uses),
        u.key == s.key,
    ensures
        sums(used(s, u), uses.push(u)),
{
    let t = used(s, u);
    assert forall|x: Seq<char>| #[trigger] t.writers.contains(x) <==> is_written(uses.push(u), t.key, x) by {
        lemma_one_more(uses, u, s.key, x);
        lemma_with_name(s.writers, u.node, x);
        assert(s.writers.contains(x) <==> is_written(uses, s.key, x));
    }
    assert forall|x: Seq<char>| #[trigger] t.readers.contains(x) <==> is_read(uses.push(u), t.key, x) by {
        lemma_one_more(uses, u, s.key, x);
        lemma_with_name(s.readers, u.node, x);
        assert(s.readers.contains(x) <==> is_read(uses, s.key, x));
    }
    lemma_one_more(uses, u, s.key, u.node);
}

proof fn lemma_untouched(s: SidesV, uses: Seq<UseV>, u: UseV)
    requires
        sums(s, uses),
        u.key != s.key,
    ensures
        sums(s, uses.push(u)),
{
    assert forall|x: Seq<char>| #[trigger] s.writers.contains(x) <==> is_written(uses.push(u), s.key, x) by {
        lemma_one_more(uses, u, s.key, x);
    }
    assert forall|x: Seq<char>| #[trigger] s.readers.contains(x) <==> is_read(uses.push(u), s.key, x) by {
        lemma_one_more(uses, u, s.key, x);
    }
    lemma_one_more(uses, u, s.key, u.node);
}

proof fn lemma_fresh(uses: Seq<UseV>, key: Seq<char>)
    requires
        !is_used(uses, key),
    ensures
        sums(unused(key), uses),
{
    let s = unused(key);
    assert forall|x: Seq<char>| #[trigger] s.writers.contains(x) <==> is_written(uses, key, x) by {
        if is_written(uses, key, x) {
            let m = choose|m: int|
                0 <= m < uses.len() && (#[trigger] uses[m]).key == key && uses[m].write && uses[m].node == x;
            assert(is_used(uses, key));
        }
    }
    assert forall|x: Seq<char>| #[trigger] s.readers.contains(x) <==> is_read(uses, key, x) by {
        if is_read(uses, key, x) {
            let m = choose|m: int|
                0 <= m < uses.len() && (#[trigger] uses[m]).key == key && !uses[m].write && uses[m].node == x;
            assert(is_used(uses, key));
        }
    }
    if is_consumed(uses, key) {
        let m = choose|m: int| 0 <= m < uses.len() && (#[trigger] uses[m]).key == key && uses[m].monitor;
        assert(is_used(uses, key));
    }
}

proof fn lemma_noted(sides: Seq<SidesV>, uses: Seq<UseV>, u: UseV)
    requires
        sums_all(sides, uses),
    ensures
        sums_all(noted(sides, u), uses.push(u)),
{
    let at = side_at(sides, u.key, 0);
    let next = noted(sides, u);
    let all = uses.push(u);
    lemma_side_at(sides, u.key, 0);
    if at >= sides.len() {
        assert(!is_used(uses, u.key)) by {
            if is_used(uses, u.key) {
                let m = choose|m: int| 0 <= m < uses.len() && (#[trigger] uses[m]).key == u.key;
                let k = choose|k: int| 0 <= k < sides.len() && (#[trigger] sides[k]).key == uses[m].key;
                assert(sides[k].key == u.key);
            }
        }
        lemma_fresh(uses, u.key);
        lemma_used(unused(u.key), uses, u);
    } else {
        lemma_used(sides[at], uses, u);
    }
    assert forall|k: int| 0 <= k < next.len() implies sums(#[trigger] next[k], all) by {
        if k < sides.len() && k != at {
            assert(next[k] == sides[k]);
            if sides[k].key == u.key {
                assert(at < sides.len());
                if k < at {
                    assert(sides[k].key != sides[at].key);
                } else {
                    assert(sides[at].key != sides[k].key);
                }
            }
            lemma_untouched(sides[k], uses, u);
        }
    }
    assert forall|k: int| 0 <= k < next.len() implies is_used(all, (#[trigger] next[k]).key) by {
        lemma_one_more(uses, u, next[k].key, u.node);
        if k < sides.len() {
            assert(next[k].key == sides[k].key);
        }
    }
    assert forall|m: int| 0 <= m < all.len() implies has_side(next, (#[trigger] all[m]).key) by {
        if m < uses.len() {
            assert(all[m] == uses[m]);
            let k = choose|k: int| 0 <= k < sides.len() && (#[trigger] sides[k]).key == uses[m].key;
            assert(next[k].key == uses[m].key);
        } else if at < sides.len() {
            assert(next[at].key == u.key);
        } else {
            assert(next[sides.len() as int].key == u.key);
        }
    }
    assert forall|a: int, b: int|
        #![trigger next[a], next[b]]
        0 <= a < b < next.len() implies next[a].key != next[b].key by {
        assert(next[a].key == sides[a].key);
        if b < sides.len() {
            assert(next[b].key == sides[b].key);
            assert(sides[a].key != sides[b].key);
        } else {
            assert(sides[a].key != u.key);
        }
    }
}

proof fn lemma_noted_from(uses: Seq<UseV>, i: int, acc: Seq<SidesV>)
    requires
        0 <= i <= uses.len(),
        sums_all(acc, uses.take(i)),
    ensures
        sums_all(noted_from(uses, i, acc), uses),
    decreases uses.len() - i,
{
    if i < uses.len() {
        lemma_noted(acc, uses.take(i), uses[i]);
        assert(uses.take(i).push(uses[i]) == uses.take(i + 1));
        lemma_noted_from(uses, i + 1, noted(acc, uses[i]));
    } else {
        assert(uses.take(i) == uses);
    }
}

/// The sides of a signal, with those of others added to them.
pub open spec fn grown(a: SidesV, b: SidesV) -> bool {
    &&& a.key == b.key
    &&& a.monitored == b.monitored
    &&& forall|x: Seq<char>| #[trigger] a.writers.contains(x) ==> b.writers.contains(x)
    &&& forall|x: Seq<char>| #[trigger] a.readers.contains(x) ==> b.readers.contains(x)
}

/// Every side grown.
pub open spec fn all_grown(a: Seq<SidesV>, b: Seq<SidesV>) -> bool {
    a.len() == b.len() && forall|k: int| 0 <= k < a.len() ==> grown(#[trigger] a[k], b[k])
}

proof fn lemma_names_kept(list: Seq<Seq<char>>, more: Seq<Seq<char>>, i: int, x: Seq<char>)
    requires
        0 <= i,
        list.contains(x),
    ensures
        with_names(list, more, i).contains(x),
    decreases more.len() - i,
{
    if i < more.len() {
        lemma_with_name(list, more[i], x);
        lemma_names_kept(with_name(list, more[i]), more, i + 1, x);
    }
}

proof fn lemma_merged(sides: Seq<SidesV>, from: int, to: int)
    ensures
        all_grown(sides, merged(sides, from, to)),
{
    if 0 <= from < sides.len() && 0 <= to < sides.len() {
        let s = sides[to];
        let o = sides[from];
        let t = joined_sides(s, o);
        assert(grown(s, t)) by {
            assert forall|x: Seq<char>| #[trigger] s.writers.contains(x) implies t.writers.contains(x) by {
                lemma_names_kept(s.writers, o.writers, 0, x);
            }
            assert forall|x: Seq<char>| #[trigger] s.readers.contains(x) implies t.readers.contains(x) by {
                lemma_names_kept(s.readers, o.readers, 0, x);
            }
        }
    }
}

proof fn lemma_grown_on(a: Seq<SidesV>, b: Seq<SidesV>, c: Seq<SidesV>)
    requires
        all_grown(a, b),
        all_grown(b, c),
    ensures
        all_grown(a, c),
{
    assert forall|k: int| 0 <= k < a.len() implies grown(#[trigger] a[k], c[k]) by {
        assert(grown(b[k], c[k]));
    }
}

proof fn lemma_covered(keys: Seq<Seq<char>>, i: int, sides: Seq<SidesV>)
    requires
        0 <= i,
    ensures
        all_grown(sides, covered_from(keys, i, sides)),
        (forall|k: int| i <= k < keys.len() ==> whole_of(keys, #[trigger] keys[k]) is None)
            ==> covered_from(keys, i, sides) == sides,
    decreases keys.len() - i,
{
    if i < keys.len() {
        let next = match whole_of(keys, keys[i]) {
            Some(whole) => {
                let from = side_at(sides, keys[i], 0);
                let to = side_at(sides, whole, 0);
                lemma_merged(sides, from, to);
                lemma_merged(merged(sides, from, to), to, from);
                lemma_grown_on(
                    sides,
                    merged(sides, from, to),
                    merged(merged(sides, from, to), to, from),
                );
                merged(merged(sides, from, to), to, from)
            },
            None => sides,
        };
        lemma_covered(keys, i + 1, next);
        if whole_of(keys, keys[i]) is Some {
            lemma_grown_on(sides, next, covered_from(keys, i + 1, next));
        }
    }
}

proof fn lemma_accesses_extend(
    funcs: Seq<FnRef>,
    module: Seq<char>,
    node: Seq<char>,
    discovered: Seq<DiscoveredV>,
    declared: Seq<Seq<char>>,
    j: int,
    f: FoundV,
)
    requires
        0 <= j,
    ensures
        f.uses.is_prefix_of(
            with_accesses(funcs, module, node, discovered, declared, j, f).uses,
        ),
    decreases discovered.len() - j,
{
    assert(f.uses.subrange(0, f.uses.len() as int) == f.uses);
    if j < discovered.len() {
        let next = if first_access(funcs, discovered, module, j) {
            with_access(node, discovered[j], declared, f)
        } else {
            f
        };
        lemma_accesses_extend(funcs, module, node, discovered, declared, j + 1, next);
        let last = with_accesses(funcs, module, node, discovered, declared, j + 1, next).uses;
        assert(next.uses.subrange(0, f.uses.len() as int) == f.uses);
        assert(last.subrange(0, next.uses.len() as int).subrange(0, f.uses.len() as int)
            == last.subrange(0, f.uses.len() as int));
    }
}

proof fn lemma_discovered_extend(
    items: Seq<ItemV>,
    module: Seq<char>,
    discovered: Seq<DiscoveredV>,
    bundles: Seq<BundleV>,
    declared: Seq<Seq<char>>,
    i: int,
    f: FoundV,
)
    requires
        0 <= i,
    ensures
        f.uses.is_prefix_of(
            discovered_uses(items, module, discovered, bundles, declared, i, f).uses,
        ),
        discovered.len() == 0 ==> discovered_uses(items, module, discovered, bundles, declared, i, f)
            == f,
    decreases items.len() - i,
{
    assert(f.uses.subrange(0, f.uses.len() as int) == f.uses);
    if i < items.len() {
        let next = match boxed_name(items[i]) {
            Some(name) => {
                lemma_accesses_extend(
                    flow_fns(items[i], bundles),
                    module,
                    name,
                    discovered,
                    declared,
                    0,
                    f,
                );
                with_accesses(flow_fns(items[i], bundles), module, name, discovered, declared, 0, f)
            },
            None => f,
        };
        lemma_discovered_extend(items, module, discovered, bundles, declared, i + 1, next);
        let last = discovered_uses(items, module, discovered, bundles, declared, i + 1, next).uses;
        assert(last.subrange(0, next.uses.len() as int).subrange(0, f.uses.len() as int)
            == last.subrange(0, f.uses.len() as int));
    }
}

proof fn lemma_entry_used(
    d: DeclV,
    discovered: Seq<DiscoveredV>,
    bundles: Seq<BundleV>,
    node: Seq<char>,
    write: bool,
    s: SignalDeclV,
)
    requires
        declares(d.spec.items, node, write, s),
    ensures
        write ==> is_written(uses_of(d, discovered, bundles), signal_name(s), node),
        !write ==> is_read(uses_of(d, discovered, bundles), signal_name(s), node),
        write && (s.observed || s.beat) ==> is_consumed(uses_of(d, discovered, bundles), signal_name(s)),
{
    let items = d.spec.items;
    let c = CouplingV { node, write, sig: s };
    the_couplings_are_the_entries(items, c);
    let list = couplings(items);
    let m = choose|m: int| 0 <= m < list.len() && list[m] == c;
    let first = declared_uses(list);
    assert(first[m] == declared_use(c));
    let declared = declared_signals(items);
    lemma_discovered_extend(
        items,
        module_name(d.origin),
        discovered,
        bundles,
        declared,
        0,
        FoundV { emitted: declared, uses: first },
    );
    let uses = uses_of(d, discovered, bundles);
    assert(uses.subrange(0, first.len() as int)[m] == uses[m]);
    assert(uses[m] == declared_use(c));
}

/// What a warning on a signal that is only written says.
pub open spec fn dead_text(key: Seq<char>, writers: Seq<Seq<char>>) -> Seq<char> {
    "dead write: `"@ + key + "` is written by "@ + joined(writers, ", "@)
        + " but nothing in this graph reads it"@
}

/// What a warning on a signal that is only read says.
pub open spec fn orphan_text(key: Seq<char>, readers: Seq<Seq<char>>) -> Seq<char> {
    "orphan read: `"@ + key + "` is read by "@ + joined(readers, ", "@)
        + " but nothing in this graph writes it"@
}

/// No entry allows the signal.
pub open spec fn allows_none(allow: Seq<Seq<char>>, key: Seq<char>) -> bool {
    forall|k: int| 0 <= k < allow.len() ==> !paths_alias(key, #[trigger] allow[k])
}

/// No entry of the items reads the signal, none that writes it is marked `observed` or `beat`, and
/// whoever declares to write it is named.
pub open spec fn only_written(items: Seq<ItemV>, key: Seq<char>, writers: Seq<Seq<char>>) -> bool {
    &&& writers.len() > 0
    &&& forall|node: Seq<char>, s: SignalDeclV|
        signal_name(s) == key ==> !#[trigger] declares(items, node, false, s)
    &&& forall|node: Seq<char>, s: SignalDeclV|
        signal_name(s) == key && #[trigger] declares(items, node, true, s) ==> writers.contains(node)
            && !s.observed && !s.beat
}

/// No entry of the items writes the signal, and whoever declares to read it is named.
pub open spec fn only_read(items: Seq<ItemV>, key: Seq<char>, readers: Seq<Seq<char>>) -> bool {
    &&& readers.len() > 0
    &&& forall|node: Seq<char>, s: SignalDeclV|
        signal_name(s) == key ==> !#[trigger] declares(items, node, true, s)
    &&& forall|node: Seq<char>, s: SignalDeclV|
        signal_name(s) == key && #[trigger] declares(items, node, false, s) ==> readers.contains(node)
}

/// A warning is on a signal of the declaration that is written and not read.
pub open spec fn reports_dead(
    w: Seq<char>,
    d: DeclV,
    cats: LintCats,
    allow: Seq<Seq<char>>,
) -> bool {
    cats.dead_writes && exists|key: Seq<char>, writers: Seq<Seq<char>>|
        w == #[trigger] dead_text(key, writers) && only_written(d.spec.items, key, writers)
            && allows_none(allow, key)
}

/// A warning is on a signal of the declaration that is read and not written.
pub open spec fn reports_orphan(
    w: Seq<char>,
    d: DeclV,
    cats: LintCats,
    allow: Seq<Seq<char>>,
) -> bool {
    cats.orphan_reads && exists|key: Seq<char>, readers: Seq<Seq<char>>|
        w == #[trigger] orphan_text(key, readers) && only_read(d.spec.items, key, readers)
            && allows_none(allow, key)
}

/// A warning is on an allowing entry.
pub open spec fn reports_stale(w: Seq<char>, allow: Seq<Seq<char>>) -> bool {
    exists|k: int|
        0 <= k < allow.len() && w == "`--allow "@ + (#[trigger] allow[k])
            + "` suppressed nothing — a stale entry, or a typo'd signal"@
}

/// Some declaration has what a warning says.
pub open spec fn called_for(
    w: Seq<char>,
    decls: Seq<DeclV>,
    cats: LintCats,
    allow: Seq<Seq<char>>,
) -> bool {
    exists|i: int|
        0 <= i < decls.len() && (reports_dead(w, #[trigger] decls[i], cats, allow) || reports_orphan(
            w,
            decls[i],
            cats,
            allow,
        ))
}

proof fn lemma_allowed(key: Seq<char>, allow: Seq<Seq<char>>, i: int)
    requires
        0 <= i <= allow.len(),
    ensures
        i <= allowed_by(key, allow, i) <= allow.len(),
        allowed_by(key, allow, i) < allow.len() ==> paths_alias(key, allow[allowed_by(key, allow, i)]),
        allowed_by(key, allow, i) == allow.len() ==> forall|k: int|
            i <= k < allow.len() ==> !paths_alias(key, #[trigger] allow[k]),
    decreases allow.len() - i,
{
    if i < allow.len() && !paths_alias(key, allow[i]) {
        lemma_allowed(key, allow, i + 1);
    }
}

proof fn lemma_sides(d: DeclV, discovered: Seq<DiscoveredV>, bundles: Seq<BundleV>)
    ensures
        ({
            let plain = noted_from(uses_of(d, discovered, bundles), 0, Seq::empty());
            &&& sums_all(plain, uses_of(d, discovered, bundles))
            &&& all_grown(plain, sides_of(d, discovered, bundles))
        }),
{
    let uses = uses_of(d, discovered, bundles);
    assert(uses.take(0) == Seq::<UseV>::empty());
    lemma_noted_from(uses, 0, Seq::empty());
    let plain = noted_from(uses, 0, Seq::empty());
    lemma_covered(keys_of(plain), 0, plain);
}

proof fn lemma_finding(
    d: DeclV,
    discovered: Seq<DiscoveredV>,
    bundles: Seq<BundleV>,
    cats: LintCats,
    allow: Seq<Seq<char>>,
    k: int,
    w: Seq<char>,
)
    requires
        0 <= k < sides_of(d, discovered, bundles).len(),
        findings(sides_of(d, discovered, bundles)[k], cats).contains(w),
        allows_none(allow, sides_of(d, discovered, bundles)[k].key),
    ensures
        reports_dead(w, d, cats, allow) || reports_orphan(w, d, cats, allow),
{
    let items = d.spec.items;
    let uses = uses_of(d, discovered, bundles);
    let plain = noted_from(uses, 0, Seq::empty());
    let s = sides_of(d, discovered, bundles)[k];
    lemma_sides(d, discovered, bundles);
    assert(grown(plain[k], s));
    assert(sums(plain[k], uses));
    let key = s.key;
    assert forall|node: Seq<char>, e: SignalDeclV|
        signal_name(e) == key && #[trigger] declares(items, node, true, e) implies s.writers.contains(node)
        && (e.observed || e.beat ==> s.monitored) by {
        lemma_entry_used(d, discovered, bundles, node, true, e);
        assert(plain[k].writers.contains(node));
    }
    assert forall|node: Seq<char>, e: SignalDeclV|
        signal_name(e) == key && #[trigger] declares(items, node, false, e) implies s.readers.contains(
        node,
    ) by {
        lemma_entry_used(d, discovered, bundles, node, false, e);
        assert(plain[k].readers.contains(node));
    }
    if cats.orphan_reads && s.writers.len() == 0 && s.readers.len() > 0 {
        assert(w == orphan_text(key, s.readers));
        assert(only_read(items, key, s.readers));
    } else {
        assert(w == dead_text(key, s.writers));
        assert(only_written(items, key, s.writers));
    }
}

proof fn lemma_linted_sides(
    d: DeclV,
    discovered: Seq<DiscoveredV>,
    bundles: Seq<BundleV>,
    cats: LintCats,
    allow: Seq<Seq<char>>,
    i: int,
    l: Lints,
    w: Seq<char>,
)
    requires
        0 <= i,
    ensures
        linted_sides(sides_of(d, discovered, bundles), cats, allow, i, l).warnings.contains(w)
            ==> l.warnings.contains(w) || reports_dead(w, d, cats, allow) || reports_orphan(
            w,
            d,
            cats,
            allow,
        ),
    decreases sides_of(d, discovered, bundles).len() - i,
{
    let sides = sides_of(d, discovered, bundles);
    if i < sides.len() {
        let next = linted(sides[i], cats, allow, l);
        lemma_linted_sides(d, discovered, bundles, cats, allow, i + 1, next, w);
        lemma_allowed(sides[i].key, allow, 0);
        if next.warnings.contains(w) && !l.warnings.contains(w) {
            let m = choose|m: int| 0 <= m < next.warnings.len() && next.warnings[m] == w;
            let found = findings(sides[i], cats);
            if m < l.warnings.len() {
                assert(l.warnings[m] == w);
            } else {
                assert(found[m - l.warnings.len()] == w);
            }
            lemma_finding(d, discovered, bundles, cats, allow, i, w);
        }
    }
}

proof fn lemma_linted_decls(
    decls: Seq<DeclV>,
    discovered: Seq<DiscoveredV>,
    bundles: Seq<BundleV>,
    cats: LintCats,
    allow: Seq<Seq<char>>,
    i: int,
    l: Lints,
    w: Seq<char>,
)
    requires
        0 <= i,
    ensures
        linted_decls(decls, discovered, bundles, cats, allow, i, l).warnings.contains(w)
            ==> l.warnings.contains(w) || called_for(w, decls, cats, allow),
    decreases decls.len() - i,
{
    if i < decls.len() {
        let next = linted_sides(sides_of(decls[i], discovered, bundles), cats, allow, 0, l);
        lemma_linted_sides(decls[i], discovered, bundles, cats, allow, 0, l, w);
        lemma_linted_decls(decls, discovered, bundles, cats, allow, i + 1, next, w);
    }
}

proof fn lemma_stale(
    allow: Seq<Seq<char>>,
    hits: Seq<bool>,
    i: int,
    acc: Seq<Seq<char>>,
    w: Seq<char>,
)
    requires
        0 <= i,
    ensures
        acc.contains(w) ==> with_stale(allow, hits, i, acc).contains(w),
        with_stale(allow, hits, i, acc).contains(w) ==> acc.contains(w) || reports_stale(w, allow),
        forall|k: int|
            i <= k < allow.len() && !hits[k] ==> with_stale(allow, hits, i, acc).contains(
                "`--allow "@ + (#[trigger] allow[k])
                    + "` suppressed nothing — a stale entry, or a typo'd signal"@,
            ),
    decreases allow.len() - i,
{
    if i < allow.len() {
        let t = stale_text(allow[i]);
        let next = if hits[i] {
            acc
        } else {
            acc.push(t)
        };
        lemma_stale(allow, hits, i + 1, next, w);
        if !hits[i] {
            assert(next[acc.len() as int] == t);
            if acc.contains(w) {
                let m = choose|m: int| 0 <= m < acc.len() && acc[m] == w;
                assert(next[m] == w);
            }
            if next.contains(w) && !acc.contains(w) {
                let m = choose|m: int| 0 <= m < next.len() && next[m] == w;
                if m < acc.len() {
                    assert(acc[m] == w);
                }
            }
            lemma_stale(allow, hits, i + 1, next, t);
        }
    }
}

/// Every warning is on a signal of some declaration, in a category asked for, that no entry allows:
/// on one that nothing there declares to read, whose declared writers it names and of whose writes
/// none is marked `observed` or `beat`; or on one that nothing there declares to write, whose
/// declared readers it names. What is left is on allowing entries.
pub proof fn every_warning_is_called_for(
    decls: Seq<DeclV>,
    discovered: Seq<DiscoveredV>,
    bundles: Seq<BundleV>,
    cats: LintCats,
    allow: Seq<Seq<char>>,
    w: Seq<char>,
)
    requires
        coupling_lints(decls, discovered, bundles, cats, allow).contains(w),
    ensures
        called_for(w, decls, cats, allow) || reports_stale(w, allow),
{
    let all = linted_decls(decls, discovered, bundles, cats, allow, 0, no_lints(allow));
    lemma_stale(allow, all.hits, 0, all.warnings, w);
    if all.warnings.contains(w) {
        lemma_linted_decls(decls, discovered, bundles, cats, allow, 0, no_lints(allow), w);
    }
}

proof fn lemma_linted_keeps(
    sides: Seq<SidesV>,
    cats: LintCats,
    allow: Seq<Seq<char>>,
    i: int,
    l: Lints,
    w: Seq<char>,
    k: int,
)
    requires
        0 <= i,
        l.hits.len() == allow.len(),
    ensures
        l.warnings.contains(w) ==> linted_sides(sides, cats, allow, i, l).warnings.contains(w),
        i <= k < sides.len() && findings(sides[k], cats).contains(w) && allows_none(allow, sides[k].key)
            ==> linted_sides(sides, cats, allow, i, l).warnings.contains(w),
        linted_sides(sides, cats, allow, i, l).hits.len() == allow.len(),
        forall|a: int|
            0 <= a < allow.len() && !l.hits[a] && (forall|m: int|
                i <= m < sides.len() ==> !paths_alias((#[trigger] sides[m]).key, allow[a])) ==> !(
            #[trigger] linted_sides(sides, cats, allow, i, l).hits[a]),
    decreases sides.len() - i,
{
    if i < sides.len() {
        let next = linted(sides[i], cats, allow, l);
        let found = findings(sides[i], cats);
        lemma_allowed(sides[i].key, allow, 0);
        lemma_linted_keeps(sides, cats, allow, i + 1, next, w, k);
        if l.warnings.contains(w) {
            let m = choose|m: int| 0 <= m < l.warnings.len() && l.warnings[m] == w;
            assert(next.warnings[m] == w);
        }
        if k == i && found.contains(w) && allows_none(allow, sides[i].key) {
            let m = choose|m: int| 0 <= m < found.len() && found[m] == w;
            assert(allowed_by(sides[i].key, allow, 0) == allow.len());
            assert(next.warnings[l.warnings.len() + m] == w);
        }
        assert forall|a: int|
            0 <= a < allow.len() && !l.hits[a] && (forall|m: int|
                i <= m < sides.len() ==> !paths_alias((#[trigger] sides[m]).key, allow[a])) implies !(
        #[trigger] linted_sides(sides, cats, allow, i, l).hits[a]) by {
            assert(!paths_alias(sides[i].key, allow[a]));
            assert(!next.hits[a]);
        }
    }
}

proof fn lemma_decls_keep(
    decls: Seq<DeclV>,
    discovered: Seq<DiscoveredV>,
    bundles: Seq<BundleV>,
    cats: LintCats,
    allow: Seq<Seq<char>>,
    i: int,
    l: Lints,
    w: Seq<char>,
    n: int,
    k: int,
)
    requires
        0 <= i,
        l.hits.len() == allow.len(),
    ensures
        l.warnings.contains(w) ==> linted_decls(
            decls,
            discovered,
            bundles,
            cats,
            allow,
            i,
            l,
        ).warnings.contains(w),
        i <= n < decls.len() && 0 <= k < sides_of(decls[n], discovered, bundles).len() && findings(
            sides_of(decls[n], discovered, bundles)[k],
            cats,
        ).contains(w) && allows_none(allow, sides_of(decls[n], discovered, bundles)[k].key)
            ==> linted_decls(decls, discovered, bundles, cats, allow, i, l).warnings.contains(w),
        linted_decls(decls, discovered, bundles, cats, allow, i, l).hits.len() == allow.len(),
        forall|a: int|
            0 <= a < allow.len() && !l.hits[a] && (forall|x: int, m: int|
                i <= x < decls.len() && 0 <= m < sides_of(decls[x], discovered, bundles).len()
                    ==> !paths_alias(
                    (#[trigger] sides_of(decls[x], discovered, bundles)[m]).key,
                    allow[a],
                )) ==> !(#[trigger] linted_decls(
                decls,
                discovered,
                bundles,
                cats,
                allow,
                i,
                l,
            ).hits[a]),
    decreases decls.len() - i,
{
    if i < decls.len() {
        let sides = sides_of(decls[i], discovered, bundles);
        let next = linted_sides(sides, cats, allow, 0, l);
        lemma_linted_keeps(sides, cats, allow, 0, l, w, k);
        lemma_decls_keep(decls, discovered, bundles, cats, allow, i + 1, next, w, n, k);
        assert forall|a: int|
            0 <= a < allow.len() && !l.hits[a] && (forall|x: int, m: int|
                i <= x < decls.len() && 0 <= m < sides_of(decls[x], discovered, bundles).len()
                    ==> !paths_alias(
                    (#[trigger] sides_of(decls[x], discovered, bundles)[m]).key,
                    allow[a],
                )) implies !(#[trigger] linted_decls(
            decls,
            discovered,
            bundles,
            cats,
            allow,
            i,
            l,
        ).hits[a]) by {
            assert forall|m: int| 0 <= m < sides.len() implies !paths_alias(
                (#[trigger] sides[m]).key,
                allow[a],
            ) by {
                assert(sides_of(decls[i], discovered, bundles)[m] == sides[m]);
            }
            assert(!next.hits[a]);
        }
    }
}

proof fn lemma_no_bracket(keys: Seq<Seq<char>>, key: Seq<char>)
    requires
        !contains(key, "["@),
    ensures
        whole_of(keys, key) is None,
{
    lemma_find_from(key, "["@, 0);
    if let Some(at) = find(key, "["@) {
        assert(stands_at(key, at, "["@));
    }
}

/// No entry of the items names an element of an array.
pub open spec fn no_elements(items: Seq<ItemV>) -> bool {
    forall|node: Seq<char>, write: bool, s: SignalDeclV|
        #[trigger] declares(items, node, write, s) ==> !contains(signal_name(s), "["@)
}

/// A use is one that an entry declares.
pub open spec fn is_entry(items: Seq<ItemV>, u: UseV) -> bool {
    exists|s: SignalDeclV| #[trigger]
        declares(items, u.node, u.write, s) && u.key == signal_name(s) && u.monitor == (u.write && (
        s.observed || s.beat))
}

proof fn lemma_use_is_entry(d: DeclV, bundles: Seq<BundleV>, m: int)
    requires
        0 <= m < uses_of(d, Seq::empty(), bundles).len(),
    ensures
        is_entry(d.spec.items, uses_of(d, Seq::empty(), bundles)[m]),
{
    let items = d.spec.items;
    let declared = declared_signals(items);
    let list = couplings(items);
    lemma_discovered_extend(
        items,
        module_name(d.origin),
        Seq::empty(),
        bundles,
        declared,
        0,
        FoundV { emitted: declared, uses: declared_uses(list) },
    );
    let u = uses_of(d, Seq::empty(), bundles)[m];
    assert(u == declared_use(list[m]));
    assert(list.contains(list[m]));
    the_couplings_are_the_entries(items, list[m]);
    assert(declares(items, u.node, u.write, list[m].sig));
}

proof fn lemma_plain_sides(d: DeclV, bundles: Seq<BundleV>)
    requires
        no_elements(d.spec.items),
    ensures
        sums_all(sides_of(d, Seq::empty(), bundles), uses_of(d, Seq::empty(), bundles)),
{
    let uses = uses_of(d, Seq::empty(), bundles);
    let plain = noted_from(uses, 0, Seq::empty());
    let keys = keys_of(plain);
    lemma_sides(d, Seq::empty(), bundles);
    assert forall|k: int| 0 <= k < keys.len() implies whole_of(keys, #[trigger] keys[k]) is None by {
        assert(is_used(uses, plain[k].key));
        let m = choose|m: int| 0 <= m < uses.len() && (#[trigger] uses[m]).key == plain[k].key;
        lemma_use_is_entry(d, bundles, m);
        lemma_no_bracket(keys, keys[k]);
    }
    lemma_covered(keys, 0, plain);
}

/// Every signal that a declaration writes and does not read, and whose writes are all unmarked, is
/// reported where dead writes are asked for and no entry allows it; its writers are named. This is
/// of declared entries, and of signals that are no elements of arrays.
pub proof fn every_dead_write_is_reported(
    decls: Seq<DeclV>,
    bundles: Seq<BundleV>,
    cats: LintCats,
    allow: Seq<Seq<char>>,
    i: int,
    node: Seq<char>,
    s: SignalDeclV,
)
    requires
        cats.dead_writes,
        0 <= i < decls.len(),
        no_elements(decls[i].spec.items),
        declares(decls[i].spec.items, node, true, s),
        forall|other: Seq<char>, e: SignalDeclV|
            signal_name(e) == signal_name(s) ==> !#[trigger] declares(
                decls[i].spec.items,
                other,
                false,
                e,
            ),
        forall|other: Seq<char>, e: SignalDeclV|
            signal_name(e) == signal_name(s) && #[trigger] declares(decls[i].spec.items, other, true, e)
                ==> !e.observed && !e.beat,
        allows_none(allow, signal_name(s)),
    ensures
        exists|writers: Seq<Seq<char>>|
            coupling_lints(decls, Seq::empty(), bundles, cats, allow).contains(
                #[trigger] dead_text(signal_name(s), writers),
            ) && writers.contains(node),
{
    let d = decls[i];
    let key = signal_name(s);
    let uses = uses_of(d, Seq::empty(), bundles);
    let sides = sides_of(d, Seq::empty(), bundles);
    lemma_plain_sides(d, bundles);
    lemma_entry_used(d, Seq::empty(), bundles, node, true, s);
    let m = choose|m: int|
        0 <= m < uses.len() && (#[trigger] uses[m]).key == key && uses[m].write && uses[m].node == node;
    let k = choose|k: int| 0 <= k < sides.len() && (#[trigger] sides[k]).key == uses[m].key;
    assert(sums(sides[k], uses));
    assert(sides[k].writers.contains(node));
    assert(sides[k].readers.len() == 0) by {
        if sides[k].readers.len() > 0 {
            let x = sides[k].readers[0];
            assert(sides[k].readers.contains(x));
            let r = choose|r: int|
                0 <= r < uses.len() && (#[trigger] uses[r]).key == key && !uses[r].write && uses[r].node == x;
            lemma_use_is_entry(d, bundles, r);
        }
    }
    assert(!sides[k].monitored) by {
        if is_consumed(uses, key) {
            let r = choose|r: int| 0 <= r < uses.len() && (#[trigger] uses[r]).key == key && uses[r].monitor;
            lemma_use_is_entry(d, bundles, r);
        }
    }
    let w = dead_text(key, sides[k].writers);
    assert(findings(sides[k], cats) == seq![w]);
    assert(findings(sides[k], cats)[0] == w);
    let start = no_lints(allow);
    lemma_decls_keep(decls, Seq::empty(), bundles, cats, allow, 0, start, w, i, k);
    let all = linted_decls(decls, Seq::empty(), bundles, cats, allow, 0, start);
    lemma_stale(allow, all.hits, 0, all.warnings, w);
}

/// Every signal that a declaration reads and does not write is reported where orphan reads are
/// asked for and no entry allows it; its readers are named. This is of declared entries, and of
/// signals that are no elements of arrays.
pub proof fn every_orphan_read_is_reported(
    decls: Seq<DeclV>,
    bundles: Seq<BundleV>,
    cats: LintCats,
    allow: Seq<Seq<char>>,
    i: int,
    node: Seq<char>,
    s: SignalDeclV,
)
    requires
        cats.orphan_reads,
        0 <= i < decls.len(),
        no_elements(decls[i].spec.items),
        declares(decls[i].spec.items, node, false, s),
        forall|other: Seq<char>, e: SignalDeclV|
            signal_name(e) == signal_name(s) ==> !#[trigger] declares(
                decls[i].spec.items,
                other,
                true,
                e,
            ),
        allows_none(allow, signal_name(s)),
    ensures
        exists|readers: Seq<Seq<char>>|
            coupling_lints(decls, Seq::empty(), bundles, cats, allow).contains(
                #[trigger] orphan_text(signal_name(s), readers),
            ) && readers.contains(node),
{
    let d = decls[i];
    let key = signal_name(s);
    let uses = uses_of(d, Seq::empty(), bundles);
    let sides = sides_of(d, Seq::empty(), bundles);
    lemma_plain_sides(d, bundles);
    lemma_entry_used(d, Seq::empty(), bundles, node, false, s);
    let m = choose|m: int|
        0 <= m < uses.len() && (#[trigger] uses[m]).key == key && !uses[m].write && uses[m].node == node;
    let k = choose|k: int| 0 <= k < sides.len() && (#[trigger] sides[k]).key == uses[m].key;
    assert(sums(sides[k], uses));
    assert(sides[k].readers.contains(node));
    assert(sides[k].writers.len() == 0) by {
        if sides[k].writers.len() > 0 {
            let x = sides[k].writers[0];
            assert(sides[k].writers.contains(x));
            let r = choose|r: int|
                0 <= r < uses.len() && (#[trigger] uses[r]).key == key && uses[r].write && uses[r].node == x;
            lemma_use_is_entry(d, bundles, r);
        }
    }
    let w = orphan_text(key, sides[k].readers);
    assert(findings(sides[k], cats) == seq![w]);
    assert(findings(sides[k], cats)[0] == w);
    let start = no_lints(allow);
    lemma_decls_keep(decls, Seq::empty(), bundles, cats, allow, 0, start, w, i, k);
    let all = linted_decls(decls, Seq::empty(), bundles, cats, allow, 0, start);
    lemma_stale(allow, all.hits, 0, all.warnings, w);
}

/// An allowing entry that fits no signal is itself reported. This is of declared entries, and of
/// signals that are no elements of arrays.
pub proof fn an_entry_that_fits_nothing_is_reported(
    decls: Seq<DeclV>,
    bundles: Seq<BundleV>,
    cats: LintCats,
    allow: Seq<Seq<char>>,
    a: int,
)
    requires
        0 <= a < allow.len(),
        forall|i: int| 0 <= i < decls.len() ==> no_elements((#[trigger] decls[i]).spec.items),
        forall|i: int, node: Seq<char>, write: bool, s: SignalDeclV|
            0 <= i < decls.len() && #[trigger] declares(decls[i].spec.items, node, write, s)
                ==> !paths_alias(signal_name(s), allow[a]),
    ensures
        coupling_lints(decls, Seq::empty(), bundles, cats, allow).contains(
            "`--allow "@ + allow[a] + "` suppressed nothing — a stale entry, or a typo'd signal"@,
        ),
{
    let start = no_lints(allow);
    let none = Seq::<DiscoveredV>::empty();
    assert forall|x: int, m: int|
        0 <= x < decls.len() && 0 <= m < sides_of(decls[x], none, bundles).len() implies !paths_alias(
        (#[trigger] sides_of(decls[x], none, bundles)[m]).key,
        allow[a],
    ) by {
        let sides = sides_of(decls[x], none, bundles);
        let uses = uses_of(decls[x], none, bundles);
        lemma_plain_sides(decls[x], bundles);
        assert(is_used(uses, sides[m].key));
        let r = choose|r: int| 0 <= r < uses.len() && (#[trigger] uses[r]).key == sides[m].key;
        lemma_use_is_entry(decls[x], bundles, r);
    }
    lemma_decls_keep(decls, none, bundles, cats, allow, 0, start, arbitrary(), -1, -1);
    let all = linted_decls(decls, none, bundles, cats, allow, 0, start);
    assert(!all.hits[a]);
    lemma_stale(allow, all.hits, 0, all.warnings, arbitrary());
}

proof fn lemma_gate_texts(statics: Seq<GateStaticV>, i: int, acc: Seq<Seq<char>>, w: Seq<char>)
    requires
        0 <= i,
    ensures
        gate_texts(statics, i, acc).contains(w) <==> acc.contains(w) || exists|k: int|
            i <= k < statics.len() && (#[trigger] statics[k]).public && w == "public gate: `"@
                + statics[k].file + ":"@ + decimal(statics[k].line as nat) + "` `"@ + statics[k].name
                + ": "@ + statics[k].ty + (BYPASSED@ + ADVICE@),
    decreases statics.len() - i,
{
    if i < statics.len() {
        let g = statics[i];
        let t = "public gate: `"@ + g.file + ":"@ + decimal(g.line as nat) + "` `"@ + g.name + ": "@
            + g.ty + (BYPASSED@ + ADVICE@);
        let next = if g.public {
            acc.push(t)
        } else {
            acc
        };
        lemma_gate_texts(statics, i + 1, next, w);
        if g.public {
            assert(next[acc.len() as int] == t);
            if acc.contains(w) {
                let m = choose|m: int| 0 <= m < acc.len() && acc[m] == w;
                assert(next[m] == w);
            }
            if next.contains(w) && !acc.contains(w) {
                let m = choose|m: int| 0 <= m < next.len() && next[m] == w;
                if m < acc.len() {
                    assert(acc[m] == w);
                }
            }
        }
    }
}

/// The gates reported are the public ones, each with its file, line, name and type.
pub proof fn the_gates_reported_are_the_public_ones(statics: Seq<GateStaticV>, w: Seq<char>)
    ensures
        gate_texts(statics, 0, Seq::empty()).contains(w) <==> exists|k: int|
            0 <= k < statics.len() && (#[trigger] statics[k]).public && w == "public gate: `"@
                + statics[k].file + ":"@ + decimal(statics[k].line as nat) + "` `"@ + statics[k].name
                + ": "@ + statics[k].ty
                + ("<..>` is reachable from outside its module; reaching the static directly bypasses the "@
                + "gate — keep it private and expose `#[dataflow]` accessors"@),
{
    lemma_gate_texts(statics, 0, Seq::empty(), w);
}

/// A static of the source is a gate: the last segment of its type is one of the three gate types.
pub open spec fn is_gate_static(item: SrcItemV, file: Seq<char>, g: GateStaticV) -> bool {
    item matches SrcItemV::Static(s) && s.ty matches Some(segs) && segs.len() > 0 && (segs.last()
        == "Backed"@ || segs.last() == "Leased"@ || segs.last() == "VetoGate"@) && g.ty == segs.last()
        && g.file == file && g.line == s.line && g.name == s.name && g.public == s.public
}

proof fn lemma_item_gates(
    items: Seq<SrcItemV>,
    file: Seq<char>,
    i: int,
    acc: Seq<GateStaticV>,
    g: GateStaticV,
)
    requires
        0 <= i,
    ensures
        item_gates(items, file, i, acc).contains(g) <==> acc.contains(g) || exists|k: int|
            i <= k < items.len() && is_gate_static(#[trigger] items[k], file, g),
    decreases items.len() - i,
{
    if i < items.len() {
        let next = match gate_of(items[i], file) {
            Some(x) => acc.push(x),
            None => acc,
        };
        lemma_item_gates(items, file, i + 1, next, g);
        if let Some(x) = gate_of(items[i], file) {
            assert(next[acc.len() as int] == x);
            if acc.contains(g) {
                let m = choose|m: int| 0 <= m < acc.len() && acc[m] == g;
                assert(next[m] == g);
            }
            if next.contains(g) && !acc.contains(g) {
                let m = choose|m: int| 0 <= m < next.len() && next[m] == g;
                if m < acc.len() {
                    assert(acc[m] == g);
                }
            }
        }
    }
}

/// The gates found in a file are its statics of a gate type, at any depth, each with its place, its
/// name, its type and its visibility.
pub proof fn the_gates_found_are_the_statics_of_a_gate_type(
    items: Seq<SrcItemV>,
    file: Seq<char>,
    g: GateStaticV,
)
    ensures
        item_gates(items, file, 0, Seq::empty()).contains(g) <==> exists|k: int|
            0 <= k < items.len() && is_gate_static(#[trigger] items[k], file, g),
{
    lemma_item_gates(items, file, 0, Seq::empty(), g);
}

/// The discovered access of an item is a use: of its own direction, and consumed by the supervisor
/// where it is a write by a verb that starts with `beat`.
pub open spec fn used_as(u: UseV, node: Seq<char>, d: DiscoveredV) -> bool {
    &&& u.node == node
    &&& u.write == d.access.write
    &&& u.monitor == (d.access.write && starts_with(d.access.verb, "beat"@))
}

/// Some use is that of the access.
pub open spec fn some_use(uses: Seq<UseV>, node: Seq<char>, d: DiscoveredV) -> bool {
    exists|n: int| 0 <= n < uses.len() && used_as(#[trigger] uses[n], node, d)
}

proof fn lemma_access_used(
    funcs: Seq<FnRef>,
    module: Seq<char>,
    node: Seq<char>,
    discovered: Seq<DiscoveredV>,
    declared: Seq<Seq<char>>,
    j: int,
    f: FoundV,
    m: int,
)
    requires
        0 <= j <= m < discovered.len(),
        first_access(funcs, discovered, module, m),
    ensures
        some_use(with_accesses(funcs, module, node, discovered, declared, j, f).uses, node, discovered[m]),
    decreases discovered.len() - j,
{
    let next = if first_access(funcs, discovered, module, j) {
        with_access(node, discovered[j], declared, f)
    } else {
        f
    };
    if j == m {
        lemma_accesses_extend(funcs, module, node, discovered, declared, j + 1, next);
        let uses = with_accesses(funcs, module, node, discovered, declared, j + 1, next).uses;
        let n = f.uses.len() as int;
        assert(uses.subrange(0, next.uses.len() as int)[n] == uses[n]);
        assert(used_as(uses[n], node, discovered[m]));
    } else {
        lemma_access_used(funcs, module, node, discovered, declared, j + 1, next, m);
    }
}

proof fn lemma_item_access_used(
    items: Seq<ItemV>,
    module: Seq<char>,
    discovered: Seq<DiscoveredV>,
    bundles: Seq<BundleV>,
    declared: Seq<Seq<char>>,
    i: int,
    f: FoundV,
    k: int,
    m: int,
)
    requires
        0 <= i <= k < items.len(),
        boxed_name(items[k]) is Some,
        0 <= m < discovered.len(),
        first_access(flow_fns(items[k], bundles), discovered, module, m),
    ensures
        some_use(
            discovered_uses(items, module, discovered, bundles, declared, i, f).uses,
            boxed_name(items[k])->0,
            discovered[m],
        ),
    decreases items.len() - i,
{
    let next = match boxed_name(items[i]) {
        Some(name) => with_accesses(
            flow_fns(items[i], bundles),
            module,
            name,
            discovered,
            declared,
            0,
            f,
        ),
        None => f,
    };
    if i == k {
        let name = boxed_name(items[k])->0;
        lemma_access_used(flow_fns(items[k], bundles), module, name, discovered, declared, 0, f, m);
        let n = choose|n: int| 0 <= n < next.uses.len() && used_as(#[trigger] next.uses[n], name, discovered[m]);
        lemma_discovered_extend(items, module, discovered, bundles, declared, i + 1, next);
        let uses = discovered_uses(items, module, discovered, bundles, declared, i + 1, next).uses;
        assert(uses.subrange(0, next.uses.len() as int)[n] == uses[n]);
        assert(used_as(uses[n], name, discovered[m]));
    } else {
        lemma_item_access_used(items, module, discovered, bundles, declared, i + 1, next, k, m);
    }
}

/// What the functions of a node or pool were found to read or write counts as its reading or
/// writing, and a heartbeat among it as consumed by the supervisor.
pub proof fn every_discovered_access_is_a_use(
    d: DeclV,
    discovered: Seq<DiscoveredV>,
    bundles: Seq<BundleV>,
    k: int,
    m: int,
)
    requires
        0 <= k < d.spec.items.len(),
        d.spec.items[k] is Node || d.spec.items[k] is Pool,
        0 <= m < discovered.len(),
        first_access(flow_fns(d.spec.items[k], bundles), discovered, module_name(d.origin), m),
    ensures
        some_use(
            uses_of(d, discovered, bundles),
            (match d.spec.items[k] {
                ItemV::Node(x) => x.ident,
                ItemV::Pool(x) => x.ident,
                ItemV::Executor(x) => x.ident,
            }),
            discovered[m],
        ),
{
    let declared = declared_signals(d.spec.items);
    lemma_item_access_used(
        d.spec.items,
        module_name(d.origin),
        discovered,
        bundles,
        declared,
        0,
        FoundV { emitted: declared, uses: declared_uses(couplings(d.spec.items)) },
        k,
        m,
    );
}

} // verus!
