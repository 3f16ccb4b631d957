//! What a compose site takes in of its fragments, and what excluding a name leaves.

use vstd::prelude::*;

use crate::ast::{deps_of, DepV, GraphSpecV, ItemV, NodeItemV, PoolItemV};
use crate::find::{items_of, DeclKind, DeclV};
use crate::parse::Fault;
use crate::resolve::{
    candidates, compose_sites, deps_left, drawn_alone, excluded, items_left, lemma_drawn_alone,
    lemma_sited, merged, owner_tokens, resolved, sited, splice_all, splice_one, spliced, undepended,
    ResolutionV, SpliceV, FRAGMENT_MISSING,
};
use crate::text::{after_last, decimal};
use crate::token::{normalized, substituted};

verus! {

/// The declaration at `f` is the only fragment of this name.
pub open spec fn only_fragment(decls: Seq<DeclV>, name: Seq<char>, f: int) -> bool {
    &&& 0 <= f < decls.len()
    &&& decls[f].kind == DeclKind::Fragment && decls[f].spec.name == Some(name)
    &&& forall|i: int|
        0 <= i < decls.len() && i != f && (#[trigger] decls[i]).kind == DeclKind::Fragment
            ==> decls[i].spec.name != Some(name)
}

/// No declaration is a fragment of this name.
pub open spec fn no_fragment(decls: Seq<DeclV>, name: Seq<char>) -> bool {
    forall|i: int|
        0 <= i < decls.len() && (#[trigger] decls[i]).kind == DeclKind::Fragment
            ==> decls[i].spec.name != Some(name)
}

/// What the fragment declares, read with its own crate spelled as the compose site spells it.
pub open spec fn body_read(frag: DeclV, want: Seq<char>) -> Result<GraphSpecV, Fault> {
    items_of(substituted(normalized(frag.body), owner_tokens(want)), frag.kind)
}

/// `x` is `item` as part of the fragment `name`: that and nothing else changes.
pub open spec fn moved(item: ItemV, name: Seq<char>, x: ItemV) -> bool {
    match item {
        ItemV::Node(n) => x == ItemV::Node(NodeItemV { fragment: Some(name), ..n }),
        ItemV::Pool(p) => x == ItemV::Pool(PoolItemV { fragment: Some(name), ..p }),
        ItemV::Executor(_) => x == item,
    }
}

proof fn lemma_candidates(decls: Seq<DeclV>, name: Seq<char>, i: int, acc: Seq<int>, x: int)
    requires
        0 <= i,
    ensures
        candidates(decls, name, i, acc).contains(x) <==> acc.contains(x) || (i <= x < decls.len()
            && decls[x].kind == DeclKind::Fragment && decls[x].spec.name == Some(name)),
        acc.len() <= candidates(decls, name, i, acc).len(),
        acc.no_duplicates() && (forall|k: int| 0 <= k < acc.len() ==> #[trigger] acc[k] < i)
            ==> candidates(decls, name, i, acc).no_duplicates(),
    decreases decls.len() - i,
{
    if i < decls.len() {
        let next = if crate::resolve::is_fragment(decls[i], name) {
            acc.push(i)
        } else {
            acc
        };
        lemma_candidates(decls, name, i + 1, next, x);
        if acc.contains(x) {
            let k = choose|k: int| 0 <= k < acc.len() && acc[k] == x;
            assert(next[k] == x);
        }
        if x == i && crate::resolve::is_fragment(decls[i], name) {
            assert(next[acc.len() as int] == x);
        }
        if next.contains(x) && !acc.contains(x) {
            let k = choose|k: int| 0 <= k < next.len() && next[k] == x;
            if k < acc.len() {
                assert(acc[k] == x);
            }
        }
    }
}

proof fn lemma_only(decls: Seq<DeclV>, name: Seq<char>, f: int)
    requires
        only_fragment(decls, name, f),
    ensures
        candidates(decls, name, 0, Seq::empty()) == seq![f],
{
    let found = candidates(decls, name, 0, Seq::empty());
    lemma_candidates(decls, name, 0, Seq::empty(), f);
    let k = choose|k: int| 0 <= k < found.len() && found[k] == f;
    assert forall|j: int| 0 <= j < found.len() implies found[j] == f by {
        assert(found.contains(found[j]));
        lemma_candidates(decls, name, 0, Seq::empty(), found[j]);
    }
    if found.len() > 1 {
        assert(found[0] == f && found[1] == f);
    }
    assert(found =~= seq![f]);
}

proof fn lemma_none(decls: Seq<DeclV>, name: Seq<char>)
    requires
        no_fragment(decls, name),
    ensures
        candidates(decls, name, 0, Seq::empty()).len() == 0,
{
    let found = candidates(decls, name, 0, Seq::empty());
    if found.len() > 0 {
        assert(found.contains(found[0]));
        lemma_candidates(decls, name, 0, Seq::empty(), found[0]);
    }
}

/// The item was moved from a fragment that the compose site `at` names.
pub open spec fn from_fragment(decls: Seq<DeclV>, at: DeclV, x: ItemV) -> bool {
    exists|j: int, f: int, m: int| #[trigger] contributes(decls, at, j, f, m, x)
}

/// Item number `m` of the fragment at `f`, which is the `j`th that the compose site names, is `x`
/// there.
pub open spec fn contributes(
    decls: Seq<DeclV>,
    at: DeclV,
    j: int,
    f: int,
    m: int,
    x: ItemV,
) -> bool {
    &&& 0 <= j < at.fragments.len()
    &&& only_fragment(decls, after_last(at.fragments[j], "::"@), f)
    &&& body_read(decls[f], at.fragments[j]) matches Ok(g) && 0 <= m < g.items.len() && moved(
        g.items[m],
        after_last(at.fragments[j], "::"@),
        x,
    )
}

proof fn lemma_found(decls: Seq<DeclV>, name: Seq<char>)
    requires
        candidates(decls, name, 0, Seq::empty()).len() == 1,
    ensures
        only_fragment(decls, name, candidates(decls, name, 0, Seq::empty())[0]),
{
    let found = candidates(decls, name, 0, Seq::empty());
    let f = found[0];
    assert(found.contains(f));
    lemma_candidates(decls, name, 0, Seq::empty(), f);
    assert forall|i: int|
        0 <= i < decls.len() && i != f && (#[trigger] decls[i]).kind
            == DeclKind::Fragment implies decls[i].spec.name != Some(name) by {
        lemma_candidates(decls, name, 0, Seq::empty(), i);
        if found.contains(i) {
            let k = choose|k: int| 0 <= k < found.len() && found[k] == i;
            assert(k == 0);
        }
    }
}

spec fn all_from(decls: Seq<DeclV>, at: DeclV, items: Seq<ItemV>) -> bool {
    forall|k: int| 0 <= k < items.len() ==> from_fragment(decls, at, #[trigger] items[k])
}

proof fn lemma_spliced(
    decls: Seq<DeclV>,
    at: DeclV,
    i: int,
    k: SpliceV,
    j: int,
    f: int,
    m: int,
    x: ItemV,
)
    requires
        0 <= i,
        all_from(decls, at, k.items),
    ensures
        ({
            let r = splice_all(decls, at, i, k);
            &&& all_from(decls, at, r.items)
            &&& k.items.contains(x) ==> r.items.contains(x)
            &&& i <= j && contributes(decls, at, j, f, m, x) ==> r.items.contains(x)
        }),
    decreases at.fragments.len() - i,
{
    if i < at.fragments.len() {
        let want = at.fragments[i];
        let name = after_last(want, "::"@);
        let found = candidates(decls, name, 0, Seq::empty());
        let next = splice_one(decls, at, want, k);
        if found.len() == 1 {
            lemma_found(decls, name);
            let frag = decls[found[0]];
            match spliced(frag, want, name) {
                Ok(items) => {
                    let g = body_read(frag, want)->Ok_0;
                    assert forall|n: int| 0 <= n < next.items.len() implies from_fragment(
                        decls,
                        at,
                        #[trigger] next.items[n],
                    ) by {
                        if n < k.items.len() {
                            assert(next.items[n] == k.items[n]);
                        } else {
                            let o = n - k.items.len();
                            assert(next.items[n] == items[o]);
                            assert(contributes(decls, at, i, found[0], o, next.items[n]));
                        }
                    }
                    crate::entries::lemma_sum(k.items, items, x);
                    if j == i && contributes(decls, at, j, f, m, x) {
                        lemma_only(decls, name, f);
                        assert(items[m] == x);
                        assert(items.contains(x));
                    }
                },
                Err(_) => {
                    if j == i && contributes(decls, at, j, f, m, x) {
                        lemma_only(decls, name, f);
                    }
                },
            }
        } else if j == i && contributes(decls, at, j, f, m, x) {
            lemma_only(decls, name, f);
        }
        lemma_spliced(decls, at, i + 1, next, j, f, m, x);
    }
}

proof fn lemma_site_drawn(decls: Seq<DeclV>, i: int, r: ResolutionV, n: int) -> (k: SpliceV)
    requires
        0 <= i,
    ensures
        ({
            let out = compose_sites(decls, i, r);
            &&& forall|x: DeclV| #[trigger] r.decls.contains(x) ==> out.decls.contains(x)
            &&& i <= n < decls.len() && decls[n].kind == DeclKind::Compose ==> out.decls.contains(
                merged(decls[n], splice_all(decls, decls[n], 0, k)),
            ) && k.items.len() == 0 && k.origins.len() == 0
        }),
    decreases decls.len() - i,
{
    if i < decls.len() {
        if decls[i].kind != DeclKind::Compose {
            lemma_site_drawn(decls, i + 1, r, n)
        } else {
            let start = SpliceV {
                items: Seq::empty(),
                origins: Seq::empty(),
                consumed: r.consumed,
                warnings: r.warnings,
            };
            let k = splice_all(decls, decls[i], 0, start);
            let next = ResolutionV {
                decls: r.decls.push(merged(decls[i], k)),
                consumed: k.consumed,
                warnings: k.warnings,
            };
            assert(next.decls[r.decls.len() as int] == merged(decls[i], k));
            assert forall|x: DeclV| #[trigger] r.decls.contains(x) implies next.decls.contains(x) by {
                let m = choose|m: int| 0 <= m < r.decls.len() && r.decls[m] == x;
                assert(next.decls[m] == x);
            }
            let later = lemma_site_drawn(decls, i + 1, next, n);
            if n == i {
                assert(next.decls.contains(merged(decls[i], k)));
                start
            } else {
                later
            }
        }
    } else {
        arbitrary()
    }
}

/// A compose site is drawn with all its own items and with every item of each fragment that it
/// names and that stands exactly once among the files, as part of that fragment; and with no other
/// item. All else of it stays.
pub proof fn a_compose_site_takes_in_its_fragments(decls: Seq<DeclV>, n: int) -> (x: DeclV)
    requires
        0 <= n < decls.len(),
        decls[n].kind == DeclKind::Compose,
    ensures
        resolved(decls).0.contains(x),
        x.origin == decls[n].origin && x.line == decls[n].line && x.kind == decls[n].kind,
        x.spec.name == decls[n].spec.name,
        forall|y: ItemV| #[trigger]
            x.spec.items.contains(y) <==> decls[n].spec.items.contains(y) || from_fragment(
                decls,
                decls[n],
                y,
            ),
{
    let empty = ResolutionV { decls: Seq::empty(), consumed: Seq::empty(), warnings: Seq::empty() };
    let r = compose_sites(decls, 0, empty);
    let all = drawn_alone(decls, r.consumed, 0, r.decls);
    let k = lemma_site_drawn(decls, 0, empty, n);
    let s = splice_all(decls, decls[n], 0, k);
    let x = merged(decls[n], s);
    lemma_drawn_alone(decls, r.consumed, 0, r.decls);
    assert(all.contains(x));
    let m = choose|m: int| 0 <= m < all.len() && all[m] == x;
    lemma_sited(all, all.len() as int);
    assert(sited(all, all.len() as int).contains(all[m]));
    assert forall|y: ItemV| #[trigger]
        x.spec.items.contains(y) <==> decls[n].spec.items.contains(y) || from_fragment(
            decls,
            decls[n],
            y,
        ) by {
        crate::entries::lemma_sum(s.items, decls[n].spec.items, y);
        lemma_spliced(decls, decls[n], 0, k, -1, -1, -1, y);
        if s.items.contains(y) {
            let o = choose|o: int| 0 <= o < s.items.len() && s.items[o] == y;
            assert(from_fragment(decls, decls[n], s.items[o]));
        }
        if from_fragment(decls, decls[n], y) {
            let (j, f, o) = choose|j: int, f: int, o: int| #[trigger]
                contributes(decls, decls[n], j, f, o, y);
            lemma_spliced(decls, decls[n], 0, k, j, f, o, y);
        }
    }
    x
}

proof fn lemma_missing(decls: Seq<DeclV>, at: DeclV, i: int, k: SpliceV, j: int, w: Seq<char>)
    requires
        0 <= i,
    ensures
        k.warnings.contains(w) ==> splice_all(decls, at, i, k).warnings.contains(w),
        i <= j < at.fragments.len() && no_fragment(decls, after_last(at.fragments[j], "::"@)) && w
            == crate::resolve::missing_warning(at, at.fragments[j]) ==> splice_all(
            decls,
            at,
            i,
            k,
        ).warnings.contains(w),
    decreases at.fragments.len() - i,
{
    if i < at.fragments.len() {
        let next = splice_one(decls, at, at.fragments[i], k);
        lemma_missing(decls, at, i + 1, next, j, w);
        if k.warnings.contains(w) {
            let m = choose|m: int| 0 <= m < k.warnings.len() && k.warnings[m] == w;
            assert(next.warnings[m] == w);
        }
        if i == j && no_fragment(decls, after_last(at.fragments[j], "::"@)) {
            lemma_none(decls, after_last(at.fragments[j], "::"@));
            assert(next.warnings[k.warnings.len() as int] == crate::resolve::missing_warning(
                at,
                at.fragments[j],
            ));
        }
    }
}

proof fn lemma_missing_sites(
    decls: Seq<DeclV>,
    i: int,
    r: ResolutionV,
    n: int,
    j: int,
    w: Seq<char>,
)
    requires
        0 <= i,
    ensures
        r.warnings.contains(w) ==> compose_sites(decls, i, r).warnings.contains(w),
        i <= n < decls.len() && decls[n].kind == DeclKind::Compose && 0 <= j
            < decls[n].fragments.len() && no_fragment(
            decls,
            after_last(decls[n].fragments[j], "::"@),
        ) && w == crate::resolve::missing_warning(decls[n], decls[n].fragments[j])
            ==> compose_sites(decls, i, r).warnings.contains(w),
    decreases decls.len() - i,
{
    if i < decls.len() {
        if decls[i].kind != DeclKind::Compose {
            lemma_missing_sites(decls, i + 1, r, n, j, w);
        } else {
            let start = SpliceV {
                items: Seq::empty(),
                origins: Seq::empty(),
                consumed: r.consumed,
                warnings: r.warnings,
            };
            let k = splice_all(decls, decls[i], 0, start);
            lemma_missing(decls, decls[i], 0, start, j, w);
            lemma_missing_sites(
                decls,
                i + 1,
                ResolutionV {
                    decls: r.decls.push(merged(decls[i], k)),
                    consumed: k.consumed,
                    warnings: k.warnings,
                },
                n,
                j,
                w,
            );
        }
    }
}

/// A fragment that a compose site names and no file declares is warned of, by the site and the name
/// given there.
pub proof fn a_missing_fragment_is_warned_of(decls: Seq<DeclV>, n: int, j: int)
    requires
        0 <= n < decls.len(),
        decls[n].kind == DeclKind::Compose,
        0 <= j < decls[n].fragments.len(),
        no_fragment(decls, after_last(decls[n].fragments[j], "::"@)),
    ensures
        resolved(decls).1.contains(
            decls[n].origin + ":"@ + decimal(decls[n].line as nat) + ": fragment `"@
                + decls[n].fragments[j] + FRAGMENT_MISSING@,
        ),
{
    let w = crate::resolve::missing_warning(decls[n], decls[n].fragments[j]);
    let empty = ResolutionV { decls: Seq::empty(), consumed: Seq::empty(), warnings: Seq::empty() };
    lemma_missing_sites(decls, 0, empty, n, j, w);
}

proof fn lemma_deps_left(deps: Seq<DepV>, names: Seq<Seq<char>>, i: int, acc: Seq<DepV>, x: DepV)
    requires
        0 <= i,
    ensures
        deps_left(deps, names, i, acc).contains(x) <==> acc.contains(x) || (!names.contains(x.ident)
            && exists|k: int| i <= k < deps.len() && #[trigger] deps[k] == x),
    decreases deps.len() - i,
{
    if i < deps.len() {
        let next = if names.contains(deps[i].ident) {
            acc
        } else {
            acc.push(deps[i])
        };
        lemma_deps_left(deps, names, i + 1, next, x);
        if acc.contains(x) {
            let k = choose|k: int| 0 <= k < acc.len() && acc[k] == x;
            assert(next[k] == x);
        }
        if deps[i] == x && !names.contains(x.ident) {
            assert(next[acc.len() as int] == x);
        }
        if next.contains(x) && !acc.contains(x) {
            let k = choose|k: int| 0 <= k < next.len() && next[k] == x;
            if k < acc.len() {
                assert(acc[k] == x);
            }
            assert(deps[i] == x);
        }
    }
}

/// `x` is `item` without its deps on these names: that and nothing else changes.
pub open spec fn freed(item: ItemV, names: Seq<Seq<char>>, x: ItemV) -> bool {
    match (item, x) {
        (ItemV::Node(n), ItemV::Node(m)) => m == (NodeItemV { deps: m.deps, ..n }) && (forall|y: DepV|
         #[trigger]
            m.deps.contains(y) <==> n.deps.contains(y) && !names.contains(y.ident)),
        (ItemV::Pool(n), ItemV::Pool(m)) => m == (PoolItemV { deps: m.deps, ..n }) && (forall|y: DepV|
         #[trigger]
            m.deps.contains(y) <==> n.deps.contains(y) && !names.contains(y.ident)),
        (ItemV::Executor(a), ItemV::Executor(b)) => a == b,
        _ => false,
    }
}

proof fn lemma_freed(item: ItemV, names: Seq<Seq<char>>)
    ensures
        freed(item, names, undepended(item, names)),
{
    let deps = deps_of(item);
    assert forall|y: DepV| #[trigger]
        deps_left(deps, names, 0, Seq::empty()).contains(y) <==> deps.contains(y) && !names.contains(
            y.ident,
        ) by {
        lemma_deps_left(deps, names, 0, Seq::empty(), y);
        if deps.contains(y) {
            let k = choose|k: int| 0 <= k < deps.len() && deps[k] == y;
            assert(deps[k] == y);
        }
    }
}

proof fn lemma_item_left(items: Seq<ItemV>, names: Seq<Seq<char>>, i: int, acc: Seq<ItemV>, k: int)
    requires
        0 <= i,
    ensures
        forall|x: ItemV| #[trigger]
            acc.contains(x) ==> items_left(items, names, i, acc).contains(x),
        i <= k < items.len() && crate::resolve::stays(items[k], names) ==> items_left(
            items,
            names,
            i,
            acc,
        ).contains(undepended(items[k], names)),
    decreases items.len() - i,
{
    if i < items.len() {
        let next = if crate::resolve::stays(items[i], names) {
            acc.push(undepended(items[i], names))
        } else {
            acc
        };
        lemma_item_left(items, names, i + 1, next, k);
        assert forall|x: ItemV| #[trigger] acc.contains(x) implies next.contains(x) by {
            let m = choose|m: int| 0 <= m < acc.len() && acc[m] == x;
            assert(next[m] == x);
        }
        if crate::resolve::stays(items[i], names) {
            assert(next[acc.len() as int] == undepended(items[i], names));
            assert(next.contains(undepended(items[i], names)));
        }
    }
}

/// Excluding takes away the nodes and pools of these names, and the deps on them: every other item
/// stays, with everything else that it holds.
pub proof fn excluding_keeps_the_rest(d: DeclV, names: Seq<Seq<char>>, k: int) -> (x: ItemV)
    requires
        0 <= k < d.spec.items.len(),
        match d.spec.items[k] {
            ItemV::Node(n) => !names.contains(n.ident),
            ItemV::Pool(p) => !names.contains(p.ident),
            ItemV::Executor(_) => true,
        },
    ensures
        excluded(d, names).spec.items.contains(x),
        freed(d.spec.items[k], names, x),
        excluded(d, names).origin == d.origin && excluded(d, names).line == d.line,
        excluded(d, names).spec.name == d.spec.name,
{
    lemma_item_left(d.spec.items, names, 0, Seq::empty(), k);
    lemma_freed(d.spec.items[k], names);
    undepended(d.spec.items[k], names)
}

} // verus!
