//! What is bound and what is scanned: which functions and bundles a file has, and which of them a
//! graph leaves out.

use vstd::prelude::*;

use crate::ast::{ItemV, TaskSourceV};
use crate::bindings::{
    any_binds, any_fn, bound_expanded, bound_of, coverage, decl_warnings, is_fn, item_binds,
    item_warnings, owner_name, unbound, unbound_warning, unscanned, unscanned_warning, FnRef,
    NOT_BOUND, NOT_SCANNED,
};
use crate::discover::{
    bundle_at, bundle_attr, item_bundles, item_fns, module_fns, module_name, BundleV,
};
use crate::find::DeclV;
use crate::rust::AttrV;
use crate::scan::{mark_of, SrcFnV, SrcItemV};
use crate::traced::{adopts_fn, calls_fn, lemma_adopted, lemma_all_expanded, stands_for};

verus! {

/// The item binds the function by name: as its task where it discovers, or by adopting it.
pub open spec fn binds_name(item: ItemV, f: FnRef) -> bool {
    match item {
        ItemV::Node(n) => {
            ||| n.discover is Some && (n.source matches Some(TaskSourceV::Spawn(e)) && calls_fn(e, f))
            ||| n.discover is Some && (n.source matches Some(TaskSourceV::Shell(e)) && calls_fn(e, f))
            ||| adopts_fn(n.dataflow, f)
        },
        ItemV::Pool(p) => {
            ||| p.discover is Some && (p.source matches TaskSourceV::Spawn(e) && calls_fn(e, f))
            ||| p.discover is Some && (p.source matches TaskSourceV::Shell(e) && calls_fn(e, f))
            ||| adopts_fn(p.dataflow, f)
        },
        ItemV::Executor(_) => false,
    }
}

/// The item binds the function, by its name or through a bundle.
pub open spec fn binds_fn(item: ItemV, bundles: Seq<BundleV>, f: FnRef) -> bool {
    exists|g: FnRef| #[trigger] binds_name(item, g) && stands_for(g, bundles, f)
}

proof fn lemma_bound(item: ItemV, f: FnRef)
    ensures
        bound_of(item).contains(f) <==> binds_name(item, f),
{
    let task = crate::bindings::some_fn(
        crate::bindings::task_fn(crate::bindings::source_of_item(item)),
    );
    let first = if crate::bindings::discovers(item) {
        task
    } else {
        Seq::empty()
    };
    lemma_adopted(crate::bindings::adopted_of(item), 0, first, f);
    if first.contains(f) {
        assert(first[0] == f);
    }
    if let Some(g) = crate::bindings::task_fn(crate::bindings::source_of_item(item)) {
        assert(task[0] == g);
    }
}

proof fn lemma_bound_expanded(item: ItemV, bundles: Seq<BundleV>, f: FnRef)
    ensures
        bound_expanded(item, bundles).contains(f) <==> binds_fn(item, bundles, f),
{
    let names = bound_of(item);
    lemma_all_expanded(names, bundles, 0, Seq::empty(), f);
    if bound_expanded(item, bundles).contains(f) {
        let k = choose|k: int| 0 <= k < names.len() && stands_for(#[trigger] names[k], bundles, f);
        assert(names.contains(names[k]));
        lemma_bound(item, names[k]);
        assert(binds_name(item, names[k]) && stands_for(names[k], bundles, f));
    }
    if binds_fn(item, bundles, f) {
        let g = choose|g: FnRef| #[trigger] binds_name(item, g) && stands_for(g, bundles, f);
        lemma_bound(item, g);
        let k = choose|k: int| 0 <= k < names.len() && names[k] == g;
        assert(stands_for(names[k], bundles, f));
    }
}

/// The function is among those of the list: one of its name, in the module given or in the graph's
/// own.
pub open spec fn is_scanned(list: Seq<(Seq<char>, Seq<char>)>, f: FnRef, module: Seq<char>) -> bool {
    exists|i: int| 0 <= i < list.len() && names_it(#[trigger] list[i], f, module)
}

/// The scanned function, as `(module, name)`, is the one referred to.
pub open spec fn names_it(x: (Seq<char>, Seq<char>), f: FnRef, module: Seq<char>) -> bool {
    x.1 == f.0 && (f.1 matches Some(h) ==> h == x.0 || x.0 == module)
}

/// A function that an item binds was scanned nowhere.
pub open spec fn is_amiss(
    item: ItemV,
    module: Seq<char>,
    scanned: Seq<(Seq<char>, Seq<char>)>,
    dep_scanned: Seq<(Seq<char>, Seq<char>)>,
    bundles: Seq<BundleV>,
    f: FnRef,
) -> bool {
    binds_fn(item, bundles, f) && !is_scanned(scanned, f, module) && !is_scanned(
        dep_scanned,
        f,
        module,
    )
}

/// The warning on it: the item, and the function as the item names it.
pub open spec fn amiss_text(item: ItemV, f: FnRef) -> Seq<char> {
    (match item {
        ItemV::Node(n) => n.ident,
        ItemV::Pool(p) => p.ident,
        ItemV::Executor(_) => ""@,
    }) + ": no `#[dataflow]` fn `"@ + (match f.1 {
        Some(h) => h + "::"@ + f.0,
        None => f.0,
    }) + NOT_SCANNED@
}

proof fn lemma_any_fn(list: Seq<(Seq<char>, Seq<char>)>, f: FnRef, module: Seq<char>)
    ensures
        any_fn(list, f, module) == is_scanned(list, f, module),
{
    if any_fn(list, f, module) {
        let i = choose|i: int| 0 <= i < list.len() && is_fn(#[trigger] list[i], f, module);
        assert(names_it(list[i], f, module));
    }
    if is_scanned(list, f, module) {
        let i = choose|i: int| 0 <= i < list.len() && names_it(#[trigger] list[i], f, module);
        assert(is_fn(list[i], f, module));
    }
}

proof fn lemma_unscanned(
    node: Seq<char>,
    fns: Seq<FnRef>,
    scanned: Seq<(Seq<char>, Seq<char>)>,
    dep_scanned: Seq<(Seq<char>, Seq<char>)>,
    module: Seq<char>,
    i: int,
    acc: Seq<Seq<char>>,
    w: Seq<char>,
)
    requires
        0 <= i,
    ensures
        unscanned(node, fns, scanned, dep_scanned, module, i, acc).contains(w) <==> acc.contains(w)
            || exists|k: int|
            i <= k < fns.len() && !is_scanned(scanned, #[trigger] fns[k], module) && !is_scanned(
                dep_scanned,
                fns[k],
                module,
            ) && w == unscanned_warning(node, fns[k]),
    decreases fns.len() - i,
{
    if i < fns.len() {
        lemma_any_fn(scanned, fns[i], module);
        lemma_any_fn(dep_scanned, fns[i], module);
        let known = any_fn(scanned, fns[i], module) || any_fn(dep_scanned, fns[i], module);
        let x = unscanned_warning(node, fns[i]);
        let next = if known {
            acc
        } else {
            acc.push(x)
        };
        lemma_unscanned(node, fns, scanned, dep_scanned, module, i + 1, next, w);
        lemma_grown(acc, x, w);
    }
}

proof fn lemma_grown(acc: Seq<Seq<char>>, x: Seq<char>, w: Seq<char>)
    ensures
        acc.push(x).contains(w) <==> acc.contains(w) || x == w,
{
    let next = acc.push(x);
    assert(next[acc.len() as int] == x);
    if acc.contains(w) {
        let k = choose|k: int| 0 <= k < acc.len() && acc[k] == w;
        assert(next[k] == w);
    }
    if next.contains(w) {
        let k = choose|k: int| 0 <= k < next.len() && next[k] == w;
        if k < acc.len() {
            assert(acc[k] == w);
        }
    }
}

spec fn item_warned(
    item: ItemV,
    module: Seq<char>,
    scanned: Seq<(Seq<char>, Seq<char>)>,
    dep_scanned: Seq<(Seq<char>, Seq<char>)>,
    bundles: Seq<BundleV>,
    w: Seq<char>,
) -> bool {
    exists|f: FnRef| #[trigger]
        is_amiss(item, module, scanned, dep_scanned, bundles, f) && w == amiss_text(item, f)
}

proof fn lemma_item_warned(
    item: ItemV,
    module: Seq<char>,
    scanned: Seq<(Seq<char>, Seq<char>)>,
    dep_scanned: Seq<(Seq<char>, Seq<char>)>,
    bundles: Seq<BundleV>,
    acc: Seq<Seq<char>>,
    w: Seq<char>,
)
    ensures
        unscanned(
            owner_name(item),
            bound_expanded(item, bundles),
            scanned,
            dep_scanned,
            module,
            0,
            acc,
        ).contains(w) <==> acc.contains(w) || item_warned(
            item,
            module,
            scanned,
            dep_scanned,
            bundles,
            w,
        ),
{
    let fns = bound_expanded(item, bundles);
    lemma_unscanned(owner_name(item), fns, scanned, dep_scanned, module, 0, acc, w);
    if exists|k: int|
        0 <= k < fns.len() && !is_scanned(scanned, #[trigger] fns[k], module) && !is_scanned(
            dep_scanned,
            fns[k],
            module,
        ) && w == unscanned_warning(owner_name(item), fns[k]) {
        let k = choose|k: int|
            0 <= k < fns.len() && !is_scanned(scanned, #[trigger] fns[k], module) && !is_scanned(
                dep_scanned,
                fns[k],
                module,
            ) && w == unscanned_warning(owner_name(item), fns[k]);
        assert(fns.contains(fns[k]));
        lemma_bound_expanded(item, bundles, fns[k]);
        assert(is_amiss(item, module, scanned, dep_scanned, bundles, fns[k]));
        assert(w == amiss_text(item, fns[k]));
    }
    if item_warned(item, module, scanned, dep_scanned, bundles, w) {
        let f = choose|f: FnRef| #[trigger]
            is_amiss(item, module, scanned, dep_scanned, bundles, f) && w == amiss_text(item, f);
        lemma_bound_expanded(item, bundles, f);
        let k = choose|k: int| 0 <= k < fns.len() && fns[k] == f;
        assert(!is_scanned(scanned, fns[k], module));
    }
}

proof fn lemma_items_warned(
    items: Seq<ItemV>,
    module: Seq<char>,
    scanned: Seq<(Seq<char>, Seq<char>)>,
    dep_scanned: Seq<(Seq<char>, Seq<char>)>,
    bundles: Seq<BundleV>,
    i: int,
    acc: Seq<Seq<char>>,
    w: Seq<char>,
)
    requires
        0 <= i,
    ensures
        item_warnings(items, scanned, dep_scanned, bundles, module, i, acc).contains(w)
            <==> acc.contains(w) || exists|k: int|
            i <= k < items.len() && item_warned(
                #[trigger] items[k],
                module,
                scanned,
                dep_scanned,
                bundles,
                w,
            ),
    decreases items.len() - i,
{
    if i < items.len() {
        let next = unscanned(
            owner_name(items[i]),
            bound_expanded(items[i], bundles),
            scanned,
            dep_scanned,
            module,
            0,
            acc,
        );
        lemma_item_warned(items[i], module, scanned, dep_scanned, bundles, acc, w);
        lemma_items_warned(items, module, scanned, dep_scanned, bundles, i + 1, next, w);
    }
}

spec fn decl_warned(
    d: DeclV,
    scanned: Seq<(Seq<char>, Seq<char>)>,
    dep_scanned: Seq<(Seq<char>, Seq<char>)>,
    bundles: Seq<BundleV>,
    w: Seq<char>,
) -> bool {
    exists|k: int|
        0 <= k < d.spec.items.len() && item_warned(
            #[trigger] d.spec.items[k],
            module_name(d.origin),
            scanned,
            dep_scanned,
            bundles,
            w,
        )
}

proof fn lemma_decls_warned(
    decls: Seq<DeclV>,
    scanned: Seq<(Seq<char>, Seq<char>)>,
    dep_scanned: Seq<(Seq<char>, Seq<char>)>,
    bundles: Seq<BundleV>,
    i: int,
    acc: Seq<Seq<char>>,
    w: Seq<char>,
)
    requires
        0 <= i,
    ensures
        decl_warnings(decls, scanned, dep_scanned, bundles, i, acc).contains(w) <==> acc.contains(w)
            || exists|j: int|
            i <= j < decls.len() && decl_warned(
                #[trigger] decls[j],
                scanned,
                dep_scanned,
                bundles,
                w,
            ),
    decreases decls.len() - i,
{
    if i < decls.len() {
        let d = decls[i];
        let next = item_warnings(
            d.spec.items,
            scanned,
            dep_scanned,
            bundles,
            module_name(d.origin),
            0,
            acc,
        );
        lemma_items_warned(
            d.spec.items,
            module_name(d.origin),
            scanned,
            dep_scanned,
            bundles,
            0,
            acc,
            w,
        );
        lemma_decls_warned(decls, scanned, dep_scanned, bundles, i + 1, next, w);
    }
}

/// Some item of some declaration binds the scanned function.
pub open spec fn is_bound(
    decls: Seq<DeclV>,
    bundles: Seq<BundleV>,
    x: (Seq<char>, Seq<char>),
) -> bool {
    exists|j: int, i: int, f: FnRef|
        0 <= j < decls.len() && 0 <= i < decls[j].spec.items.len() && #[trigger] binds_fn(
            decls[j].spec.items[i],
            bundles,
            f,
        ) && names_it(x, f, module_name(decls[j].origin))
}

proof fn lemma_is_bound(decls: Seq<DeclV>, bundles: Seq<BundleV>, x: (Seq<char>, Seq<char>))
    ensures
        any_binds(decls, bundles, x) == is_bound(decls, bundles, x),
{
    if any_binds(decls, bundles, x) {
        let j = choose|j: int|
            0 <= j < decls.len() && crate::bindings::binds(#[trigger] decls[j], bundles, x);
        let items = decls[j].spec.items;
        let module = module_name(decls[j].origin);
        let i = choose|i: int|
            0 <= i < items.len() && item_binds(#[trigger] items[i], bundles, x, module);
        let fns = bound_expanded(items[i], bundles);
        let k = choose|k: int| 0 <= k < fns.len() && is_fn(x, #[trigger] fns[k], module);
        assert(fns.contains(fns[k]));
        lemma_bound_expanded(items[i], bundles, fns[k]);
        assert(binds_fn(decls[j].spec.items[i], bundles, fns[k]) && names_it(x, fns[k], module));
    }
    if is_bound(decls, bundles, x) {
        let (j, i, f) = choose|j: int, i: int, f: FnRef|
            0 <= j < decls.len() && 0 <= i < decls[j].spec.items.len() && #[trigger] binds_fn(
                decls[j].spec.items[i],
                bundles,
                f,
            ) && names_it(x, f, module_name(decls[j].origin));
        let item = decls[j].spec.items[i];
        lemma_bound_expanded(item, bundles, f);
        let fns = bound_expanded(item, bundles);
        let k = choose|k: int| 0 <= k < fns.len() && fns[k] == f;
        assert(is_fn(x, bound_expanded(item, bundles)[k], module_name(decls[j].origin)));
        assert(item_binds(item, bundles, x, module_name(decls[j].origin)));
        assert(crate::bindings::binds(decls[j], bundles, x));
    }
}

proof fn lemma_unbound(
    decls: Seq<DeclV>,
    bundles: Seq<BundleV>,
    scanned: Seq<(Seq<char>, Seq<char>)>,
    i: int,
    acc: Seq<Seq<char>>,
    w: Seq<char>,
)
    requires
        0 <= i,
    ensures
        unbound(decls, bundles, scanned, i, acc).contains(w) <==> acc.contains(w) || exists|k: int|
            i <= k < scanned.len() && !is_bound(decls, bundles, #[trigger] scanned[k]) && w
                == unbound_warning(scanned[k]),
    decreases scanned.len() - i,
{
    if i < scanned.len() {
        lemma_is_bound(decls, bundles, scanned[i]);
        let x = unbound_warning(scanned[i]);
        let next = if any_binds(decls, bundles, scanned[i]) {
            acc
        } else {
            acc.push(x)
        };
        lemma_unbound(decls, bundles, scanned, i + 1, next, w);
        lemma_grown(acc, x, w);
    }
}

/// The warnings are exactly these: one for each function that an item binds and that was scanned
/// nowhere, by the item and the function; and one for each scanned function that no item binds.
pub proof fn the_warnings_are_what_is_amiss(
    decls: Seq<DeclV>,
    scanned: Seq<(Seq<char>, Seq<char>)>,
    dep_scanned: Seq<(Seq<char>, Seq<char>)>,
    bundles: Seq<BundleV>,
    w: Seq<char>,
)
    ensures
        coverage(decls, scanned, dep_scanned, bundles).contains(w) <==> (exists|
            j: int,
            i: int,
            f: FnRef,
        |
            0 <= j < decls.len() && 0 <= i < decls[j].spec.items.len() && #[trigger] is_amiss(
                decls[j].spec.items[i],
                module_name(decls[j].origin),
                scanned,
                dep_scanned,
                bundles,
                f,
            ) && w == amiss_text(decls[j].spec.items[i], f)) || (exists|k: int|
            0 <= k < scanned.len() && !is_bound(decls, bundles, #[trigger] scanned[k]) && w
                == "`#[dataflow]` fn `"@ + scanned[k].0 + "::"@ + scanned[k].1 + NOT_BOUND@),
{
    let first = decl_warnings(decls, scanned, dep_scanned, bundles, 0, Seq::empty());
    lemma_decls_warned(decls, scanned, dep_scanned, bundles, 0, Seq::empty(), w);
    lemma_unbound(decls, bundles, scanned, 0, first, w);
    if first.contains(w) {
        let j = choose|j: int|
            0 <= j < decls.len() && decl_warned(
                #[trigger] decls[j],
                scanned,
                dep_scanned,
                bundles,
                w,
            );
        let module = module_name(decls[j].origin);
        let i = choose|i: int|
            0 <= i < decls[j].spec.items.len() && item_warned(
                #[trigger] decls[j].spec.items[i],
                module,
                scanned,
                dep_scanned,
                bundles,
                w,
            );
        let item = decls[j].spec.items[i];
        let f = choose|f: FnRef| #[trigger]
            is_amiss(item, module, scanned, dep_scanned, bundles, f) && w == amiss_text(item, f);
        assert(is_amiss(decls[j].spec.items[i], module, scanned, dep_scanned, bundles, f));
    }
    if exists|j: int, i: int, f: FnRef|
        0 <= j < decls.len() && 0 <= i < decls[j].spec.items.len() && #[trigger] is_amiss(
            decls[j].spec.items[i],
            module_name(decls[j].origin),
            scanned,
            dep_scanned,
            bundles,
            f,
        ) && w == amiss_text(decls[j].spec.items[i], f) {
        let (j, i, f) = choose|j: int, i: int, f: FnRef|
            0 <= j < decls.len() && 0 <= i < decls[j].spec.items.len() && #[trigger] is_amiss(
                decls[j].spec.items[i],
                module_name(decls[j].origin),
                scanned,
                dep_scanned,
                bundles,
                f,
            ) && w == amiss_text(decls[j].spec.items[i], f);
        assert(item_warned(
            decls[j].spec.items[i],
            module_name(decls[j].origin),
            scanned,
            dep_scanned,
            bundles,
            w,
        ));
        assert(decl_warned(decls[j], scanned, dep_scanned, bundles, w));
    }
}

/// An attribute marks the function for scanning.
pub open spec fn has_mark(f: SrcFnV) -> bool {
    exists|k: int| 0 <= k < f.attrs.len() && mark_of(#[trigger] f.attrs[k]) is Some
}

/// The functions scanned in a file are its marked functions, each under the file's module.
pub proof fn the_functions_scanned_are_the_marked_ones(
    items: Seq<SrcItemV>,
    module: Seq<char>,
    i: int,
    acc: Seq<(Seq<char>, Seq<char>)>,
    x: (Seq<char>, Seq<char>),
)
    requires
        0 <= i,
    ensures
        item_fns(items, module, i, acc).contains(x) <==> acc.contains(x) || (x.0 == module && exists|
            k: int,
        |
            i <= k < items.len() && (#[trigger] items[k] matches SrcItemV::Fn(f) && has_mark(f)
                && f.name == x.1)),
    decreases items.len() - i,
{
    if i < items.len() {
        let next = match items[i] {
            SrcItemV::Fn(f) => if crate::discover::marked(f.attrs) {
                acc.push((module, f.name))
            } else {
                acc
            },
            _ => acc,
        };
        the_functions_scanned_are_the_marked_ones(items, module, i + 1, next, x);
        if acc.contains(x) {
            let k = choose|k: int| 0 <= k < acc.len() && acc[k] == x;
            assert(next[k] == x);
        }
        if let SrcItemV::Fn(f) = items[i] {
            assert(crate::discover::marked(f.attrs) == has_mark(f));
            if has_mark(f) {
                assert(next[acc.len() as int] == (module, f.name));
            }
        }
        if next.contains(x) && !acc.contains(x) {
            let k = choose|k: int| 0 <= k < next.len() && next[k] == x;
            if k < acc.len() {
                assert(acc[k] == x);
            }
        }
    }
}

/// An attribute makes the module a bundle.
pub open spec fn is_bundle_mark(a: AttrV) -> bool {
    a.path.len() > 0 && a.path.last() == "dataflow_bundle"@
}

proof fn lemma_bundle_attr(attrs: Seq<AttrV>, i: int)
    requires
        0 <= i,
    ensures
        bundle_attr(attrs, i) matches Some(a) ==> is_bundle_mark(a) && exists|k: int|
            i <= k < attrs.len() && #[trigger] attrs[k] == a,
        bundle_attr(attrs, i) is None ==> forall|k: int|
            i <= k < attrs.len() ==> !is_bundle_mark(#[trigger] attrs[k]),
    decreases attrs.len() - i,
{
    if i < attrs.len() {
        lemma_bundle_attr(attrs, i + 1);
    }
}

proof fn lemma_module_fns(items: Seq<SrcItemV>, i: int, depth: nat, acc: Seq<Seq<char>>, x: Seq<char>)
    requires
        0 <= i,
    ensures
        acc.contains(x) ==> module_fns(items, i, depth, acc).contains(x),
        module_fns(items, i, depth, acc).contains(x) && !acc.contains(x) ==> exists|k: int|
            i <= k < items.len() && (#[trigger] items[k] matches SrcItemV::Fn(f) && has_mark(f)
                && f.name == x),
    decreases items.len() - i,
{
    if i < items.len() {
        match items[i] {
            SrcItemV::ModOpen(_) => {
                lemma_module_fns(items, i + 1, depth + 1, acc, x);
            },
            SrcItemV::ModClose => {
                if depth > 0 {
                    lemma_module_fns(items, i + 1, (depth - 1) as nat, acc, x);
                }
            },
            SrcItemV::Fn(f) => {
                let next = if depth == 0 && crate::discover::marked(f.attrs) {
                    acc.push(f.name)
                } else {
                    acc
                };
                lemma_grown(acc, f.name, x);
                assert(crate::discover::marked(f.attrs) == has_mark(f));
                lemma_module_fns(items, i + 1, depth, next, x);
            },
            _ => {
                lemma_module_fns(items, i + 1, depth, acc, x);
            },
        }
    }
}

proof fn lemma_module_has(items: Seq<SrcItemV>, i: int, acc: Seq<Seq<char>>, k: int)
    requires
        0 <= i <= k < items.len(),
        items[k] is Fn && has_mark(items[k]->Fn_0),
        forall|m: int|
            i <= m < k ==> !(#[trigger] items[m] is ModOpen) && !(items[m] is ModClose),
    ensures
        module_fns(items, i, 0, acc).contains(items[k]->Fn_0.name),
    decreases items.len() - i,
{
    let name = items[k]->Fn_0.name;
    match items[i] {
        SrcItemV::Fn(f) => {
            assert(crate::discover::marked(f.attrs) == has_mark(f));
            let next = if crate::discover::marked(f.attrs) {
                acc.push(f.name)
            } else {
                acc
            };
            if i == k {
                lemma_grown(acc, name, name);
                lemma_module_fns(items, i + 1, 0, next, name);
            } else {
                lemma_module_has(items, i + 1, next, k);
            }
        },
        _ => {
            assert(i < k);
            lemma_module_has(items, i + 1, acc, k);
        },
    }
}

/// A bundle is a module marked as one: it has the name that the mark gives, else `BUNDLE`, and the
/// marked functions that stand in the module itself.
pub proof fn a_bundle_is_a_marked_module(items: Seq<SrcItemV>, module: Seq<char>, i: int, k: int)
    requires
        0 <= i < items.len(),
    ensures
        bundle_at(items, module, i) is Some <==> (items[i] matches SrcItemV::ModOpen(m) && exists|
            j: int,
        |
            0 <= j < m.attrs.len() && is_bundle_mark(#[trigger] m.attrs[j])),
        bundle_at(items, module, i) matches Some(b) ==> {
            &&& b.module == module
            &&& b.mod_name == items[i]->ModOpen_0.name
            &&& exists|j: int|
                0 <= j < items[i]->ModOpen_0.attrs.len() && is_bundle_mark(
                    #[trigger] items[i]->ModOpen_0.attrs[j],
                ) && b.name == (match items[i]->ModOpen_0.attrs[j].list {
                    Some(t) => if t.len() == 0 {
                        "BUNDLE"@
                    } else {
                        t
                    },
                    None => "BUNDLE"@,
                })
            &&& forall|x: Seq<char>| #[trigger]
                b.fns.contains(x) ==> exists|n: int|
                    i < n < items.len() && (#[trigger] items[n] matches SrcItemV::Fn(f) && has_mark(
                        f,
                    ) && f.name == x)
            &&& i < k < items.len() && (items[k] matches SrcItemV::Fn(f) && has_mark(f)) && (forall|
                n: int,
            |
                i < n < k ==> !(#[trigger] items[n] is ModOpen) && !(items[n] is ModClose))
                ==> b.fns.contains(items[k]->Fn_0.name)
        },
{
    if let SrcItemV::ModOpen(m) = items[i] {
        lemma_bundle_attr(m.attrs, 0);
        if let Some(a) = bundle_attr(m.attrs, 0) {
            let j = choose|j: int| 0 <= j < m.attrs.len() && #[trigger] m.attrs[j] == a;
            assert(is_bundle_mark(m.attrs[j]));
            let b = bundle_at(items, module, i)->0;
            assert forall|x: Seq<char>| #[trigger] b.fns.contains(x) implies exists|n: int|
                i < n < items.len() && (#[trigger] items[n] matches SrcItemV::Fn(f) && has_mark(f)
                    && f.name == x) by {
                lemma_module_fns(items, i + 1, 0, Seq::empty(), x);
            }
            if i < k < items.len() && (items[k] matches SrcItemV::Fn(f) && has_mark(f)) && (forall|
                n: int,
            |
                i < n < k ==> !(#[trigger] items[n] is ModOpen) && !(items[n] is ModClose)) {
                lemma_module_has(items, i + 1, Seq::empty(), k);
            }
        }
    }
}

/// A file has one bundle for each module marked as one.
pub proof fn every_marked_module_is_a_bundle(
    items: Seq<SrcItemV>,
    module: Seq<char>,
    i: int,
    acc: Seq<BundleV>,
    b: BundleV,
)
    requires
        0 <= i,
    ensures
        item_bundles(items, module, i, acc).contains(b) <==> acc.contains(b) || exists|k: int|
            i <= k < items.len() && #[trigger] bundle_at(items, module, k) == Some(b),
    decreases items.len() - i,
{
    if i < items.len() {
        let next = match bundle_at(items, module, i) {
            Some(x) => acc.push(x),
            None => acc,
        };
        every_marked_module_is_a_bundle(items, module, i + 1, next, b);
        if acc.contains(b) {
            let k = choose|k: int| 0 <= k < acc.len() && acc[k] == b;
            assert(next[k] == b);
        }
        if bundle_at(items, module, i) == Some(b) {
            assert(next[acc.len() as int] == b);
        }
        if next.contains(b) && !acc.contains(b) {
            let k = choose|k: int| 0 <= k < next.len() && next[k] == b;
            if k < acc.len() {
                assert(acc[k] == b);
            }
            assert(bundle_at(items, module, i) == Some(b));
        }
    }
}

} // verus!
