//! Which `#[dataflow]` functions the items of a graph bind.

use vstd::prelude::*;
use vstd::string::*;

use crate::ast::{AdoptedFn, AdoptedFnV, Item, ItemV, TaskSource, TaskSourceV};
use crate::discover::{module_name, module_of, Bundle, BundleV, Discovered, DiscoveredV};
use crate::find::{Decl, DeclV};
use crate::list::{put, Dup};
use crate::rust::call_path;
use crate::scan::append;
use crate::text::{cat3, cat4, cat5, same};

verus! {

/// A function by its name, and the module it is said to be in.
pub type FnRef = (Seq<char>, Option<Seq<char>>);

/// The bundle that a function reference names: by its name, and by its module where one is given.
pub open spec fn names_bundle(b: BundleV, f: FnRef) -> bool {
    b.name == f.0 && (f.1 matches Some(h) ==> h == b.mod_name || h == b.module)
}

/// The first bundle from number `i` on that a function reference names.
pub open spec fn bundle_named(bundles: Seq<BundleV>, f: FnRef, i: int) -> Option<BundleV>
    decreases bundles.len() - i,
{
    if i >= bundles.len() {
        None
    } else if names_bundle(bundles[i], f) {
        Some(bundles[i])
    } else {
        bundle_named(bundles, f, i + 1)
    }
}

/// A function reference, or the functions of the bundle that it names.
pub open spec fn expanded(f: FnRef, bundles: Seq<BundleV>) -> Seq<FnRef> {
    match bundle_named(bundles, f, 0) {
        Some(b) => Seq::new(b.fns.len(), |i: int| (b.fns[i], Some(b.module))),
        None => seq![f],
    }
}

/// The function references from number `i` on, bundles replaced by their functions, behind `acc`.
pub open spec fn all_expanded(
    pairs: Seq<FnRef>,
    bundles: Seq<BundleV>,
    i: int,
    acc: Seq<FnRef>,
) -> Seq<FnRef>
    decreases pairs.len() - i,
{
    if i >= pairs.len() {
        acc
    } else {
        all_expanded(pairs, bundles, i + 1, acc + expanded(pairs[i], bundles))
    }
}

fn find_bundle<'a>(bundles: &'a Vec<Bundle>, name: &str, hint: &Option<String>) -> (r: Option<&'a Bundle>)
    ensures
        match r {
            Some(b) => bundle_named(bundles.deep_view(), (name@, hint.deep_view()), 0) == Some(
                b.deep_view(),
            ),
            None => bundle_named(bundles.deep_view(), (name@, hint.deep_view()), 0) is None,
        },
{
    let mut i: usize = 0;
    while i < bundles.len()
        invariant
            i <= bundles@.len(),
            bundle_named(bundles.deep_view(), (name@, hint.deep_view()), 0) == bundle_named(
                bundles.deep_view(),
                (name@, hint.deep_view()),
                i as int,
            ),
        decreases bundles@.len() - i,
    {
        let b = &bundles[i];
        let fits = match hint {
            Some(h) => same(h.as_str(), b.mod_name.as_str()) || same(h.as_str(), b.module.as_str()),
            None => true,
        };
        if same(b.name.as_str(), name) && fits {
            return Some(b);
        }
        i = i + 1;
    }
    None
}

fn expand_one(name: &String, hint: &Option<String>, bundles: &Vec<Bundle>) -> (r: Vec<
    (String, Option<String>),
>)
    ensures
        r.deep_view() == expanded((name@, hint.deep_view()), bundles.deep_view()),
{
    let mut out: Vec<(String, Option<String>)> = Vec::new();
    match find_bundle(bundles, name.as_str(), hint) {
        Some(b) => {
            let ghost all = expanded((name@, hint.deep_view()), bundles.deep_view());
            let mut i: usize = 0;
            while i < b.fns.len()
                invariant
                    i <= b.fns@.len(),
                    all == Seq::new(
                        b.deep_view().fns.len(),
                        |k: int| (b.deep_view().fns[k], Some(b.deep_view().module)),
                    ),
                    out.deep_view() == all.take(i as int),
                decreases b.fns@.len() - i,
            {
                put(&mut out, (b.fns[i].clone(), Some(b.module.clone())));
                i = i + 1;
                assert(out.deep_view() == all.take(i as int));
            }
            assert(all.take(all.len() as int) == all);
        },
        None => {
            put(&mut out, (name.clone(), hint.dup()));
            assert(out.deep_view() == seq![(name@, hint.deep_view())]);
        },
    }
    out
}

/// Replaces the references that name a bundle by the functions of that bundle; the others stay.
pub fn expand_bundles(pairs: &Vec<(String, Option<String>)>, bundles: &Vec<Bundle>) -> (r: Vec<
    (String, Option<String>),
>)
    ensures
        r.deep_view() == all_expanded(pairs.deep_view(), bundles.deep_view(), 0, Seq::empty()),
{
    let ghost p = pairs.deep_view();
    let mut out: Vec<(String, Option<String>)> = Vec::new();
    assert(out.deep_view() == Seq::<FnRef>::empty());
    let mut i: usize = 0;
    while i < pairs.len()
        invariant
            i <= pairs@.len(),
            p == pairs.deep_view(),
            all_expanded(p, bundles.deep_view(), 0, Seq::empty()) == all_expanded(
                p,
                bundles.deep_view(),
                i as int,
                out.deep_view(),
            ),
        decreases pairs@.len() - i,
    {
        let more = expand_one(&pairs[i].0, &pairs[i].1, bundles);
        append(&mut out, &more);
        i = i + 1;
    }
    out
}

/// Where no bundle has a referenced name, the references stay as they are.
pub proof fn expanding_without_bundles_changes_nothing(pairs: Seq<FnRef>, bundles: Seq<BundleV>)
    requires
        forall|i: int, j: int|
            0 <= i < pairs.len() && 0 <= j < bundles.len() ==> (#[trigger] pairs[i]).0 != (
            #[trigger] bundles[j]).name,
    ensures
        all_expanded(pairs, bundles, 0, Seq::empty()) == pairs,
{
    lemma_nothing_expands(pairs, bundles, 0);
    assert(pairs.take(0) == Seq::<FnRef>::empty());
}

proof fn lemma_no_bundle(bundles: Seq<BundleV>, f: FnRef, i: int)
    requires
        0 <= i,
        forall|j: int| 0 <= j < bundles.len() ==> (#[trigger] bundles[j]).name != f.0,
    ensures
        bundle_named(bundles, f, i) is None,
    decreases bundles.len() - i,
{
    if i < bundles.len() {
        lemma_no_bundle(bundles, f, i + 1);
    }
}

proof fn lemma_nothing_expands(pairs: Seq<FnRef>, bundles: Seq<BundleV>, i: int)
    requires
        0 <= i <= pairs.len(),
        forall|i: int, j: int|
            0 <= i < pairs.len() && 0 <= j < bundles.len() ==> (#[trigger] pairs[i]).0 != (
            #[trigger] bundles[j]).name,
    ensures
        all_expanded(pairs, bundles, i, pairs.take(i)) == pairs,
    decreases pairs.len() - i,
{
    if i < pairs.len() {
        lemma_no_bundle(bundles, pairs[i], 0);
        assert(pairs.take(i) + seq![pairs[i]] == pairs.take(i + 1));
        lemma_nothing_expands(pairs, bundles, i + 1);
    } else {
        assert(pairs.take(i) == pairs);
    }
}

/// The function that a path names: its last segment, and the module before it unless that is
/// `crate`, `self` or `super`.
pub open spec fn fn_named(segments: Seq<Seq<char>>) -> Option<FnRef> {
    let n = segments.len();
    if n == 0 {
        None
    } else if n >= 2 && segments[n - 2] != "crate"@ && segments[n - 2] != "self"@ && segments[n - 2]
        != "super"@ {
        Some((segments[n - 1], Some(segments[n - 2])))
    } else {
        Some((segments[n - 1], None))
    }
}

fn name_fn(segments: &Vec<String>) -> (r: Option<(String, Option<String>)>)
    ensures
        r.deep_view() == fn_named(segments.deep_view()),
{
    let n = segments.len();
    if n == 0 {
        return None;
    }
    let name = segments[n - 1].clone();
    if n >= 2 {
        let m = &segments[n - 2];
        if !same(m.as_str(), "crate") && !same(m.as_str(), "self") && !same(m.as_str(), "super") {
            return Some((name, Some(m.clone())));
        }
    }
    Some((name, None))
}

/// The task function that a task source names.
pub open spec fn task_fn(source: Option<TaskSourceV>) -> Option<FnRef> {
    match source {
        None => None,
        Some(t) => {
            let e = match t {
                TaskSourceV::Spawn(e) => e,
                TaskSourceV::Shell(e) => e,
            };
            match call_path(e.callee) {
                Some(segments) => fn_named(segments),
                None => None,
            }
        },
    }
}

fn name_task_fn(source: &TaskSource) -> (r: Option<(String, Option<String>)>)
    ensures
        r.deep_view() == task_fn(Some(source.deep_view())),
{
    let e = match source {
        TaskSource::Spawn(e) => e,
        TaskSource::Shell(e) => e,
    };
    match e.callee.segments() {
        Some(segments) => name_fn(&segments),
        None => None,
    }
}

/// The task source of an item.
pub open spec fn source_of_item(item: ItemV) -> Option<TaskSourceV> {
    match item {
        ItemV::Node(n) => n.source,
        ItemV::Pool(p) => Some(p.source),
        ItemV::Executor(_) => None,
    }
}

/// The functions that an item adopts.
pub open spec fn adopted_of(item: ItemV) -> Seq<AdoptedFnV> {
    match item {
        ItemV::Node(n) => n.dataflow,
        ItemV::Pool(p) => p.dataflow,
        ItemV::Executor(_) => Seq::empty(),
    }
}

/// The item is marked `discover`.
pub open spec fn discovers(item: ItemV) -> bool {
    match item {
        ItemV::Node(n) => n.discover is Some,
        ItemV::Pool(p) => p.discover is Some,
        ItemV::Executor(_) => false,
    }
}

/// The functions adopted from number `i` on, behind `acc`.
pub open spec fn adopted_fns(list: Seq<AdoptedFnV>, i: int, acc: Seq<FnRef>) -> Seq<FnRef>
    decreases list.len() - i,
{
    if i >= list.len() {
        acc
    } else {
        adopted_fns(
            list,
            i + 1,
            match fn_named(list[i].path.segments) {
                Some(f) => acc.push(f),
                None => acc,
            },
        )
    }
}

fn name_adopted(list: &Vec<AdoptedFn>, out: &mut Vec<(String, Option<String>)>)
    ensures
        final(out).deep_view() == adopted_fns(list.deep_view(), 0, old(out).deep_view()),
{
    let ghost l = list.deep_view();
    let ghost start = out.deep_view();
    let mut i: usize = 0;
    while i < list.len()
        invariant
            i <= list@.len(),
            l == list.deep_view(),
            adopted_fns(l, 0, start) == adopted_fns(l, i as int, out.deep_view()),
        decreases list@.len() - i,
    {
        if let Some(f) = name_fn(&list[i].path.segments) {
            put(out, f);
        }
        i = i + 1;
    }
}

/// One function, or none.
pub open spec fn some_fn(f: Option<FnRef>) -> Seq<FnRef> {
    match f {
        Some(x) => seq![x],
        None => Seq::empty(),
    }
}

/// The functions whose accesses an item may have: its task function and those it adopts.
pub open spec fn fn_sources(item: ItemV) -> Seq<FnRef> {
    adopted_fns(adopted_of(item), 0, some_fn(task_fn(source_of_item(item))))
}

/// The functions that an item binds: its task function where it discovers, and those it adopts.
pub open spec fn bound_of(item: ItemV) -> Seq<FnRef> {
    adopted_fns(
        adopted_of(item),
        0,
        if discovers(item) {
            some_fn(task_fn(source_of_item(item)))
        } else {
            Seq::empty()
        },
    )
}

fn some_task_fn(source: Option<&TaskSource>) -> (r: Vec<(String, Option<String>)>)
    ensures
        r.deep_view() == (match source {
            Some(t) => some_fn(task_fn(Some(t.deep_view()))),
            None => Seq::empty(),
        }),
{
    let mut out: Vec<(String, Option<String>)> = Vec::new();
    assert(out.deep_view() == Seq::<FnRef>::empty());
    if let Some(t) = source {
        if let Some(f) = name_task_fn(t) {
            let ghost fv = f.deep_view();
            put(&mut out, f);
            assert(out.deep_view() == seq![fv]);
        }
    }
    out
}

/// The functions whose accesses an item may have.
pub fn dataflow_fn_sources(item: &Item) -> (r: Vec<(String, Option<String>)>)
    ensures
        r.deep_view() == fn_sources(item.deep_view()),
{
    match item {
        Item::Node(n) => {
            let mut out = some_task_fn(n.source.as_ref());
            name_adopted(&n.dataflow, &mut out);
            out
        },
        Item::Pool(p) => {
            let mut out = some_task_fn(Some(&p.source));
            name_adopted(&p.dataflow, &mut out);
            out
        },
        Item::Executor(_) => {
            let out: Vec<(String, Option<String>)> = Vec::new();
            assert(out.deep_view() == Seq::<FnRef>::empty());
            out
        },
    }
}

fn bound_fns(item: &Item) -> (r: Vec<(String, Option<String>)>)
    ensures
        r.deep_view() == bound_of(item.deep_view()),
{
    match item {
        Item::Node(n) => {
            let mut out = some_task_fn(
                if n.discover.is_some() {
                    n.source.as_ref()
                } else {
                    None
                },
            );
            name_adopted(&n.dataflow, &mut out);
            out
        },
        Item::Pool(p) => {
            let mut out = some_task_fn(
                if p.discover.is_some() {
                    Some(&p.source)
                } else {
                    None
                },
            );
            name_adopted(&p.dataflow, &mut out);
            out
        },
        Item::Executor(_) => {
            let out: Vec<(String, Option<String>)> = Vec::new();
            assert(out.deep_view() == Seq::<FnRef>::empty());
            out
        },
    }
}

/// A scanned function, as `(module, name)`, is the one that a graph in `graph_module` refers to.
pub open spec fn is_fn(scanned: (Seq<char>, Seq<char>), f: FnRef, graph_module: Seq<char>) -> bool {
    scanned.1 == f.0 && (f.1 matches Some(h) ==> h == scanned.0 || scanned.0 == graph_module)
}

fn fn_matches(scanned: &(String, String), name: &str, hint: &Option<String>, graph_module: &str) -> (r:
    bool)
    ensures
        r == is_fn(scanned.deep_view(), (name@, hint.deep_view()), graph_module@),
{
    if !same(scanned.1.as_str(), name) {
        return false;
    }
    match hint {
        Some(h) => same(h.as_str(), scanned.0.as_str()) || same(scanned.0.as_str(), graph_module),
        None => true,
    }
}

/// A function of the list is the one referred to.
pub open spec fn any_fn(list: Seq<(Seq<char>, Seq<char>)>, f: FnRef, graph_module: Seq<char>) -> bool {
    exists|i: int| 0 <= i < list.len() && is_fn(#[trigger] list[i], f, graph_module)
}

fn matches_any(
    list: &Vec<(String, String)>,
    name: &str,
    hint: &Option<String>,
    graph_module: &str,
) -> (r:
    bool)
    ensures
        r == any_fn(list.deep_view(), (name@, hint.deep_view()), graph_module@),
{
    let ghost l = list.deep_view();
    let ghost f = (name@, hint.deep_view());
    let mut i: usize = 0;
    while i < list.len()
        invariant
            i <= list@.len(),
            l == list.deep_view(),
            f == (name@, hint.deep_view()),
            forall|k: int| 0 <= k < i ==> !is_fn(#[trigger] l[k], f, graph_module@),
        decreases list@.len() - i,
    {
        if fn_matches(&list[i], name, hint, graph_module) {
            assert(is_fn(l[i as int], f, graph_module@));
            return true;
        }
        i = i + 1;
    }
    false
}

/// A graph's function reference in words.
pub open spec fn shown(f: FnRef) -> Seq<char> {
    match f.1 {
        Some(h) => h + "::"@ + f.0,
        None => f.0,
    }
}

pub const NOT_SCANNED: &'static str = "` among the scanned files — its derived edges will not draw; pass the file that defines it";

pub const NOT_BOUND: &'static str = "` is not bound by any declaration (no `discover` task or `dataflow:` adoption names it)";

pub open spec fn unscanned_warning(node: Seq<char>, f: FnRef) -> Seq<char> {
    node + ": no `#[dataflow]` fn `"@ + shown(f) + NOT_SCANNED@
}

pub open spec fn unbound_warning(f: (Seq<char>, Seq<char>)) -> Seq<char> {
    "`#[dataflow]` fn `"@ + f.0 + "::"@ + f.1 + NOT_BOUND@
}

/// The name of an item; empty for an executor, which binds nothing.
pub open spec fn owner_name(item: ItemV) -> Seq<char> {
    match item {
        ItemV::Node(n) => n.ident,
        ItemV::Pool(p) => p.ident,
        ItemV::Executor(x) => x.ident,
    }
}

fn read_owner_name(item: &Item) -> (r: String)
    ensures
        r@ == owner_name(item.deep_view()),
{
    match item {
        Item::Node(n) => n.ident.clone(),
        Item::Pool(p) => p.ident.clone(),
        Item::Executor(x) => x.ident.clone(),
    }
}

/// The warnings for the functions `fns[i..]` that `node` binds and no scanned file has, behind
/// `acc`.
pub open spec fn unscanned(
    node: Seq<char>,
    fns: Seq<FnRef>,
    scanned: Seq<(Seq<char>, Seq<char>)>,
    dep_scanned: Seq<(Seq<char>, Seq<char>)>,
    graph_module: Seq<char>,
    i: int,
    acc: Seq<Seq<char>>,
) -> Seq<Seq<char>>
    decreases fns.len() - i,
{
    if i >= fns.len() {
        acc
    } else {
        unscanned(
            node,
            fns,
            scanned,
            dep_scanned,
            graph_module,
            i + 1,
            if any_fn(scanned, fns[i], graph_module) || any_fn(dep_scanned, fns[i], graph_module) {
                acc
            } else {
                acc.push(unscanned_warning(node, fns[i]))
            },
        )
    }
}

/// The functions that an item binds, bundles replaced by their functions.
pub open spec fn bound_expanded(item: ItemV, bundles: Seq<BundleV>) -> Seq<FnRef> {
    all_expanded(bound_of(item), bundles, 0, Seq::empty())
}

/// The warnings for the items `items[i..]`, behind `acc`.
pub open spec fn item_warnings(
    items: Seq<ItemV>,
    scanned: Seq<(Seq<char>, Seq<char>)>,
    dep_scanned: Seq<(Seq<char>, Seq<char>)>,
    bundles: Seq<BundleV>,
    graph_module: Seq<char>,
    i: int,
    acc: Seq<Seq<char>>,
) -> Seq<Seq<char>>
    decreases items.len() - i,
{
    if i >= items.len() {
        acc
    } else {
        item_warnings(
            items,
            scanned,
            dep_scanned,
            bundles,
            graph_module,
            i + 1,
            unscanned(
                owner_name(items[i]),
                bound_expanded(items[i], bundles),
                scanned,
                dep_scanned,
                graph_module,
                0,
                acc,
            ),
        )
    }
}

/// The warnings for the declarations `decls[i..]`, behind `acc`.
pub open spec fn decl_warnings(
    decls: Seq<DeclV>,
    scanned: Seq<(Seq<char>, Seq<char>)>,
    dep_scanned: Seq<(Seq<char>, Seq<char>)>,
    bundles: Seq<BundleV>,
    i: int,
    acc: Seq<Seq<char>>,
) -> Seq<Seq<char>>
    decreases decls.len() - i,
{
    if i >= decls.len() {
        acc
    } else {
        decl_warnings(
            decls,
            scanned,
            dep_scanned,
            bundles,
            i + 1,
            item_warnings(
                decls[i].spec.items,
                scanned,
                dep_scanned,
                bundles,
                module_name(decls[i].origin),
                0,
                acc,
            ),
        )
    }
}

/// An item binds this function, in a graph in `graph_module`.
pub open spec fn item_binds(
    item: ItemV,
    bundles: Seq<BundleV>,
    f: (Seq<char>, Seq<char>),
    graph_module: Seq<char>,
) -> bool {
    exists|k: int|
        0 <= k < bound_expanded(item, bundles).len() && is_fn(
            f,
            #[trigger] bound_expanded(item, bundles)[k],
            graph_module,
        )
}

/// An item of a declaration binds this function.
pub open spec fn binds(d: DeclV, bundles: Seq<BundleV>, f: (Seq<char>, Seq<char>)) -> bool {
    exists|i: int|
        0 <= i < d.spec.items.len() && item_binds(
            #[trigger] d.spec.items[i],
            bundles,
            f,
            module_name(d.origin),
        )
}

/// A declaration of the list binds this function.
pub open spec fn any_binds(
    decls: Seq<DeclV>,
    bundles: Seq<BundleV>,
    f: (Seq<char>, Seq<char>),
) -> bool {
    exists|j: int| 0 <= j < decls.len() && binds(#[trigger] decls[j], bundles, f)
}

/// The warnings for the scanned functions from number `i` on that nothing binds, behind `acc`.
pub open spec fn unbound(
    decls: Seq<DeclV>,
    bundles: Seq<BundleV>,
    scanned: Seq<(Seq<char>, Seq<char>)>,
    i: int,
    acc: Seq<Seq<char>>,
) -> Seq<Seq<char>>
    decreases scanned.len() - i,
{
    if i >= scanned.len() {
        acc
    } else {
        unbound(
            decls,
            bundles,
            scanned,
            i + 1,
            if any_binds(decls, bundles, scanned[i]) {
                acc
            } else {
                acc.push(unbound_warning(scanned[i]))
            },
        )
    }
}

/// Every mismatch between what the declarations bind and what was scanned.
pub open spec fn coverage(
    decls: Seq<DeclV>,
    scanned: Seq<(Seq<char>, Seq<char>)>,
    dep_scanned: Seq<(Seq<char>, Seq<char>)>,
    bundles: Seq<BundleV>,
) -> Seq<Seq<char>> {
    unbound(
        decls,
        bundles,
        scanned,
        0,
        decl_warnings(decls, scanned, dep_scanned, bundles, 0, Seq::empty()),
    )
}

fn warn_unscanned(
    node: &String,
    fns: &Vec<(String, Option<String>)>,
    scanned: &Vec<(String, String)>,
    dep_scanned: &Vec<(String, String)>,
    graph_module: &String,
    out: &mut Vec<String>,
)
    ensures
        final(out).deep_view() == unscanned(
            node@,
            fns.deep_view(),
            scanned.deep_view(),
            dep_scanned.deep_view(),
            graph_module@,
            0,
            old(out).deep_view(),
        ),
{
    let ghost f = fns.deep_view();
    let ghost sc = scanned.deep_view();
    let ghost ds = dep_scanned.deep_view();
    let ghost start = out.deep_view();
    let mut i: usize = 0;
    while i < fns.len()
        invariant
            i <= fns@.len(),
            f == fns.deep_view(),
            sc == scanned.deep_view(),
            ds == dep_scanned.deep_view(),
            unscanned(node@, f, sc, ds, graph_module@, 0, start) == unscanned(
                node@,
                f,
                sc,
                ds,
                graph_module@,
                i as int,
                out.deep_view(),
            ),
        decreases fns@.len() - i,
    {
        let name = &fns[i].0;
        let hint = &fns[i].1;
        if !(matches_any(scanned, name.as_str(), hint, graph_module.as_str()) || matches_any(
            dep_scanned,
            name.as_str(),
            hint,
            graph_module.as_str(),
        )) {
            let says = match hint {
                Some(h) => cat3(h.as_str(), "::", name.as_str()),
                None => name.clone(),
            };
            let w = cat4(
                node.as_str(),
                ": no `#[dataflow]` fn `",
                says.as_str(),
                NOT_SCANNED,
            );
            put(out, w);
        }
        i = i + 1;
    }
}

fn does_item_bind(item: &Item, bundles: &Vec<Bundle>, f: &(String, String), graph_module: &str) -> (r:
    bool)
    ensures
        r == item_binds(item.deep_view(), bundles.deep_view(), f.deep_view(), graph_module@),
{
    let fns = expand_bundles(&bound_fns(item), bundles);
    let ghost b = bound_expanded(item.deep_view(), bundles.deep_view());
    let mut i: usize = 0;
    while i < fns.len()
        invariant
            i <= fns@.len(),
            b == fns.deep_view(),
            b == bound_expanded(item.deep_view(), bundles.deep_view()),
            forall|k: int| 0 <= k < i ==> !is_fn(f.deep_view(), #[trigger] b[k], graph_module@),
        decreases fns@.len() - i,
    {
        if fn_matches(f, fns[i].0.as_str(), &fns[i].1, graph_module) {
            assert(is_fn(f.deep_view(), b[i as int], graph_module@));
            return true;
        }
        i = i + 1;
    }
    false
}

fn decl_binds(d: &Decl, bundles: &Vec<Bundle>, f: &(String, String)) -> (r: bool)
    ensures
        r == binds(d.deep_view(), bundles.deep_view(), f.deep_view()),
{
    let module = module_of(d.origin.as_str());
    let ghost items = d.deep_view().spec.items;
    let ghost bv = bundles.deep_view();
    let ghost fv = f.deep_view();
    let mut i: usize = 0;
    while i < d.spec.items.len()
        invariant
            i <= d.spec.items@.len(),
            items == d.deep_view().spec.items,
            bv == bundles.deep_view(),
            fv == f.deep_view(),
            module@ == module_name(d.deep_view().origin),
            forall|j: int| 0 <= j < i ==> !item_binds(#[trigger] items[j], bv, fv, module@),
        decreases d.spec.items@.len() - i,
    {
        if does_item_bind(&d.spec.items[i], bundles, f, module.as_str()) {
            assert(item_binds(items[i as int], bv, fv, module@));
            return true;
        }
        i = i + 1;
    }
    false
}

fn any_decl_binds(decls: &Vec<Decl>, bundles: &Vec<Bundle>, f: &(String, String)) -> (r: bool)
    ensures
        r == any_binds(decls.deep_view(), bundles.deep_view(), f.deep_view()),
{
    let ghost d = decls.deep_view();
    let mut i: usize = 0;
    while i < decls.len()
        invariant
            i <= decls@.len(),
            d == decls.deep_view(),
            forall|k: int| 0 <= k < i ==> !binds(#[trigger] d[k], bundles.deep_view(), f.deep_view()),
        decreases decls@.len() - i,
    {
        if decl_binds(&decls[i], bundles, f) {
            assert(binds(d[i as int], bundles.deep_view(), f.deep_view()));
            return true;
        }
        i = i + 1;
    }
    false
}

fn warn_items(
    items: &Vec<Item>,
    scanned: &Vec<(String, String)>,
    dep_scanned: &Vec<(String, String)>,
    bundles: &Vec<Bundle>,
    graph_module: &String,
    out: &mut Vec<String>,
)
    ensures
        final(out).deep_view() == item_warnings(
            items.deep_view(),
            scanned.deep_view(),
            dep_scanned.deep_view(),
            bundles.deep_view(),
            graph_module@,
            0,
            old(out).deep_view(),
        ),
{
    let ghost v = items.deep_view();
    let ghost sc = scanned.deep_view();
    let ghost ds = dep_scanned.deep_view();
    let ghost bv = bundles.deep_view();
    let ghost start = out.deep_view();
    let mut i: usize = 0;
    while i < items.len()
        invariant
            i <= items@.len(),
            v == items.deep_view(),
            sc == scanned.deep_view(),
            ds == dep_scanned.deep_view(),
            bv == bundles.deep_view(),
            item_warnings(v, sc, ds, bv, graph_module@, 0, start) == item_warnings(
                v,
                sc,
                ds,
                bv,
                graph_module@,
                i as int,
                out.deep_view(),
            ),
        decreases items@.len() - i,
    {
        let node = read_owner_name(&items[i]);
        let fns = expand_bundles(&bound_fns(&items[i]), bundles);
        warn_unscanned(&node, &fns, scanned, dep_scanned, graph_module, out);
        i = i + 1;
    }
}

/// Checks that every bound function was scanned, and that every scanned function is bound.
///
/// Returns a warning for each mismatch. Functions scanned in dependencies need not be bound.
pub fn coverage_warnings(
    decls: &Vec<Decl>,
    scanned: &Vec<(String, String)>,
    dep_scanned: &Vec<(String, String)>,
    bundles: &Vec<Bundle>,
) -> (r: Vec<String>)
    ensures
        r.deep_view() == coverage(
            decls.deep_view(),
            scanned.deep_view(),
            dep_scanned.deep_view(),
            bundles.deep_view(),
        ),
{
    let ghost d = decls.deep_view();
    let ghost sc = scanned.deep_view();
    let ghost ds = dep_scanned.deep_view();
    let ghost bv = bundles.deep_view();
    let mut out: Vec<String> = Vec::new();
    assert(out.deep_view() == Seq::<Seq<char>>::empty());
    let mut i: usize = 0;
    while i < decls.len()
        invariant
            i <= decls@.len(),
            d == decls.deep_view(),
            sc == scanned.deep_view(),
            ds == dep_scanned.deep_view(),
            bv == bundles.deep_view(),
            decl_warnings(d, sc, ds, bv, 0, Seq::empty()) == decl_warnings(
                d,
                sc,
                ds,
                bv,
                i as int,
                out.deep_view(),
            ),
        decreases decls@.len() - i,
    {
        let module = module_of(decls[i].origin.as_str());
        warn_items(&decls[i].spec.items, scanned, dep_scanned, bundles, &module, &mut out);
        i = i + 1;
    }
    let ghost start = out.deep_view();
    let mut j: usize = 0;
    while j < scanned.len()
        invariant
            j <= scanned@.len(),
            d == decls.deep_view(),
            sc == scanned.deep_view(),
            bv == bundles.deep_view(),
            unbound(d, bv, sc, 0, start) == unbound(d, bv, sc, j as int, out.deep_view()),
        decreases scanned@.len() - j,
    {
        if !any_decl_binds(decls, bundles, &scanned[j]) {
            let w = cat5(
                "`#[dataflow]` fn `",
                scanned[j].0.as_str(),
                "::",
                scanned[j].1.as_str(),
                NOT_BOUND,
            );
            put(&mut out, w);
        }
        j = j + 1;
    }
    out
}

/// A discovered access belongs to one of the functions, for a graph in `graph_module`.
pub open spec fn access_of(funcs: Seq<FnRef>, d: DiscoveredV, graph_module: Seq<char>) -> bool {
    exists|i: int|
        0 <= i < funcs.len() && is_fn(
            (d.module, d.access.func),
            #[trigger] funcs[i],
            graph_module,
        )
}

pub fn discovered_access_matches(
    funcs: &Vec<(String, Option<String>)>,
    d: &Discovered,
    graph_module: &str,
) -> (r: bool)
    ensures
        r == access_of(funcs.deep_view(), d.deep_view(), graph_module@),
{
    let ghost f = funcs.deep_view();
    let owner = (d.module.clone(), d.access.func.clone());
    let mut i: usize = 0;
    while i < funcs.len()
        invariant
            i <= funcs@.len(),
            f == funcs.deep_view(),
            owner.deep_view() == (d.deep_view().module, d.deep_view().access.func),
            forall|k: int|
                0 <= k < i ==> !is_fn(
                    (d.deep_view().module, d.deep_view().access.func),
                    #[trigger] f[k],
                    graph_module@,
                ),
        decreases funcs@.len() - i,
    {
        if fn_matches(&owner, funcs[i].0.as_str(), &funcs[i].1, graph_module) {
            assert(is_fn(owner.deep_view(), f[i as int], graph_module@));
            return true;
        }
        i = i + 1;
    }
    false
}

/// Every function that the declarations bind is among the scanned ones.
pub open spec fn all_scanned(
    decls: Seq<DeclV>,
    scanned: Seq<(Seq<char>, Seq<char>)>,
    dep_scanned: Seq<(Seq<char>, Seq<char>)>,
    bundles: Seq<BundleV>,
) -> bool {
    forall|j: int, i: int, k: int|
        #![trigger bound_expanded(decls[j].spec.items[i], bundles)[k]]
        0 <= j < decls.len() && 0 <= i < decls[j].spec.items.len() && 0 <= k < bound_expanded(
            decls[j].spec.items[i],
            bundles,
        ).len() ==> any_fn(
            scanned,
            bound_expanded(decls[j].spec.items[i], bundles)[k],
            module_name(decls[j].origin),
        ) || any_fn(
            dep_scanned,
            bound_expanded(decls[j].spec.items[i], bundles)[k],
            module_name(decls[j].origin),
        )
}

/// Every scanned function is bound by a declaration.
pub open spec fn all_bound(
    decls: Seq<DeclV>,
    scanned: Seq<(Seq<char>, Seq<char>)>,
    bundles: Seq<BundleV>,
) -> bool {
    forall|i: int| 0 <= i < scanned.len() ==> any_binds(decls, bundles, #[trigger] scanned[i])
}

/// The functions `fns[i..]` are among the scanned ones.
spec fn fns_scanned(
    fns: Seq<FnRef>,
    scanned: Seq<(Seq<char>, Seq<char>)>,
    dep_scanned: Seq<(Seq<char>, Seq<char>)>,
    graph_module: Seq<char>,
    i: int,
) -> bool {
    forall|k: int|
        i <= k < fns.len() ==> any_fn(scanned, #[trigger] fns[k], graph_module) || any_fn(
            dep_scanned,
            fns[k],
            graph_module,
        )
}

proof fn lemma_unscanned_silent(
    node: Seq<char>,
    fns: Seq<FnRef>,
    scanned: Seq<(Seq<char>, Seq<char>)>,
    dep_scanned: Seq<(Seq<char>, Seq<char>)>,
    graph_module: Seq<char>,
    i: int,
    acc: Seq<Seq<char>>,
)
    requires
        0 <= i,
    ensures
        unscanned(node, fns, scanned, dep_scanned, graph_module, i, acc).len() >= acc.len(),
        unscanned(node, fns, scanned, dep_scanned, graph_module, i, acc).len() == acc.len()
            <==> fns_scanned(fns, scanned, dep_scanned, graph_module, i),
    decreases fns.len() - i,
{
    if i < fns.len() {
        let known = any_fn(scanned, fns[i], graph_module) || any_fn(
            dep_scanned,
            fns[i],
            graph_module,
        );
        let next = if known {
            acc
        } else {
            acc.push(unscanned_warning(node, fns[i]))
        };
        lemma_unscanned_silent(node, fns, scanned, dep_scanned, graph_module, i + 1, next);
    }
}

/// The items `items[i..]` bind scanned functions only.
spec fn items_scanned(
    items: Seq<ItemV>,
    scanned: Seq<(Seq<char>, Seq<char>)>,
    dep_scanned: Seq<(Seq<char>, Seq<char>)>,
    bundles: Seq<BundleV>,
    graph_module: Seq<char>,
    i: int,
) -> bool {
    forall|k: int|
        i <= k < items.len() ==> fns_scanned(
            bound_expanded(#[trigger] items[k], bundles),
            scanned,
            dep_scanned,
            graph_module,
            0,
        )
}

proof fn lemma_items_silent(
    items: Seq<ItemV>,
    scanned: Seq<(Seq<char>, Seq<char>)>,
    dep_scanned: Seq<(Seq<char>, Seq<char>)>,
    bundles: Seq<BundleV>,
    graph_module: Seq<char>,
    i: int,
    acc: Seq<Seq<char>>,
)
    requires
        0 <= i,
    ensures
        item_warnings(items, scanned, dep_scanned, bundles, graph_module, i, acc).len() >= acc.len(),
        item_warnings(items, scanned, dep_scanned, bundles, graph_module, i, acc).len() == acc.len()
            <==> items_scanned(items, scanned, dep_scanned, bundles, graph_module, i),
    decreases items.len() - i,
{
    if i < items.len() {
        let name = owner_name(items[i]);
        let fns = bound_expanded(items[i], bundles);
        lemma_unscanned_silent(name, fns, scanned, dep_scanned, graph_module, 0, acc);
        let next = unscanned(name, fns, scanned, dep_scanned, graph_module, 0, acc);
        lemma_items_silent(items, scanned, dep_scanned, bundles, graph_module, i + 1, next);
    }
}

/// The declarations `decls[i..]` bind scanned functions only.
spec fn decls_scanned(
    decls: Seq<DeclV>,
    scanned: Seq<(Seq<char>, Seq<char>)>,
    dep_scanned: Seq<(Seq<char>, Seq<char>)>,
    bundles: Seq<BundleV>,
    i: int,
) -> bool {
    forall|k: int|
        i <= k < decls.len() ==> items_scanned(
            (#[trigger] decls[k]).spec.items,
            scanned,
            dep_scanned,
            bundles,
            module_name(decls[k].origin),
            0,
        )
}

proof fn lemma_decls_silent(
    decls: Seq<DeclV>,
    scanned: Seq<(Seq<char>, Seq<char>)>,
    dep_scanned: Seq<(Seq<char>, Seq<char>)>,
    bundles: Seq<BundleV>,
    i: int,
    acc: Seq<Seq<char>>,
)
    requires
        0 <= i,
    ensures
        decl_warnings(decls, scanned, dep_scanned, bundles, i, acc).len() >= acc.len(),
        decl_warnings(decls, scanned, dep_scanned, bundles, i, acc).len() == acc.len()
            <==> decls_scanned(decls, scanned, dep_scanned, bundles, i),
    decreases decls.len() - i,
{
    if i < decls.len() {
        let items = decls[i].spec.items;
        let m = module_name(decls[i].origin);
        lemma_items_silent(items, scanned, dep_scanned, bundles, m, 0, acc);
        let next = item_warnings(items, scanned, dep_scanned, bundles, m, 0, acc);
        lemma_decls_silent(decls, scanned, dep_scanned, bundles, i + 1, next);
    }
}

proof fn lemma_unbound_silent(
    decls: Seq<DeclV>,
    bundles: Seq<BundleV>,
    scanned: Seq<(Seq<char>, Seq<char>)>,
    i: int,
    acc: Seq<Seq<char>>,
)
    requires
        0 <= i,
    ensures
        unbound(decls, bundles, scanned, i, acc).len() >= acc.len(),
        unbound(decls, bundles, scanned, i, acc).len() == acc.len() <==> (forall|k: int|
            i <= k < scanned.len() ==> any_binds(decls, bundles, #[trigger] scanned[k])),
    decreases scanned.len() - i,
{
    if i < scanned.len() {
        let next = if any_binds(decls, bundles, scanned[i]) {
            acc
        } else {
            acc.push(unbound_warning(scanned[i]))
        };
        lemma_unbound_silent(decls, bundles, scanned, i + 1, next);
    }
}

/// There is no warning exactly where everything bound was scanned, in the sources or in their
/// dependencies, and everything scanned in the sources is bound.
pub proof fn coverage_is_silent_where_all_is_covered(
    decls: Seq<DeclV>,
    scanned: Seq<(Seq<char>, Seq<char>)>,
    dep_scanned: Seq<(Seq<char>, Seq<char>)>,
    bundles: Seq<BundleV>,
)
    ensures
        coverage(decls, scanned, dep_scanned, bundles).len() == 0 <==> all_scanned(
            decls,
            scanned,
            dep_scanned,
            bundles,
        ) && all_bound(decls, scanned, bundles),
{
    lemma_decls_silent(decls, scanned, dep_scanned, bundles, 0, Seq::empty());
    lemma_unbound_silent(
        decls,
        bundles,
        scanned,
        0,
        decl_warnings(decls, scanned, dep_scanned, bundles, 0, Seq::empty()),
    );
    if decls_scanned(decls, scanned, dep_scanned, bundles, 0) {
        assert forall|j: int, i: int, k: int|
            #![trigger bound_expanded(decls[j].spec.items[i], bundles)[k]]
            0 <= j < decls.len() && 0 <= i < decls[j].spec.items.len() && 0 <= k < bound_expanded(
                decls[j].spec.items[i],
                bundles,
            ).len() implies any_fn(
            scanned,
            bound_expanded(decls[j].spec.items[i], bundles)[k],
            module_name(decls[j].origin),
        ) || any_fn(
            dep_scanned,
            bound_expanded(decls[j].spec.items[i], bundles)[k],
            module_name(decls[j].origin),
        ) by {
            let items = decls[j].spec.items;
            assert(items_scanned(items, scanned, dep_scanned, bundles, module_name(decls[j].origin), 0));
            assert(fns_scanned(
                bound_expanded(items[i], bundles),
                scanned,
                dep_scanned,
                module_name(decls[j].origin),
                0,
            ));
        }
    }
    if all_scanned(decls, scanned, dep_scanned, bundles) {
        assert forall|j: int| 0 <= j < decls.len() implies items_scanned(
            (#[trigger] decls[j]).spec.items,
            scanned,
            dep_scanned,
            bundles,
            module_name(decls[j].origin),
            0,
        ) by {
            let items = decls[j].spec.items;
            assert forall|i: int| 0 <= i < items.len() implies fns_scanned(
                bound_expanded(#[trigger] items[i], bundles),
                scanned,
                dep_scanned,
                module_name(decls[j].origin),
                0,
            ) by {
                let fns = bound_expanded(items[i], bundles);
                assert forall|k: int| 0 <= k < fns.len() implies any_fn(
                    scanned,
                    #[trigger] fns[k],
                    module_name(decls[j].origin),
                ) || any_fn(dep_scanned, fns[k], module_name(decls[j].origin)) by {
                    assert(bound_expanded(decls[j].spec.items[i], bundles)[k] == fns[k]);
                }
            }
        }
    }
}

} // verus!
