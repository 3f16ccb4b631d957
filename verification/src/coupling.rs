//! Couplings through signals: which item reads or writes which, and under which name.

use vstd::prelude::*;
use vstd::string::*;

use crate::ast::{
    boxed_name, path_string, path_to_string, reads_of, signal_name, strip, stripped, writes_of, Item,
    ItemV, SignalDecl, SignalDeclV,
};
use crate::bindings::{
    access_of, all_expanded, dataflow_fn_sources, discovered_access_matches, expand_bundles, fn_sources,
    FnRef,
};
use crate::discover::{Bundle, BundleV, Discovered, DiscoveredV};
use crate::list::{put, Dup};
use crate::text::{
    cat2, cat3, chars_of, contains, ends_with, find, find_in, has, has_suffix, join, joined, pieces, same,
    slice_text, split, strip_prefix, text, trim_end, trimmed_end, without_prefix,
};

verus! {

/// One declared coupling: an item writes or reads a signal.
#[derive(Debug)]
pub struct Coupling {
    /// The item.
    pub node: String,
    /// It writes the signal.
    pub write: bool,
    /// The entry.
    pub sig: SignalDecl,
}

/// What a [`Coupling`] means.
pub struct CouplingV {
    pub node: Seq<char>,
    pub write: bool,
    pub sig: SignalDeclV,
}

impl DeepView for Coupling {
    type V = CouplingV;

    open spec fn deep_view(&self) -> CouplingV {
        CouplingV { node: self.node@, write: self.write, sig: self.sig.deep_view() }
    }
}

/// The couplings of a list of signals.
pub open spec fn coupled(node: Seq<char>, write: bool, sigs: Seq<SignalDeclV>) -> Seq<CouplingV> {
    Seq::new(sigs.len(), |i: int| CouplingV { node, write, sig: sigs[i] })
}

/// The couplings of an item: what it writes, then what it reads.
pub open spec fn signals_of(item: ItemV) -> Seq<CouplingV> {
    match boxed_name(item) {
        Some(name) => coupled(name, true, writes_of(item)) + coupled(name, false, reads_of(item)),
        None => Seq::empty(),
    }
}

/// The couplings of the items from number `i` on, behind `acc`.
pub open spec fn couplings_from(items: Seq<ItemV>, i: int, acc: Seq<CouplingV>) -> Seq<CouplingV>
    decreases items.len() - i,
{
    if i < 0 || i >= items.len() {
        acc
    } else {
        couplings_from(items, i + 1, acc + signals_of(items[i]))
    }
}

/// The couplings of all items, in order.
pub open spec fn couplings(items: Seq<ItemV>) -> Seq<CouplingV> {
    couplings_from(items, 0, Seq::empty())
}

fn add_coupled(node: &String, write: bool, sigs: &Vec<SignalDecl>, out: &mut Vec<Coupling>)
    ensures
        final(out).deep_view() == old(out).deep_view() + coupled(node@, write, sigs.deep_view()),
{
    let ghost all = coupled(node@, write, sigs.deep_view());
    let ghost start = out.deep_view();
    let mut i: usize = 0;
    assert(start + all.take(0) == start);
    while i < sigs.len()
        invariant
            i <= sigs@.len(),
            all == coupled(node@, write, sigs.deep_view()),
            out.deep_view() == start + all.take(i as int),
        decreases sigs@.len() - i,
    {
        put(out, Coupling { node: node.dup(), write, sig: sigs[i].dup() });
        i = i + 1;
        assert(out.deep_view() == start + all.take(i as int));
    }
    assert(all.take(all.len() as int) == all);
}

fn add_signals_of(item: &Item, out: &mut Vec<Coupling>)
    ensures
        final(out).deep_view() == old(out).deep_view() + signals_of(item.deep_view()),
{
    let ghost start = out.deep_view();
    match item {
        Item::Node(n) => {
            add_coupled(&n.ident, true, &n.writes, out);
            add_coupled(&n.ident, false, &n.reads, out);
        },
        Item::Pool(p) => {
            add_coupled(&p.ident, true, &p.writes, out);
            add_coupled(&p.ident, false, &p.reads, out);
        },
        Item::Executor(_) => {},
    }
    assert(out.deep_view() == start + signals_of(item.deep_view()));
}

/// The couplings of all items, in order.
pub fn all_couplings(items: &Vec<Item>) -> (r: Vec<Coupling>)
    ensures
        r.deep_view() == couplings(items.deep_view()),
{
    let ghost all = items.deep_view();
    let mut out: Vec<Coupling> = Vec::new();
    assert(out.deep_view() == Seq::<CouplingV>::empty());
    let mut i: usize = 0;
    while i < items.len()
        invariant
            i <= items@.len(),
            all == items.deep_view(),
            couplings(all) == couplings_from(all, i as int, out.deep_view()),
        decreases items@.len() - i,
    {
        add_signals_of(&items[i], &mut out);
        i = i + 1;
    }
    out
}

/// A signal: its full name, the segments of its path and its index.
#[derive(Debug)]
pub struct SignalKey {
    /// The full name.
    pub key: String,
    /// The segments of the path.
    pub segs: Vec<String>,
    /// The index in brackets, or nothing.
    pub index: String,
}

/// What a [`SignalKey`] means.
pub struct SignalKeyV {
    pub key: Seq<char>,
    pub segs: Seq<Seq<char>>,
    pub index: Seq<char>,
}

impl DeepView for SignalKey {
    type V = SignalKeyV;

    open spec fn deep_view(&self) -> SignalKeyV {
        SignalKeyV { key: self.key@, segs: self.segs.deep_view(), index: self.index@ }
    }
}

/// The texts of `list` from number `i` on that are not empty, behind `acc`.
pub open spec fn nonempty_from(list: Seq<Seq<char>>, i: int, acc: Seq<Seq<char>>) -> Seq<Seq<char>>
    decreases list.len() - i,
{
    if i < 0 || i >= list.len() {
        acc
    } else {
        nonempty_from(
            list,
            i + 1,
            if list[i].len() > 0 {
                acc.push(list[i])
            } else {
                acc
            },
        )
    }
}

/// The segments of a path text.
pub open spec fn segments(path: Seq<char>) -> Seq<Seq<char>> {
    nonempty_from(pieces(path, "::"@), 0, Seq::empty())
}

fn read_segments(path: &str) -> (r: Vec<String>)
    ensures
        r.deep_view() == segments(path@),
{
    proof {
        reveal_strlit("::");
    }
    let parts = split(path, "::");
    let ghost ps = parts.deep_view();
    let mut out: Vec<String> = Vec::new();
    assert(out.deep_view() == Seq::<Seq<char>>::empty());
    let mut i: usize = 0;
    while i < parts.len()
        invariant
            i <= parts@.len(),
            ps == parts.deep_view(),
            segments(path@) == nonempty_from(ps, i as int, out.deep_view()),
        decreases parts@.len() - i,
    {
        if parts[i].as_str().unicode_len() > 0 {
            put(&mut out, parts[i].dup());
        }
        i = i + 1;
    }
    out
}

/// The index of a signal entry in brackets, or nothing.
pub open spec fn index_text(s: SignalDeclV) -> Seq<char> {
    match s.index {
        Some(i) => "["@ + stripped(i.text) + "]"@,
        None => ""@,
    }
}

/// The signal that an entry names.
pub open spec fn key_of(s: SignalDeclV) -> SignalKeyV {
    SignalKeyV { key: signal_name(s), segs: segments(path_string(s.path)), index: index_text(s) }
}

fn read_key(s: &SignalDecl) -> (r: SignalKey)
    ensures
        r.deep_view() == key_of(s.deep_view()),
{
    let path = path_to_string(&s.path);
    let index = match &s.index {
        Some(i) => {
            let inner = strip(i.text.as_str());
            cat3("[", inner.as_str(), "]")
        },
        None => text(""),
    };
    SignalKey { key: s.display(), segs: read_segments(path.as_str()), index }
}

/// A list holds the signal.
pub open spec fn has_key(keys: Seq<SignalKeyV>, key: Seq<char>) -> bool {
    exists|i: int| 0 <= i < keys.len() && #[trigger] keys[i].key == key
}

fn holds_key(keys: &Vec<SignalKey>, key: &str) -> (r: bool)
    ensures
        r == has_key(keys.deep_view(), key@),
{
    let ghost ks = keys.deep_view();
    let mut i: usize = 0;
    while i < keys.len()
        invariant
            i <= keys@.len(),
            ks == keys.deep_view(),
            forall|j: int| 0 <= j < i ==> #[trigger] ks[j].key != key@,
        decreases keys@.len() - i,
    {
        if same(keys[i].key.as_str(), key) {
            assert(ks[i as int].key == key@);
            return true;
        }
        i = i + 1;
    }
    false
}

/// The signals of the couplings from number `i` on, each once, behind `acc`.
pub open spec fn keys_from(list: Seq<CouplingV>, i: int, acc: Seq<SignalKeyV>) -> Seq<SignalKeyV>
    decreases list.len() - i,
{
    if i < 0 || i >= list.len() {
        acc
    } else {
        let k = key_of(list[i].sig);
        keys_from(
            list,
            i + 1,
            if has_key(acc, k.key) {
                acc
            } else {
                acc.push(k)
            },
        )
    }
}

/// The signals that items declare, each once, in order.
pub open spec fn signal_keys(items: Seq<ItemV>) -> Seq<SignalKeyV> {
    keys_from(couplings(items), 0, Seq::empty())
}

fn keys_of(list: &Vec<Coupling>) -> (r: Vec<SignalKey>)
    ensures
        r.deep_view() == keys_from(list.deep_view(), 0, Seq::empty()),
{
    let ghost l = list.deep_view();
    let mut out: Vec<SignalKey> = Vec::new();
    assert(out.deep_view() == Seq::<SignalKeyV>::empty());
    let mut i: usize = 0;
    while i < list.len()
        invariant
            i <= list@.len(),
            l == list.deep_view(),
            keys_from(l, 0, Seq::empty()) == keys_from(l, i as int, out.deep_view()),
        decreases list@.len() - i,
    {
        let k = read_key(&list[i].sig);
        assert(k.deep_view() == key_of(l[i as int].sig));
        if !holds_key(&out, k.key.as_str()) {
            put(&mut out, k);
        }
        i = i + 1;
    }
    out
}

/// A signal by its last `n` segments.
pub open spec fn short_name(k: SignalKeyV, n: int) -> Seq<char> {
    joined(
        k.segs.skip(
            if k.segs.len() > n {
                k.segs.len() - n
            } else {
                0
            },
        ),
        "::"@,
    ) + k.index
}

fn shorten(k: &SignalKey, n: usize) -> (r: String)
    ensures
        r@ == short_name(k.deep_view(), n as int),
{
    let from: usize = if k.segs.len() > n {
        k.segs.len() - n
    } else {
        0
    };
    let ghost all = k.segs.deep_view().skip(from as int);
    let mut last: Vec<String> = Vec::new();
    let mut i: usize = from;
    while i < k.segs.len()
        invariant
            from <= i <= k.segs@.len(),
            all == k.segs.deep_view().skip(from as int),
            last.deep_view() == all.take(i - from),
        decreases k.segs@.len() - i,
    {
        put(&mut last, k.segs[i].dup());
        i = i + 1;
        assert(last.deep_view() == all.take(i - from));
    }
    assert(all.take(all.len() as int) == all);
    let names = join(&last, "::");
    cat2(names.as_str(), k.index.as_str())
}

/// No other signal has the same last `n` segments as signal number `i`.
pub open spec fn stands_alone(keys: Seq<SignalKeyV>, i: int, n: int) -> bool {
    forall|j: int|
        0 <= j < keys.len() && j != i ==> short_name(#[trigger] keys[j], n) != short_name(keys[i], n)
}

fn alone(keys: &Vec<SignalKey>, i: usize, n: usize) -> (r: bool)
    requires
        i < keys@.len(),
    ensures
        r == stands_alone(keys.deep_view(), i as int, n as int),
{
    let ghost ks = keys.deep_view();
    let mine = shorten(&keys[i], n);
    let mut j: usize = 0;
    while j < keys.len()
        invariant
            i < keys@.len(),
            j <= keys@.len(),
            ks == keys.deep_view(),
            mine@ == short_name(ks[i as int], n as int),
            forall|m: int|
                0 <= m < j && m != i ==> short_name(#[trigger] ks[m], n as int) != short_name(
                    ks[i as int],
                    n as int,
                ),
        decreases keys@.len() - j,
    {
        if j != i {
            let other = shorten(&keys[j], n);
            assert(other@ == short_name(ks[j as int], n as int));
            if same(other.as_str(), mine.as_str()) {
                return false;
            }
        }
        j = j + 1;
    }
    true
}

/// The label of signal number `i`: its last `n` or more segments, as few as tell it from every
/// other signal; its full name where none do.
pub open spec fn label_from(keys: Seq<SignalKeyV>, i: int, n: int, longest: int) -> Seq<char>
    decreases longest + 1 - n,
{
    if n > longest {
        keys[i].key
    } else if stands_alone(keys, i, n) {
        short_name(keys[i], n)
    } else {
        label_from(keys, i, n + 1, longest)
    }
}

/// The largest number of segments from number `i` on, or `acc`.
pub open spec fn longest_from(keys: Seq<SignalKeyV>, i: int, acc: int) -> int
    decreases keys.len() - i,
{
    if i < 0 || i >= keys.len() {
        acc
    } else {
        longest_from(
            keys,
            i + 1,
            if keys[i].segs.len() > acc {
                keys[i].segs.len() as int
            } else {
                acc
            },
        )
    }
}

/// The label of signal number `i`, in full or shortened.
pub open spec fn label_of(keys: Seq<SignalKeyV>, i: int, full: bool) -> Seq<char> {
    if full {
        keys[i].key
    } else {
        label_from(keys, i, 1, longest_from(keys, 0, 0))
    }
}

/// Every signal with its label.
pub open spec fn labelled(keys: Seq<SignalKeyV>, full: bool) -> Seq<(Seq<char>, Seq<char>)> {
    Seq::new(keys.len(), |i: int| (keys[i].key, label_of(keys, i, full)))
}

fn longest(keys: &Vec<SignalKey>) -> (r: usize)
    ensures
        r == longest_from(keys.deep_view(), 0, 0),
{
    let ghost ks = keys.deep_view();
    let mut most: usize = 0;
    let mut i: usize = 0;
    while i < keys.len()
        invariant
            i <= keys@.len(),
            ks == keys.deep_view(),
            longest_from(ks, 0, 0) == longest_from(ks, i as int, most as int),
        decreases keys@.len() - i,
    {
        assert(ks[i as int].segs.len() == keys@[i as int].segs@.len());
        if keys[i].segs.len() > most {
            most = keys[i].segs.len();
        }
        i = i + 1;
    }
    most
}

fn label(keys: &Vec<SignalKey>, i: usize, most: usize) -> (r: String)
    requires
        i < keys@.len(),
    ensures
        r@ == label_from(keys.deep_view(), i as int, 1, most as int),
{
    let ghost ks = keys.deep_view();
    let mut n: usize = 0;
    while n < most
        invariant
            i < keys@.len(),
            n <= most,
            ks == keys.deep_view(),
            label_from(ks, i as int, 1, most as int) == label_from(ks, i as int, n + 1, most as int),
        decreases most - n,
    {
        n = n + 1;
        if alone(keys, i, n) {
            assert(ks[i as int] == keys@[i as int].deep_view());
            return shorten(&keys[i], n);
        }
    }
    assert(ks[i as int] == keys@[i as int].deep_view());
    keys[i].key.dup()
}

fn label_keys(keys: &Vec<SignalKey>, full: bool) -> (r: Vec<(String, String)>)
    ensures
        r.deep_view() == labelled(keys.deep_view(), full),
{
    let ghost ks = keys.deep_view();
    let ghost all = labelled(ks, full);
    let most = longest(keys);
    let mut out: Vec<(String, String)> = Vec::new();
    let mut i: usize = 0;
    while i < keys.len()
        invariant
            i <= keys@.len(),
            ks == keys.deep_view(),
            all == labelled(ks, full),
            most == longest_from(ks, 0, 0),
            out.deep_view() == all.take(i as int),
        decreases keys@.len() - i,
    {
        let name = if full {
            keys[i].key.dup()
        } else {
            label(keys, i, most)
        };
        assert(ks[i as int] == keys@[i as int].deep_view());
        put(&mut out, (keys[i].key.dup(), name));
        i = i + 1;
        assert(out.deep_view() == all.take(i as int));
    }
    assert(all.take(all.len() as int) == all);
    out
}

/// Every signal that items declare with its label: its full path, or as few of its last segments
/// as tell it from the others.
pub fn signal_labels(items: &Vec<Item>, full: bool) -> (r: Vec<(String, String)>)
    ensures
        r.deep_view() == labelled(signal_keys(items.deep_view()), full),
{
    let list = all_couplings(items);
    let keys = keys_of(&list);
    label_keys(&keys, full)
}

/// Two spellings of a path that plausibly name one signal: equal, or one ends with the other.
pub open spec fn paths_alias(a: Seq<char>, b: Seq<char>) -> bool {
    let x = without_prefix(a, "crate::"@);
    let y = without_prefix(b, "crate::"@);
    x == y || ends_with(x, "::"@ + y) || ends_with(y, "::"@ + x)
}

pub fn do_alias(a: &str, b: &str) -> (r: bool)
    ensures
        r == paths_alias(a@, b@),
{
    let x = strip_prefix(a, "crate::");
    let y = strip_prefix(b, "crate::");
    let tail_x = cat2("::", x.as_str());
    let tail_y = cat2("::", y.as_str());
    same(x.as_str(), y.as_str()) || has_suffix(x.as_str(), tail_y.as_str()) || has_suffix(
        y.as_str(),
        tail_x.as_str(),
    )
}

/// Two spellings are of one signal whichever comes first.
pub proof fn aliasing_is_symmetric(a: Seq<char>, b: Seq<char>)
    ensures
        paths_alias(a, b) == paths_alias(b, a),
{
}

/// The names of `list` from number `i` on that alias `path`, behind `acc`.
pub open spec fn aliases_from(
    list: Seq<Seq<char>>,
    path: Seq<char>,
    i: int,
    acc: Seq<Seq<char>>,
) -> Seq<
    Seq<char>,
>
    decreases list.len() - i,
{
    if i < 0 || i >= list.len() {
        acc
    } else {
        aliases_from(
            list,
            path,
            i + 1,
            if paths_alias(list[i], path) {
                acc.push(list[i])
            } else {
                acc
            },
        )
    }
}

/// The names of `list` that alias `path`.
pub open spec fn aliases(list: Seq<Seq<char>>, path: Seq<char>) -> Seq<Seq<char>> {
    aliases_from(list, path, 0, Seq::empty())
}

fn find_aliases(list: &Vec<String>, path: &str) -> (r: Vec<String>)
    ensures
        r.deep_view() == aliases(list.deep_view(), path@),
{
    let ghost l = list.deep_view();
    let mut out: Vec<String> = Vec::new();
    assert(out.deep_view() == Seq::<Seq<char>>::empty());
    let mut i: usize = 0;
    while i < list.len()
        invariant
            i <= list@.len(),
            l == list.deep_view(),
            aliases(l, path@) == aliases_from(l, path@, i as int, out.deep_view()),
        decreases list@.len() - i,
    {
        if do_alias(list[i].as_str(), path) {
            put(&mut out, list[i].dup());
        }
        i = i + 1;
    }
    out
}

/// The signal that a discovered access is of. A path that an import settled is the first known
/// signal that it aliases, else itself. A relative one is first tried under its module; then it is
/// the one declared signal that it aliases, if there is one only; else its path under its module.
pub open spec fn discovered_key(
    d: DiscoveredV,
    emitted: Seq<Seq<char>>,
    declared: Seq<Seq<char>>,
) -> Seq<
    char,
> {
    let raw = d.access.path;
    let qualified = d.module + "::"@ + raw;
    if !d.relative {
        if aliases(emitted, raw).len() > 0 {
            aliases(emitted, raw)[0]
        } else {
            raw
        }
    } else if aliases(emitted, qualified).len() > 0 {
        aliases(emitted, qualified)[0]
    } else if aliases(declared, raw).len() == 1 {
        aliases(declared, raw)[0]
    } else {
        qualified
    }
}

pub fn key_discovered(d: &Discovered, emitted: &Vec<String>, declared: &Vec<String>) -> (r: String)
    ensures
        r@ == discovered_key(d.deep_view(), emitted.deep_view(), declared.deep_view()),
{
    let raw = &d.access.path;
    if !d.relative {
        let hits = find_aliases(emitted, raw.as_str());
        if hits.len() > 0 {
            return hits[0].dup();
        }
        return raw.dup();
    }
    let qualified = cat3(d.module.as_str(), "::", raw.as_str());
    let hits = find_aliases(emitted, qualified.as_str());
    if hits.len() > 0 {
        return hits[0].dup();
    }
    let known = find_aliases(declared, raw.as_str());
    if known.len() == 1 {
        known[0].dup()
    } else {
        qualified
    }
}

/// The functions whose accesses are those of an item.
pub open spec fn flow_fns(item: ItemV, bundles: Seq<BundleV>) -> Seq<FnRef> {
    all_expanded(fn_sources(item), bundles, 0, Seq::empty())
}

pub fn read_flow_fns(item: &Item, bundles: &Vec<Bundle>) -> (r: Vec<(String, Option<String>)>)
    ensures
        r.deep_view() == flow_fns(item.deep_view(), bundles.deep_view()),
{
    let sources = dataflow_fn_sources(item);
    expand_bundles(&sources, bundles)
}

/// Some discovered access is in a function of the item.
pub open spec fn has_discovered_access(
    item: ItemV,
    graph_module: Seq<char>,
    discovered: Seq<DiscoveredV>,
    bundles: Seq<BundleV>,
) -> bool {
    exists|i: int|
        0 <= i < discovered.len() && access_of(
            flow_fns(item, bundles),
            #[trigger] discovered[i],
            graph_module,
        )
}

pub fn any_discovered_access(
    item: &Item,
    graph_module: &str,
    discovered: &Vec<Discovered>,
    bundles: &Vec<Bundle>,
) -> (r: bool)
    ensures
        r == has_discovered_access(
            item.deep_view(),
            graph_module@,
            discovered.deep_view(),
            bundles.deep_view(),
        ),
{
    let ghost ds = discovered.deep_view();
    let funcs = read_flow_fns(item, bundles);
    let mut i: usize = 0;
    while i < discovered.len()
        invariant
            i <= discovered@.len(),
            ds == discovered.deep_view(),
            funcs.deep_view() == flow_fns(item.deep_view(), bundles.deep_view()),
            forall|j: int|
                0 <= j < i ==> !access_of(funcs.deep_view(), #[trigger] ds[j], graph_module@),
        decreases discovered@.len() - i,
    {
        if discovered_access_matches(&funcs, &discovered[i], graph_module) {
            assert(access_of(funcs.deep_view(), ds[i as int], graph_module@));
            return true;
        }
        i = i + 1;
    }
    false
}

/// Two accesses are of one signal in one direction.
pub open spec fn same_access(a: DiscoveredV, b: DiscoveredV) -> bool {
    a.access.write == b.access.write && a.access.path == b.access.path
}

/// Access number `j` is in one of the functions, and the first of its kind there.
pub open spec fn first_access(
    funcs: Seq<FnRef>,
    discovered: Seq<DiscoveredV>,
    module: Seq<char>,
    j: int,
) -> bool {
    access_of(funcs, discovered[j], module) && forall|k: int|
        0 <= k < j ==> !(access_of(funcs, #[trigger] discovered[k], module) && same_access(
            discovered[k],
            discovered[j],
        ))
}

pub fn is_first_access(
    funcs: &Vec<(String, Option<String>)>,
    discovered: &Vec<Discovered>,
    module: &str,
    j: usize,
) -> (r: bool)
    requires
        j < discovered@.len(),
    ensures
        r == first_access(funcs.deep_view(), discovered.deep_view(), module@, j as int),
{
    let ghost ds = discovered.deep_view();
    let ghost fs = funcs.deep_view();
    let d = &discovered[j];
    assert(d.deep_view() == ds[j as int]);
    if !discovered_access_matches(funcs, d, module) {
        return false;
    }
    let mut k: usize = 0;
    while k < j
        invariant
            k <= j < discovered@.len(),
            ds == discovered.deep_view(),
            fs == funcs.deep_view(),
            d.deep_view() == ds[j as int],
            forall|m: int|
                0 <= m < k ==> !(access_of(fs, #[trigger] ds[m], module@) && same_access(
                    ds[m],
                    ds[j as int],
                )),
        decreases j - k,
    {
        let e = &discovered[k];
        assert(e.deep_view() == ds[k as int]);
        if e.access.write == d.access.write && same(e.access.path.as_str(), d.access.path.as_str())
            && discovered_access_matches(funcs, e, module) {
            return false;
        }
        k = k + 1;
    }
    true
}

/// A signal is the array that an element named `base[..]` is of.
pub open spec fn is_whole(other: Seq<char>, base: Seq<char>) -> bool {
    !contains(other, "["@) && (other == base || ends_with(base, "::"@ + other) || ends_with(
        other,
        "::"@ + base,
    ))
}

fn names_whole(other: &str, base: &str) -> (r: bool)
    ensures
        r == is_whole(other@, base@),
{
    let tail_other = cat2("::", other);
    let tail_base = cat2("::", base);
    let bracket = has(other, "[");
    !bracket && (same(other, base) || has_suffix(base, tail_other.as_str()) || has_suffix(
        other,
        tail_base.as_str(),
    ))
}

/// The first array from number `i` on that the element is of.
pub open spec fn whole_from(names: Seq<Seq<char>>, base: Seq<char>, i: int) -> Option<Seq<char>>
    decreases names.len() - i,
{
    if i < 0 || i >= names.len() {
        None
    } else if is_whole(names[i], base) {
        Some(names[i])
    } else {
        whole_from(names, base, i + 1)
    }
}

/// The array that a signal is an element of.
pub open spec fn whole_of(names: Seq<Seq<char>>, key: Seq<char>) -> Option<Seq<char>> {
    match find(key, "["@) {
        Some(at) => whole_from(names, trimmed_end(key.take(at)), 0),
        None => None,
    }
}

pub fn find_whole(names: &Vec<String>, key: &str) -> (r: Option<String>)
    ensures
        r.deep_view() == whole_of(names.deep_view(), key@),
{
    let ghost ns = names.deep_view();
    let cs = chars_of(key);
    let mark = chars_of("[");
    let at: usize = match find_in(&cs, &mark, 0) {
        Some(at) => at,
        None => {
            return None;
        },
    };
    assert(key@.subrange(0, at as int) == key@.take(at as int));
    let head = slice_text(&cs, 0, at);
    let base = trim_end(head.as_str());
    let mut i: usize = 0;
    while i < names.len()
        invariant
            i <= names@.len(),
            ns == names.deep_view(),
            whole_of(ns, key@) == whole_from(ns, base@, i as int),
        decreases names@.len() - i,
    {
        if names_whole(names[i].as_str(), base.as_str()) {
            return Some(names[i].dup());
        }
        i = i + 1;
    }
    None
}

/// The names of the signals that items declare, each once, in order.
pub open spec fn declared_signals(items: Seq<ItemV>) -> Seq<Seq<char>> {
    Seq::new(signal_keys(items).len(), |i: int| signal_keys(items)[i].key)
}

pub fn read_declared_signals(items: &Vec<Item>) -> (r: Vec<String>)
    ensures
        r.deep_view() == declared_signals(items.deep_view()),
{
    let list = all_couplings(items);
    let keys = keys_of(&list);
    let ghost all = declared_signals(items.deep_view());
    let mut out: Vec<String> = Vec::new();
    let mut i: usize = 0;
    while i < keys.len()
        invariant
            i <= keys@.len(),
            keys.deep_view() == signal_keys(items.deep_view()),
            all == declared_signals(items.deep_view()),
            out.deep_view() == all.take(i as int),
        decreases keys@.len() - i,
    {
        assert(keys.deep_view()[i as int] == keys@[i as int].deep_view());
        put(&mut out, keys[i].key.dup());
        i = i + 1;
        assert(out.deep_view() == all.take(i as int));
    }
    assert(all.take(all.len() as int) == all);
    out
}

proof fn lemma_keys_distinct(list: Seq<CouplingV>, i: int, acc: Seq<SignalKeyV>)
    requires
        0 <= i,
        forall|a: int, b: int|
            #![trigger acc[a], acc[b]]
            0 <= a < b < acc.len() ==> acc[a].key != acc[b].key,
    ensures
        forall|a: int, b: int|
            #![trigger keys_from(list, i, acc)[a], keys_from(list, i, acc)[b]]
            0 <= a < b < keys_from(list, i, acc).len() ==> keys_from(list, i, acc)[a].key
                != keys_from(list, i, acc)[b].key,
        forall|k: int| i <= k < list.len() ==> has_key(keys_from(list, i, acc), key_of((#[trigger] list[k]).sig).key),
        forall|x: Seq<char>| #[trigger] has_key(acc, x) ==> has_key(keys_from(list, i, acc), x),
    decreases list.len() - i,
{
    if i < list.len() {
        let k = key_of(list[i].sig);
        let next = if has_key(acc, k.key) {
            acc
        } else {
            acc.push(k)
        };
        if !has_key(acc, k.key) {
            assert(next[acc.len() as int].key == k.key);
            assert forall|x: Seq<char>| #[trigger] has_key(acc, x) implies has_key(next, x) by {
                let m = choose|m: int| 0 <= m < acc.len() && #[trigger] acc[m].key == x;
                assert(next[m].key == x);
            }
        }
        assert(has_key(next, k.key));
        lemma_keys_distinct(list, i + 1, next);
        assert(keys_from(list, i, acc) == keys_from(list, i + 1, next));
    }
}

/// Every declared signal is listed, and listed once.
pub proof fn each_signal_is_listed_once(items: Seq<ItemV>, a: int, b: int, k: int)
    requires
        0 <= a < b < signal_keys(items).len(),
        0 <= k < couplings(items).len(),
    ensures
        signal_keys(items)[a].key != signal_keys(items)[b].key,
        has_key(signal_keys(items), signal_name(couplings(items)[k].sig)),
{
    lemma_keys_distinct(couplings(items), 0, Seq::empty());
    assert(key_of(couplings(items)[k].sig).key == signal_name(couplings(items)[k].sig));
}

/// `n` segments are the fewest, of `from` or more, that tell signal `i` from every other.
pub open spec fn fewest(keys: Seq<SignalKeyV>, i: int, from: int, n: int) -> bool {
    from <= n && stands_alone(keys, i, n) && forall|m: int|
        from <= m < n ==> !#[trigger] stands_alone(keys, i, m)
}

proof fn lemma_label_shortest(keys: Seq<SignalKeyV>, i: int, n: int, longest: int)
    ensures
        forall|m: int|
            #[trigger] fewest(keys, i, n, m) && m <= longest ==> label_from(keys, i, n, longest)
                == short_name(keys[i], m),
        (forall|m: int| n <= m <= longest ==> !#[trigger] stands_alone(keys, i, m)) ==> label_from(
            keys,
            i,
            n,
            longest,
        ) == keys[i].key,
    decreases longest + 1 - n,
{
    if n <= longest && !stands_alone(keys, i, n) {
        lemma_label_shortest(keys, i, n + 1, longest);
        assert forall|m: int| #[trigger] fewest(keys, i, n, m) && m <= longest implies label_from(
            keys,
            i,
            n,
            longest,
        ) == short_name(keys[i], m) by {
            assert(fewest(keys, i, n + 1, m));
        }
    } else if n <= longest {
        assert forall|m: int| #[trigger] fewest(keys, i, n, m) && m <= longest implies label_from(
            keys,
            i,
            n,
            longest,
        ) == short_name(keys[i], m) by {
            if m > n {
                assert(!stands_alone(keys, i, n));
            }
        }
    }
}

/// A shortened label has as few segments as tell its signal from every other; where none do, it is
/// the signal's full name.
pub proof fn a_label_is_the_shortest_that_tells_apart(keys: Seq<SignalKeyV>, i: int, n: int)
    requires
        0 <= i < keys.len(),
    ensures
        fewest(keys, i, 1, n) && n <= longest_from(keys, 0, 0) ==> label_of(keys, i, false) == short_name(
            keys[i],
            n,
        ),
        (forall|m: int| 1 <= m <= longest_from(keys, 0, 0) ==> !#[trigger] stands_alone(keys, i, m))
            ==> label_of(keys, i, false) == keys[i].key,
{
    lemma_label_shortest(keys, i, 1, longest_from(keys, 0, 0));
}

} // verus!
