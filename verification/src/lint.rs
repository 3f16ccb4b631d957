//! Finding signal couplings that have one side only, and gates that can be bypassed.

use vstd::prelude::*;
use vstd::string::*;

use crate::ast::{boxed_name, signal_name, Item, ItemV};
use crate::bindings::FnRef;
use crate::coupling::{
    all_couplings, couplings, declared_signals, discovered_key, do_alias, find_whole, first_access,
    flow_fns, is_first_access, key_discovered, paths_alias, read_declared_signals, read_flow_fns, whole_of,
    Coupling, CouplingV,
};
use crate::discover::{
    module_name, module_of, Bundle, BundleV, Discovered, DiscoveredV, GateStatic, GateStaticV,
};
use crate::find::{Decl, DeclV};
use crate::list::{put, Dup};
use crate::pool::holds;
use crate::text::{
    cat2, cat3, cat5, cat9, decimal, decimal_usize, has_prefix, join, joined, pieces, same, split,
    starts_with, trim, trimmed,
};

verus! {

/// Enabled lint categories.
#[derive(Clone, Copy, Debug, PartialEq, Eq, Structural)]
pub struct LintCats {
    /// Report signals that are read but never written.
    pub orphan_reads: bool,
    /// Report signals that are written but never read.
    pub dead_writes: bool,
    /// Report gate-wrapped statics (`Backed`, `Leased`, `VetoGate`) that are reachable from outside
    /// their module.
    pub public_gate: bool,
}

impl Default for LintCats {
    fn default() -> (r: Self)
        ensures
            r == no_categories(),
    {
        LintCats { orphan_reads: false, dead_writes: false, public_gate: false }
    }
}

/// No category.
pub open spec fn no_categories() -> LintCats {
    LintCats { orphan_reads: false, dead_writes: false, public_gate: false }
}

/// Every category.
pub open spec fn every_category() -> LintCats {
    LintCats { orphan_reads: true, dead_writes: true, public_gate: true }
}

/// The categories with a named one, or nothing where the name is of none.
pub open spec fn with_category(c: LintCats, name: Seq<char>) -> Option<LintCats> {
    if name == "orphan-reads"@ {
        Some(LintCats { orphan_reads: true, ..c })
    } else if name == "dead-writes"@ {
        Some(LintCats { dead_writes: true, ..c })
    } else if name == "public-gate"@ {
        Some(LintCats { public_gate: true, ..c })
    } else if name == "all"@ {
        Some(every_category())
    } else {
        None
    }
}

pub const THE_CATEGORIES: &'static str = "`; the categories are orphan-reads, dead-writes, public-gate, all";

/// What is wrong with a name that is of no category.
pub open spec fn unknown_category(name: Seq<char>) -> Seq<char> {
    "unknown lint category `"@ + name + THE_CATEGORIES@
}

/// The categories with those named from number `i` on; names are trimmed and empty ones skipped.
/// A name that is of no category ends it: the categories before it stay, and it is complained of.
pub open spec fn with_categories(
    c: LintCats,
    names: Seq<Seq<char>>,
    i: int,
) -> (LintCats, Option<Seq<char>>)
    decreases names.len() - i,
{
    if i < 0 || i >= names.len() {
        (c, None)
    } else if trimmed(names[i]).len() == 0 {
        with_categories(c, names, i + 1)
    } else {
        match with_category(c, trimmed(names[i])) {
            Some(d) => with_categories(d, names, i + 1),
            None => (c, Some(unknown_category(trimmed(names[i])))),
        }
    }
}

impl LintCats {
    /// Whether any category is enabled.
    pub fn any(&self) -> (r: bool)
        ensures
            r == (*self != no_categories()),
    {
        self.orphan_reads || self.dead_writes || self.public_gate
    }

    /// Every category.
    pub fn all() -> (r: Self)
        ensures
            r == every_category(),
    {
        LintCats { orphan_reads: true, dead_writes: true, public_gate: true }
    }

    /// Enables the categories of a comma-separated list such as `orphan-reads,dead-writes`.
    pub fn parse(&mut self, arg: &str) -> (r: Result<(), String>)
        ensures
            *final(self) == with_categories(*old(self), pieces(arg@, ","@), 0).0,
            match r {
                Ok(()) => with_categories(*old(self), pieces(arg@, ","@), 0).1 is None,
                Err(e) => with_categories(*old(self), pieces(arg@, ","@), 0).1 == Some(e@),
            },
    {
        proof {
            reveal_strlit(",");
        }
        let parts = split(arg, ",");
        let ghost ps = parts.deep_view();
        let ghost start = *self;
        let mut i: usize = 0;
        while i < parts.len()
            invariant
                i <= parts@.len(),
                ps == parts.deep_view(),
                ps == pieces(arg@, ","@),
                start == *old(self),
                with_categories(start, ps, 0) == with_categories(*self, ps, i as int),
            decreases parts@.len() - i,
        {
            let name = trim(parts[i].as_str());
            if name.as_str().unicode_len() > 0 {
                if same(name.as_str(), "orphan-reads") {
                    self.orphan_reads = true;
                } else if same(name.as_str(), "dead-writes") {
                    self.dead_writes = true;
                } else if same(name.as_str(), "public-gate") {
                    self.public_gate = true;
                } else if same(name.as_str(), "all") {
                    *self = Self::all();
                } else {
                    return Err(cat3("unknown lint category `", name.as_str(), THE_CATEGORIES));
                }
            }
            i = i + 1;
        }
        Ok(())
    }
}

/// One use of a signal.
#[derive(Debug)]
pub struct Use {
    /// The signal.
    pub key: String,
    /// The item that uses it.
    pub node: String,
    /// It writes.
    pub write: bool,
    /// The supervisor itself consumes what is written.
    pub monitor: bool,
}

/// What a [`Use`] means.
pub struct UseV {
    pub key: Seq<char>,
    pub node: Seq<char>,
    pub write: bool,
    pub monitor: bool,
}

impl DeepView for Use {
    type V = UseV;

    open spec fn deep_view(&self) -> UseV {
        UseV { key: self.key@, node: self.node@, write: self.write, monitor: self.monitor }
    }
}

/// The use that a declared coupling is.
pub open spec fn declared_use(c: CouplingV) -> UseV {
    UseV {
        key: signal_name(c.sig),
        node: c.node,
        write: c.write,
        monitor: c.write && (c.sig.observed || c.sig.beat),
    }
}

/// The uses that couplings are.
pub open spec fn declared_uses(list: Seq<CouplingV>) -> Seq<UseV> {
    Seq::new(list.len(), |i: int| declared_use(list[i]))
}

fn read_declared_uses(list: &Vec<Coupling>) -> (r: Vec<Use>)
    ensures
        r.deep_view() == declared_uses(list.deep_view()),
{
    let ghost all = declared_uses(list.deep_view());
    let mut out: Vec<Use> = Vec::new();
    let mut i: usize = 0;
    while i < list.len()
        invariant
            i <= list@.len(),
            all == declared_uses(list.deep_view()),
            out.deep_view() == all.take(i as int),
        decreases list@.len() - i,
    {
        let c = &list[i];
        put(
            &mut out,
            Use {
                key: c.sig.display(),
                node: c.node.dup(),
                write: c.write,
                monitor: c.write && (c.sig.observed || c.sig.beat),
            },
        );
        i = i + 1;
        assert(out.deep_view() == all.take(i as int));
    }
    assert(all.take(all.len() as int) == all);
    out
}

/// The uses found so far and the signals they are of.
#[derive(Debug)]
pub struct Found {
    /// The signals.
    pub emitted: Vec<String>,
    /// The uses.
    pub uses: Vec<Use>,
}

/// What a [`Found`] means.
pub struct FoundV {
    pub emitted: Seq<Seq<char>>,
    pub uses: Seq<UseV>,
}

impl DeepView for Found {
    type V = FoundV;

    open spec fn deep_view(&self) -> FoundV {
        FoundV { emitted: self.emitted.deep_view(), uses: self.uses.deep_view() }
    }
}

/// What is known once a discovered access of an item is.
pub open spec fn with_access(
    node: Seq<char>,
    d: DiscoveredV,
    declared: Seq<Seq<char>>,
    f: FoundV,
) -> FoundV {
    let key = discovered_key(d, f.emitted, declared);
    FoundV {
        emitted: if f.emitted.contains(key) {
            f.emitted
        } else {
            f.emitted.push(key)
        },
        uses: f.uses.push(
            UseV {
                key,
                node,
                write: d.access.write,
                monitor: d.access.write && starts_with(d.access.verb, "beat"@),
            },
        ),
    }
}

fn add_access(node: &String, d: &Discovered, declared: &Vec<String>, f: &mut Found)
    ensures
        final(f).deep_view() == with_access(
            node@,
            d.deep_view(),
            declared.deep_view(),
            old(f).deep_view(),
        ),
{
    let key = key_discovered(d, &f.emitted, declared);
    if !holds(&f.emitted, key.as_str()) {
        put(&mut f.emitted, key.dup());
    }
    put(
        &mut f.uses,
        Use {
            key,
            node: node.dup(),
            write: d.access.write,
            monitor: d.access.write && has_prefix(d.access.verb.as_str(), "beat"),
        },
    );
}

/// What is known once the accesses of an item from number `j` on are.
pub open spec fn with_accesses(
    funcs: Seq<FnRef>,
    module: Seq<char>,
    node: Seq<char>,
    discovered: Seq<DiscoveredV>,
    declared: Seq<Seq<char>>,
    j: int,
    f: FoundV,
) -> FoundV
    decreases discovered.len() - j,
{
    if j < 0 || j >= discovered.len() {
        f
    } else {
        with_accesses(
            funcs,
            module,
            node,
            discovered,
            declared,
            j + 1,
            if first_access(funcs, discovered, module, j) {
                with_access(node, discovered[j], declared, f)
            } else {
                f
            },
        )
    }
}

fn add_accesses(
    funcs: &Vec<(String, Option<String>)>,
    module: &str,
    node: &String,
    discovered: &Vec<Discovered>,
    declared: &Vec<String>,
    f: &mut Found,
)
    ensures
        final(f).deep_view() == with_accesses(
            funcs.deep_view(),
            module@,
            node@,
            discovered.deep_view(),
            declared.deep_view(),
            0,
            old(f).deep_view(),
        ),
{
    let ghost start = f.deep_view();
    let ghost fs = funcs.deep_view();
    let ghost ds = discovered.deep_view();
    let ghost dc = declared.deep_view();
    let mut j: usize = 0;
    while j < discovered.len()
        invariant
            j <= discovered@.len(),
            fs == funcs.deep_view(),
            ds == discovered.deep_view(),
            dc == declared.deep_view(),
            with_accesses(fs, module@, node@, ds, dc, 0, start) == with_accesses(
                fs,
                module@,
                node@,
                ds,
                dc,
                j as int,
                f.deep_view(),
            ),
        decreases discovered@.len() - j,
    {
        if is_first_access(funcs, discovered, module, j) {
            assert(ds[j as int] == discovered@[j as int].deep_view());
            add_access(node, &discovered[j], declared, f);
        }
        j = j + 1;
    }
}

/// What is known once the accesses of the items from number `i` on are.
pub open spec fn discovered_uses(
    items: Seq<ItemV>,
    module: Seq<char>,
    discovered: Seq<DiscoveredV>,
    bundles: Seq<BundleV>,
    declared: Seq<Seq<char>>,
    i: int,
    f: FoundV,
) -> FoundV
    decreases items.len() - i,
{
    if i < 0 || i >= items.len() {
        f
    } else {
        discovered_uses(
            items,
            module,
            discovered,
            bundles,
            declared,
            i + 1,
            match boxed_name(items[i]) {
                Some(name) => with_accesses(
                    flow_fns(items[i], bundles),
                    module,
                    name,
                    discovered,
                    declared,
                    0,
                    f,
                ),
                None => f,
            },
        )
    }
}

/// Every use of a signal in a declaration: what its items declare, then what their bodies do.
pub open spec fn uses_of(d: DeclV, discovered: Seq<DiscoveredV>, bundles: Seq<BundleV>) -> Seq<UseV> {
    let declared = declared_signals(d.spec.items);
    discovered_uses(
        d.spec.items,
        module_name(d.origin),
        discovered,
        bundles,
        declared,
        0,
        FoundV { emitted: declared, uses: declared_uses(couplings(d.spec.items)) },
    ).uses
}

fn read_uses(d: &Decl, discovered: &Vec<Discovered>, bundles: &Vec<Bundle>) -> (r: Vec<Use>)
    ensures
        r.deep_view() == uses_of(d.deep_view(), discovered.deep_view(), bundles.deep_view()),
{
    let items = &d.spec.items;
    let module = module_of(d.origin.as_str());
    let declared = read_declared_signals(items);
    let list = all_couplings(items);
    let mut f = Found { emitted: declared.dup(), uses: read_declared_uses(&list) };
    let ghost start = f.deep_view();
    let ghost all = items.deep_view();
    let ghost ds = discovered.deep_view();
    let ghost bs = bundles.deep_view();
    let ghost dc = declared.deep_view();
    let mut i: usize = 0;
    while i < items.len()
        invariant
            i <= items@.len(),
            all == items.deep_view(),
            ds == discovered.deep_view(),
            bs == bundles.deep_view(),
            dc == declared.deep_view(),
            discovered_uses(all, module@, ds, bs, dc, 0, start) == discovered_uses(
                all,
                module@,
                ds,
                bs,
                dc,
                i as int,
                f.deep_view(),
            ),
        decreases items@.len() - i,
    {
        let funcs = read_flow_fns(&items[i], bundles);
        match &items[i] {
            Item::Node(n) => add_accesses(
                &funcs,
                module.as_str(),
                &n.ident,
                discovered,
                &declared,
                &mut f,
            ),
            Item::Pool(p) => add_accesses(
                &funcs,
                module.as_str(),
                &p.ident,
                discovered,
                &declared,
                &mut f,
            ),
            Item::Executor(_) => {},
        }
        i = i + 1;
    }
    f.uses
}

/// Who writes and who reads a signal.
#[derive(Debug)]
pub struct Sides {
    /// The signal.
    pub key: String,
    /// Who writes it.
    pub writers: Vec<String>,
    /// Who reads it.
    pub readers: Vec<String>,
    /// The supervisor itself consumes it.
    pub monitored: bool,
}

/// What [`Sides`] mean.
pub struct SidesV {
    pub key: Seq<char>,
    pub writers: Seq<Seq<char>>,
    pub readers: Seq<Seq<char>>,
    pub monitored: bool,
}

impl DeepView for Sides {
    type V = SidesV;

    open spec fn deep_view(&self) -> SidesV {
        SidesV {
            key: self.key@,
            writers: self.writers.deep_view(),
            readers: self.readers.deep_view(),
            monitored: self.monitored,
        }
    }
}

impl Dup for Sides {
    fn dup(&self) -> (r: Self) {
        Sides {
            key: self.key.dup(),
            writers: self.writers.dup(),
            readers: self.readers.dup(),
            monitored: self.monitored,
        }
    }
}

/// A list with a name in it.
pub open spec fn with_name(list: Seq<Seq<char>>, name: Seq<char>) -> Seq<Seq<char>> {
    if list.contains(name) {
        list
    } else {
        list.push(name)
    }
}

fn add_name(list: &mut Vec<String>, name: &String)
    ensures
        final(list).deep_view() == with_name(old(list).deep_view(), name@),
{
    if !holds(list, name.as_str()) {
        put(list, name.dup());
    }
}

/// The place of a signal from number `i` on; the end where it has none.
pub open spec fn side_at(sides: Seq<SidesV>, key: Seq<char>, i: int) -> int
    decreases sides.len() - i,
{
    if i < 0 || i >= sides.len() || sides[i].key == key {
        i
    } else {
        side_at(sides, key, i + 1)
    }
}

fn find_side(sides: &Vec<Sides>, key: &str) -> (r: usize)
    ensures
        r == side_at(sides.deep_view(), key@, 0),
        r <= sides@.len(),
{
    let ghost ss = sides.deep_view();
    let mut i: usize = 0;
    while i < sides.len() && !same(sides[i].key.as_str(), key)
        invariant
            i <= sides@.len(),
            ss == sides.deep_view(),
            side_at(ss, key@, 0) == side_at(ss, key@, i as int),
        decreases sides@.len() - i,
    {
        i = i + 1;
    }
    i
}

/// The sides of a signal with one use more.
pub open spec fn used(s: SidesV, u: UseV) -> SidesV {
    SidesV {
        key: s.key,
        writers: if u.write {
            with_name(s.writers, u.node)
        } else {
            s.writers
        },
        readers: if u.write {
            s.readers
        } else {
            with_name(s.readers, u.node)
        },
        monitored: s.monitored || u.monitor,
    }
}

/// A signal nobody uses.
pub open spec fn unused(key: Seq<char>) -> SidesV {
    SidesV { key, writers: Seq::empty(), readers: Seq::empty(), monitored: false }
}

/// The sides of all signals with one use more.
pub open spec fn noted(sides: Seq<SidesV>, u: UseV) -> Seq<SidesV> {
    let at = side_at(sides, u.key, 0);
    if at < sides.len() {
        sides.update(at, used(sides[at], u))
    } else {
        sides.push(used(unused(u.key), u))
    }
}

fn make_used(s: Sides, u: &Use) -> (r: Sides)
    ensures
        r.deep_view() == used(s.deep_view(), u.deep_view()),
{
    let mut writers = s.writers;
    let mut readers = s.readers;
    if u.write {
        add_name(&mut writers, &u.node);
    } else {
        add_name(&mut readers, &u.node);
    }
    Sides { key: s.key, writers, readers, monitored: s.monitored || u.monitor }
}

fn note(sides: &mut Vec<Sides>, u: &Use)
    ensures
        final(sides).deep_view() == noted(old(sides).deep_view(), u.deep_view()),
{
    let ghost ss = sides.deep_view();
    let at = find_side(sides, u.key.as_str());
    if at < sides.len() {
        let next = make_used(sides[at].dup(), u);
        assert(ss[at as int] == sides@[at as int].deep_view());
        sides.set(at, next);
        assert(sides.deep_view() == ss.update(at as int, next.deep_view()));
    } else {
        let empty = Sides {
            key: u.key.dup(),
            writers: Vec::new(),
            readers: Vec::new(),
            monitored: false,
        };
        assert(empty.writers.deep_view() == Seq::<Seq<char>>::empty());
        assert(empty.readers.deep_view() == Seq::<Seq<char>>::empty());
        put(sides, make_used(empty, u));
    }
}

/// The sides of all signals with the uses from number `i` on.
pub open spec fn noted_from(uses: Seq<UseV>, i: int, acc: Seq<SidesV>) -> Seq<SidesV>
    decreases uses.len() - i,
{
    if i < 0 || i >= uses.len() {
        acc
    } else {
        noted_from(uses, i + 1, noted(acc, uses[i]))
    }
}

fn note_all(uses: &Vec<Use>) -> (r: Vec<Sides>)
    ensures
        r.deep_view() == noted_from(uses.deep_view(), 0, Seq::empty()),
{
    let ghost us = uses.deep_view();
    let mut out: Vec<Sides> = Vec::new();
    assert(out.deep_view() == Seq::<SidesV>::empty());
    let mut i: usize = 0;
    while i < uses.len()
        invariant
            i <= uses@.len(),
            us == uses.deep_view(),
            noted_from(us, 0, Seq::empty()) == noted_from(us, i as int, out.deep_view()),
        decreases uses@.len() - i,
    {
        note(&mut out, &uses[i]);
        i = i + 1;
    }
    out
}

/// A list with the names of another from number `i` on.
pub open spec fn with_names(list: Seq<Seq<char>>, more: Seq<Seq<char>>, i: int) -> Seq<Seq<char>>
    decreases more.len() - i,
{
    if i < 0 || i >= more.len() {
        list
    } else {
        with_names(with_name(list, more[i]), more, i + 1)
    }
}

fn add_names(list: &mut Vec<String>, more: &Vec<String>)
    ensures
        final(list).deep_view() == with_names(old(list).deep_view(), more.deep_view(), 0),
{
    let ghost start = list.deep_view();
    let ghost ms = more.deep_view();
    let mut i: usize = 0;
    while i < more.len()
        invariant
            i <= more@.len(),
            ms == more.deep_view(),
            with_names(start, ms, 0) == with_names(list.deep_view(), ms, i as int),
        decreases more@.len() - i,
    {
        add_name(list, &more[i]);
        i = i + 1;
    }
}

/// The sides of a signal with those of another.
pub open spec fn joined_sides(s: SidesV, other: SidesV) -> SidesV {
    SidesV {
        key: s.key,
        writers: with_names(s.writers, other.writers, 0),
        readers: with_names(s.readers, other.readers, 0),
        monitored: s.monitored,
    }
}

/// The sides once signal number `to` has those of signal number `from`.
pub open spec fn merged(sides: Seq<SidesV>, from: int, to: int) -> Seq<SidesV> {
    if 0 <= from < sides.len() && 0 <= to < sides.len() {
        sides.update(to, joined_sides(sides[to], sides[from]))
    } else {
        sides
    }
}

fn merge(sides: &mut Vec<Sides>, from: usize, to: usize)
    ensures
        final(sides).deep_view() == merged(old(sides).deep_view(), from as int, to as int),
{
    if from < sides.len() && to < sides.len() {
        let ghost ss = sides.deep_view();
        let source = sides[from].dup();
        let target = sides[to].dup();
        assert(ss[from as int] == sides@[from as int].deep_view());
        assert(ss[to as int] == sides@[to as int].deep_view());
        let mut writers = target.writers;
        let mut readers = target.readers;
        add_names(&mut writers, &source.writers);
        add_names(&mut readers, &source.readers);
        let next = Sides { key: target.key, writers, readers, monitored: target.monitored };
        sides.set(to, next);
        assert(sides.deep_view() == ss.update(to as int, next.deep_view()));
    }
}

/// The names of signals.
pub open spec fn keys_of(sides: Seq<SidesV>) -> Seq<Seq<char>> {
    Seq::new(sides.len(), |i: int| sides[i].key)
}

fn read_keys(sides: &Vec<Sides>) -> (r: Vec<String>)
    ensures
        r.deep_view() == keys_of(sides.deep_view()),
{
    let ghost all = keys_of(sides.deep_view());
    let mut out: Vec<String> = Vec::new();
    let mut i: usize = 0;
    while i < sides.len()
        invariant
            i <= sides@.len(),
            all == keys_of(sides.deep_view()),
            out.deep_view() == all.take(i as int),
        decreases sides@.len() - i,
    {
        put(&mut out, sides[i].key.dup());
        i = i + 1;
        assert(out.deep_view() == all.take(i as int));
    }
    assert(all.take(all.len() as int) == all);
    out
}

/// The sides once each element from number `i` on and its array have each other's: the array
/// takes those of the element, then the element those of the array.
pub open spec fn covered_from(keys: Seq<Seq<char>>, i: int, sides: Seq<SidesV>) -> Seq<SidesV>
    decreases keys.len() - i,
{
    if i < 0 || i >= keys.len() {
        sides
    } else {
        covered_from(
            keys,
            i + 1,
            match whole_of(keys, keys[i]) {
                Some(whole) => {
                    let from = side_at(sides, keys[i], 0);
                    let to = side_at(sides, whole, 0);
                    merged(merged(sides, from, to), to, from)
                },
                None => sides,
            },
        )
    }
}

fn cover(keys: &Vec<String>, sides: &mut Vec<Sides>)
    ensures
        final(sides).deep_view() == covered_from(keys.deep_view(), 0, old(sides).deep_view()),
{
    let ghost start = sides.deep_view();
    let ghost ks = keys.deep_view();
    let mut i: usize = 0;
    while i < keys.len()
        invariant
            i <= keys@.len(),
            ks == keys.deep_view(),
            covered_from(ks, 0, start) == covered_from(ks, i as int, sides.deep_view()),
        decreases keys@.len() - i,
    {
        if let Some(whole) = find_whole(keys, keys[i].as_str()) {
            let from = find_side(sides, keys[i].as_str());
            let to = find_side(sides, whole.as_str());
            merge(sides, from, to);
            merge(sides, to, from);
        }
        i = i + 1;
    }
}

/// The sides of every signal of a declaration.
pub open spec fn sides_of(
    d: DeclV,
    discovered: Seq<DiscoveredV>,
    bundles: Seq<BundleV>,
) -> Seq<SidesV> {
    let plain = noted_from(uses_of(d, discovered, bundles), 0, Seq::empty());
    covered_from(keys_of(plain), 0, plain)
}

fn read_sides(d: &Decl, discovered: &Vec<Discovered>, bundles: &Vec<Bundle>) -> (r: Vec<Sides>)
    ensures
        r.deep_view() == sides_of(d.deep_view(), discovered.deep_view(), bundles.deep_view()),
{
    let uses = read_uses(d, discovered, bundles);
    let mut sides = note_all(&uses);
    let keys = read_keys(&sides);
    cover(&keys, &mut sides);
    sides
}

/// A signal that is read and that nothing writes.
pub open spec fn is_orphan(s: SidesV, cats: LintCats) -> bool {
    cats.orphan_reads && s.writers.len() == 0 && s.readers.len() > 0
}

/// A signal that is written and that nothing reads, the supervisor neither.
pub open spec fn is_dead(s: SidesV, cats: LintCats) -> bool {
    cats.dead_writes && s.readers.len() == 0 && s.writers.len() > 0 && !s.monitored
}

/// The findings on a signal.
pub open spec fn findings(s: SidesV, cats: LintCats) -> Seq<Seq<char>> {
    if is_orphan(s, cats) {
        seq![
            "orphan read: `"@ + s.key + "` is read by "@ + joined(s.readers, ", "@)
                + " but nothing in this graph writes it"@,
        ]
    } else if is_dead(s, cats) {
        seq![
            "dead write: `"@ + s.key + "` is written by "@ + joined(s.writers, ", "@)
                + " but nothing in this graph reads it"@,
        ]
    } else {
        Seq::empty()
    }
}

fn find_in_sides(s: &Sides, cats: &LintCats) -> (r: Option<String>)
    ensures
        match r {
            Some(t) => findings(s.deep_view(), *cats) == seq![t@],
            None => findings(s.deep_view(), *cats).len() == 0,
        },
{
    if cats.orphan_reads && s.writers.len() == 0 && s.readers.len() > 0 {
        let names = join(&s.readers, ", ");
        Some(
            cat5(
                "orphan read: `",
                s.key.as_str(),
                "` is read by ",
                names.as_str(),
                " but nothing in this graph writes it",
            ),
        )
    } else if cats.dead_writes && s.readers.len() == 0 && s.writers.len() > 0 && !s.monitored {
        let names = join(&s.writers, ", ");
        Some(
            cat5(
                "dead write: `",
                s.key.as_str(),
                "` is written by ",
                names.as_str(),
                " but nothing in this graph reads it",
            ),
        )
    } else {
        None
    }
}

/// The first entry from number `i` on that allows a signal; the end where none does.
pub open spec fn allowed_by(key: Seq<char>, allow: Seq<Seq<char>>, i: int) -> int
    decreases allow.len() - i,
{
    if i < 0 || i >= allow.len() || paths_alias(key, allow[i]) {
        i
    } else {
        allowed_by(key, allow, i + 1)
    }
}

fn find_allow(key: &str, allow: &Vec<String>) -> (r: usize)
    ensures
        r == allowed_by(key@, allow.deep_view(), 0),
        r <= allow@.len(),
{
    let ghost al = allow.deep_view();
    let mut i: usize = 0;
    while i < allow.len() && !do_alias(key, allow[i].as_str())
        invariant
            i <= allow@.len(),
            al == allow.deep_view(),
            allowed_by(key@, al, 0) == allowed_by(key@, al, i as int),
        decreases allow@.len() - i,
    {
        i = i + 1;
    }
    i
}

/// The warnings so far, and which allowing entries have suppressed something.
pub struct Lints {
    pub warnings: Seq<Seq<char>>,
    pub hits: Seq<bool>,
}

/// The warnings once those on a signal are there: an allowing entry takes its place.
pub open spec fn linted(s: SidesV, cats: LintCats, allow: Seq<Seq<char>>, l: Lints) -> Lints {
    if findings(s, cats).len() == 0 {
        l
    } else {
        let at = allowed_by(s.key, allow, 0);
        if at < allow.len() {
            Lints { warnings: l.warnings, hits: l.hits.update(at, true) }
        } else {
            Lints { warnings: l.warnings + findings(s, cats), hits: l.hits }
        }
    }
}

/// The warnings once those on the signals from number `i` on are there.
pub open spec fn linted_sides(
    sides: Seq<SidesV>,
    cats: LintCats,
    allow: Seq<Seq<char>>,
    i: int,
    l: Lints,
) -> Lints
    decreases sides.len() - i,
{
    if i < 0 || i >= sides.len() {
        l
    } else {
        linted_sides(sides, cats, allow, i + 1, linted(sides[i], cats, allow, l))
    }
}

/// The warnings once those on the declarations from number `i` on are there.
pub open spec fn linted_decls(
    decls: Seq<DeclV>,
    discovered: Seq<DiscoveredV>,
    bundles: Seq<BundleV>,
    cats: LintCats,
    allow: Seq<Seq<char>>,
    i: int,
    l: Lints,
) -> Lints
    decreases decls.len() - i,
{
    if i < 0 || i >= decls.len() {
        l
    } else {
        linted_decls(
            decls,
            discovered,
            bundles,
            cats,
            allow,
            i + 1,
            linted_sides(sides_of(decls[i], discovered, bundles), cats, allow, 0, l),
        )
    }
}

pub const STALE: &'static str = "` suppressed nothing — a stale entry, or a typo'd signal";

/// The warning on an allowing entry that suppressed nothing.
pub open spec fn stale_text(entry: Seq<char>) -> Seq<char> {
    "`--allow "@ + entry + STALE@
}

/// The warnings with those on the allowing entries from number `i` on that suppressed nothing.
pub open spec fn with_stale(
    allow: Seq<Seq<char>>,
    hits: Seq<bool>,
    i: int,
    acc: Seq<Seq<char>>,
) -> Seq<Seq<char>>
    decreases allow.len() - i,
{
    if i < 0 || i >= allow.len() {
        acc
    } else {
        with_stale(
            allow,
            hits,
            i + 1,
            if hits[i] {
                acc
            } else {
                acc.push(stale_text(allow[i]))
            },
        )
    }
}

/// What linting starts from.
pub open spec fn no_lints(allow: Seq<Seq<char>>) -> Lints {
    Lints { warnings: Seq::empty(), hits: Seq::new(allow.len(), |i: int| false) }
}

/// The warnings on the couplings of declarations.
pub open spec fn coupling_lints(
    decls: Seq<DeclV>,
    discovered: Seq<DiscoveredV>,
    bundles: Seq<BundleV>,
    cats: LintCats,
    allow: Seq<Seq<char>>,
) -> Seq<Seq<char>> {
    let all = linted_decls(decls, discovered, bundles, cats, allow, 0, no_lints(allow));
    with_stale(allow, all.hits, 0, all.warnings)
}

fn no_hits(n: usize) -> (r: Vec<bool>)
    ensures
        r@ == Seq::new(n as nat, |i: int| false),
{
    let mut hits: Vec<bool> = Vec::new();
    let mut i: usize = 0;
    while i < n
        invariant
            i <= n,
            hits@ == Seq::new(i as nat, |j: int| false),
        decreases n - i,
    {
        hits.push(false);
        i = i + 1;
        assert(hits@ == Seq::new(i as nat, |j: int| false));
    }
    hits
}

fn lint_sides(
    sides: &Vec<Sides>,
    cats: &LintCats,
    allow: &Vec<String>,
    warnings: &mut Vec<String>,
    hits: &mut Vec<bool>,
)
    requires
        old(hits)@.len() == allow@.len(),
    ensures
        final(hits)@.len() == allow@.len(),
        (Lints { warnings: final(warnings).deep_view(), hits: final(hits)@ }) == linted_sides(
            sides.deep_view(),
            *cats,
            allow.deep_view(),
            0,
            (Lints { warnings: old(warnings).deep_view(), hits: old(hits)@ }),
        ),
{
    let ghost start = Lints { warnings: warnings.deep_view(), hits: hits@ };
    let ghost ss = sides.deep_view();
    let ghost al = allow.deep_view();
    let mut i: usize = 0;
    while i < sides.len()
        invariant
            i <= sides@.len(),
            ss == sides.deep_view(),
            al == allow.deep_view(),
            hits@.len() == allow@.len(),
            linted_sides(ss, *cats, al, 0, start) == linted_sides(
                ss,
                *cats,
                al,
                i as int,
                (Lints { warnings: warnings.deep_view(), hits: hits@ }),
            ),
        decreases sides@.len() - i,
    {
        assert(ss[i as int] == sides@[i as int].deep_view());
        let ghost before = warnings.deep_view();
        if let Some(t) = find_in_sides(&sides[i], cats) {
            let at = find_allow(sides[i].key.as_str(), allow);
            if at < allow.len() {
                hits.set(at, true);
            } else {
                put(warnings, t);
                assert(warnings.deep_view() == before + findings(ss[i as int], *cats));
            }
        }
        i = i + 1;
    }
}

/// Runs the enabled dataflow lints over declarations and discoveries. `allow` holds signal paths on
/// which nothing is to be reported; an entry that suppresses nothing is itself reported.
pub fn dataflow_lints(
    decls: &Vec<Decl>,
    discovered: &Vec<Discovered>,
    bundles: &Vec<Bundle>,
    cats: &LintCats,
    allow: &Vec<String>,
) -> (r: Vec<String>)
    ensures
        r.deep_view() == coupling_lints(
            decls.deep_view(),
            discovered.deep_view(),
            bundles.deep_view(),
            *cats,
            allow.deep_view(),
        ),
{
    let mut warnings: Vec<String> = Vec::new();
    assert(warnings.deep_view() == Seq::<Seq<char>>::empty());
    let mut hits = no_hits(allow.len());
    let ghost ds = decls.deep_view();
    let ghost dd = discovered.deep_view();
    let ghost bs = bundles.deep_view();
    let ghost al = allow.deep_view();
    let ghost start = no_lints(al);
    assert(hits@ == start.hits);
    let mut i: usize = 0;
    while i < decls.len()
        invariant
            i <= decls@.len(),
            ds == decls.deep_view(),
            dd == discovered.deep_view(),
            bs == bundles.deep_view(),
            al == allow.deep_view(),
            hits@.len() == allow@.len(),
            linted_decls(ds, dd, bs, *cats, al, 0, start) == linted_decls(
                ds,
                dd,
                bs,
                *cats,
                al,
                i as int,
                (Lints { warnings: warnings.deep_view(), hits: hits@ }),
            ),
        decreases decls@.len() - i,
    {
        let sides = read_sides(&decls[i], discovered, bundles);
        lint_sides(&sides, cats, allow, &mut warnings, &mut hits);
        i = i + 1;
    }
    let ghost all = linted_decls(ds, dd, bs, *cats, al, 0, start);
    assert(all == (Lints { warnings: warnings.deep_view(), hits: hits@ }));
    let mut k: usize = 0;
    while k < allow.len()
        invariant
            k <= allow@.len() == hits@.len(),
            al == allow.deep_view(),
            hits@ == all.hits,
            with_stale(al, all.hits, 0, all.warnings) == with_stale(
                al,
                all.hits,
                k as int,
                warnings.deep_view(),
            ),
        decreases allow@.len() - k,
    {
        if !hits[k] {
            put(&mut warnings, cat3("`--allow ", allow[k].as_str(), STALE));
        }
        k = k + 1;
    }
    warnings
}

pub const BYPASSED: &'static str = "<..>` is reachable from outside its module; reaching the static directly bypasses the ";

pub const ADVICE: &'static str = "gate — keep it private and expose `#[dataflow]` accessors";

/// The warning on a gate that can be bypassed.
pub open spec fn gate_text(g: GateStaticV) -> Seq<char> {
    "public gate: `"@ + g.file + ":"@ + decimal(g.line as nat) + "` `"@ + g.name + ": "@ + g.ty + (BYPASSED@ + ADVICE@)
}

/// The warnings on the public gates from number `i` on, behind `acc`.
pub open spec fn gate_texts(statics: Seq<GateStaticV>, i: int, acc: Seq<Seq<char>>) -> Seq<Seq<char>>
    decreases statics.len() - i,
{
    if i < 0 || i >= statics.len() {
        acc
    } else {
        gate_texts(
            statics,
            i + 1,
            if statics[i].public {
                acc.push(gate_text(statics[i]))
            } else {
                acc
            },
        )
    }
}

/// Reports gate-wrapped statics that are reachable from outside their module: a gate guards the
/// access path, not the static.
pub fn gate_lints(statics: &Vec<GateStatic>, cats: &LintCats) -> (r: Vec<String>)
    ensures
        r.deep_view() == (if cats.public_gate {
            gate_texts(statics.deep_view(), 0, Seq::empty())
        } else {
            Seq::empty()
        }),
{
    let mut out: Vec<String> = Vec::new();
    assert(out.deep_view() == Seq::<Seq<char>>::empty());
    if !cats.public_gate {
        return out;
    }
    let ghost ss = statics.deep_view();
    let mut i: usize = 0;
    while i < statics.len()
        invariant
            i <= statics@.len(),
            ss == statics.deep_view(),
            gate_texts(ss, 0, Seq::empty()) == gate_texts(ss, i as int, out.deep_view()),
        decreases statics@.len() - i,
    {
        let g = &statics[i];
        assert(ss[i as int] == g.deep_view());
        if g.public {
            let line = decimal_usize(g.line);
            let advice = cat2(BYPASSED, ADVICE);
            put(
                &mut out,
                cat9(
                    "public gate: `",
                    g.file.as_str(),
                    ":",
                    line.as_str(),
                    "` `",
                    g.name.as_str(),
                    ": ",
                    g.ty.as_str(),
                    advice.as_str(),
                ),
            );
        }
        i = i + 1;
    }
    out
}

/// Naming a category never disables one.
pub proof fn naming_a_category_keeps_the_others(c: LintCats, name: Seq<char>)
    ensures
        with_category(c, name) matches Some(d) ==> (c.orphan_reads ==> d.orphan_reads) && (c.dead_writes
            ==> d.dead_writes) && (c.public_gate ==> d.public_gate),
{
}

/// A signal that is written and read on both sides is never reported.
pub proof fn a_two_sided_signal_is_never_reported(s: SidesV, cats: LintCats)
    requires
        s.writers.len() > 0,
        s.readers.len() > 0,
    ensures
        findings(s, cats).len() == 0,
{
}

/// What is found with some categories is found with more of them too.
pub proof fn more_categories_find_no_less(s: SidesV, few: LintCats, many: LintCats)
    requires
        few.orphan_reads ==> many.orphan_reads,
        few.dead_writes ==> many.dead_writes,
        findings(s, few).len() > 0,
    ensures
        findings(s, many) == findings(s, few),
{
}

/// A write that the supervisor observes, or that is its heartbeat, is never reported as dead.
pub proof fn a_monitored_write_is_never_dead(s: SidesV, u: UseV, cats: LintCats)
    requires
        u.monitor,
    ensures
        !is_dead(used(s, u), cats),
{
}

proof fn lemma_allowed_by(key: Seq<char>, allow: Seq<Seq<char>>, i: int)
    requires
        0 <= i <= allow.len(),
    ensures
        i <= allowed_by(key, allow, i) <= allow.len(),
        forall|j: int| i <= j < allowed_by(key, allow, i) ==> !paths_alias(key, #[trigger] allow[j]),
    decreases allow.len() - i,
{
    if i < allow.len() && !paths_alias(key, allow[i]) {
        lemma_allowed_by(key, allow, i + 1);
    }
}

/// Nothing is reported on a signal that an entry allows.
pub proof fn an_allowed_signal_is_never_reported(
    s: SidesV,
    cats: LintCats,
    allow: Seq<Seq<char>>,
    k: int,
    l: Lints,
)
    requires
        0 <= k < allow.len(),
        paths_alias(s.key, allow[k]),
    ensures
        linted(s, cats, allow, l).warnings == l.warnings,
{
    lemma_allowed_by(s.key, allow, 0);
}

proof fn lemma_with_names(list: Seq<Seq<char>>, more: Seq<Seq<char>>, i: int)
    requires
        0 <= i <= more.len(),
    ensures
        with_names(list, more, i).len() >= list.len(),
        forall|j: int| 0 <= j < list.len() ==> with_names(list, more, i).contains(#[trigger] list[j]),
        forall|j: int| i <= j < more.len() ==> with_names(list, more, i).contains(#[trigger] more[j]),
    decreases more.len() - i,
{
    if i < more.len() {
        let next = with_name(list, more[i]);
        lemma_with_names(next, more, i + 1);
        let all = with_names(list, more, i);
        assert forall|j: int| 0 <= j < list.len() implies all.contains(#[trigger] list[j]) by {
            assert(next[j] == list[j]);
        }
        assert(next.contains(more[i])) by {
            if !list.contains(more[i]) {
                assert(next[list.len() as int] == more[i]);
            }
        }
        let k = choose|k: int| 0 <= k < next.len() && next[k] == more[i];
        assert(all.contains(next[k]));
    } else {
        assert forall|j: int| 0 <= j < list.len() implies with_names(list, more, i).contains(
            #[trigger] list[j],
        ) by {
            assert(with_names(list, more, i)[j] == list[j]);
        }
    }
}

/// An element and its array cover each other: once their sides are joined, a writer or reader of
/// one is one of the other.
pub proof fn an_element_and_its_array_cover_each_other(sides: Seq<SidesV>, elem: int, whole: int)
    requires
        0 <= elem < sides.len(),
        0 <= whole < sides.len(),
        elem != whole,
    ensures
        ({
            let after = merged(merged(sides, elem, whole), whole, elem);
            &&& forall|j: int|
                0 <= j < sides[elem].writers.len() ==> after[whole].writers.contains(
                    #[trigger] sides[elem].writers[j],
                )
            &&& forall|j: int|
                0 <= j < sides[elem].readers.len() ==> after[whole].readers.contains(
                    #[trigger] sides[elem].readers[j],
                )
            &&& forall|j: int|
                0 <= j < after[whole].writers.len() ==> after[elem].writers.contains(
                    #[trigger] after[whole].writers[j],
                )
            &&& forall|j: int|
                0 <= j < after[whole].readers.len() ==> after[elem].readers.contains(
                    #[trigger] after[whole].readers[j],
                )
        }),
{
    let mid = merged(sides, elem, whole);
    lemma_with_names(sides[whole].writers, sides[elem].writers, 0);
    lemma_with_names(sides[whole].readers, sides[elem].readers, 0);
    lemma_with_names(mid[elem].writers, mid[whole].writers, 0);
    lemma_with_names(mid[elem].readers, mid[whole].readers, 0);
}

} // verus!
