//! What a scanned source file contributes to a graph: accesses with resolved signal paths,
//! `#[dataflow]` functions, bundles and gate statics.

use vstd::prelude::*;
use vstd::string::*;

use crate::list::{put, Dup};
use crate::rust::{Attr, AttrV};
use crate::scan::{
    append, is_dataflow_attr, item_accesses, mark_of, parse_items_of, scan_items, source_items,
    Access, AccessV, SrcItem, SrcItemV, UseStep, UseStepV,
};
use crate::text::{
    cat2, chars_of, find, find_in, join, joined, look_up, looked_up, pieces, rfind, rfind_in, same,
    slice_text, split, text,
};

verus! {

/// The pieces of a path that name something: neither empty nor `.`. Those from `i` on, behind
/// `acc`.
pub open spec fn named_pieces(parts: Seq<Seq<char>>, i: int, acc: Seq<Seq<char>>) -> Seq<Seq<char>>
    decreases parts.len() - i,
{
    if i >= parts.len() {
        acc
    } else if parts[i].len() == 0 || parts[i] == "."@ {
        named_pieces(parts, i + 1, acc)
    } else {
        named_pieces(parts, i + 1, acc.push(parts[i]))
    }
}

/// The names along a `/`-separated path.
pub open spec fn path_names(path: Seq<char>) -> Seq<Seq<char>> {
    named_pieces(pieces(path, "/"@), 0, Seq::empty())
}

pub fn names_of_path(path: &str) -> (r: Vec<String>)
    ensures
        r.deep_view() == path_names(path@),
{
    proof {
        reveal_strlit("/");
    }
    let parts = split(path, "/");
    let ghost p = parts.deep_view();
    let mut out: Vec<String> = Vec::new();
    assert(out.deep_view() == Seq::<Seq<char>>::empty());
    let mut i: usize = 0;
    while i < parts.len()
        invariant
            i <= parts@.len(),
            p == parts.deep_view(),
            named_pieces(p, 0, Seq::empty()) == named_pieces(p, i as int, out.deep_view()),
        decreases parts@.len() - i,
    {
        if !(parts[i].as_str().is_empty() || same(parts[i].as_str(), ".")) {
            put(&mut out, parts[i].clone());
        }
        i = i + 1;
    }
    out
}

/// The last name of a path; `None` for an empty path and one that ends in `..`.
pub open spec fn file_name(path: Seq<char>) -> Option<Seq<char>> {
    let names = path_names(path);
    if names.len() > 0 && names.last() != ".."@ {
        Some(names.last())
    } else {
        None
    }
}

/// A file name without its extension.
pub open spec fn stem(name: Seq<char>) -> Seq<char> {
    match rfind(name, "."@) {
        Some(i) => if i == 0 {
            name
        } else {
            name.subrange(0, i)
        },
        None => name,
    }
}

pub fn stem_of(name: &str) -> (r: String)
    ensures
        r@ == stem(name@),
{
    let v = chars_of(name);
    let dot = chars_of(".");
    match rfind_in(&v, &dot) {
        Some(i) => if i == 0 {
            text(name)
        } else {
            slice_text(&v, 0, i)
        },
        None => text(name),
    }
}

/// A file stem that names the directory's module rather than one of its own.
pub open spec fn root_stem(s: Seq<char>) -> bool {
    s == "mod"@ || s == "lib"@ || s == "main"@
}

pub fn is_root_stem(s: &str) -> (r: bool)
    ensures
        r == root_stem(s@),
{
    same(s, "mod") || same(s, "lib") || same(s, "main")
}

/// The module that a source file is: its stem, or its directory's name for `mod`, `lib` and
/// `main`.
pub open spec fn module_name(origin: Seq<char>) -> Seq<char> {
    let names = path_names(origin);
    let own = match file_name(origin) {
        Some(n) => stem(n),
        None => ""@,
    };
    if root_stem(own) && names.len() >= 2 && names[names.len() - 2] != ".."@ {
        names[names.len() - 2]
    } else {
        own
    }
}

/// The name of the module that a source file is.
pub fn module_of(origin: &str) -> (r: String)
    ensures
        r@ == module_name(origin@),
{
    let names = names_of_path(origin);
    let n = names.len();
    let own = if n > 0 && !same(names[n - 1].as_str(), "..") {
        stem_of(names[n - 1].as_str())
    } else {
        text("")
    };
    if is_root_stem(own.as_str()) && n >= 2 && !same(names[n - 2].as_str(), "..") {
        names[n - 2].clone()
    } else {
        own
    }
}

/// The imports of a tree, as `(name in scope, full path)`: those from step `i` on, below `prefix`,
/// behind `acc`.
pub open spec fn use_pairs(
    steps: Seq<UseStepV>,
    i: int,
    prefix: Seq<Seq<char>>,
    acc: Seq<(Seq<char>, Seq<char>)>,
) -> Seq<(Seq<char>, Seq<char>)>
    decreases steps.len() - i,
{
    if i >= steps.len() {
        acc
    } else {
        match steps[i] {
            UseStepV::Enter(n) => use_pairs(steps, i + 1, prefix.push(n), acc),
            UseStepV::Leave => use_pairs(
                steps,
                i + 1,
                if prefix.len() > 0 {
                    prefix.drop_last()
                } else {
                    prefix
                },
                acc,
            ),
            UseStepV::Name(n) => use_pairs(
                steps,
                i + 1,
                prefix,
                acc.push((n, joined(prefix.push(n), "::"@))),
            ),
            UseStepV::Rename((n, alias)) => use_pairs(
                steps,
                i + 1,
                prefix,
                acc.push((alias, joined(prefix.push(n), "::"@))),
            ),
            UseStepV::Glob => use_pairs(steps, i + 1, prefix, acc),
        }
    }
}

fn full_path(prefix: &Vec<String>, name: &String) -> (r: String)
    ensures
        r@ == joined(prefix.deep_view().push(name@), "::"@),
{
    let mut all = prefix.dup();
    put(&mut all, name.clone());
    join(&all, "::")
}

fn collect_uses(steps: &Vec<UseStep>, out: &mut Vec<(String, String)>)
    ensures
        final(out).deep_view() == use_pairs(
            steps.deep_view(),
            0,
            Seq::empty(),
            old(out).deep_view(),
        ),
{
    let ghost s = steps.deep_view();
    let ghost start = out.deep_view();
    let mut prefix: Vec<String> = Vec::new();
    assert(prefix.deep_view() == Seq::<Seq<char>>::empty());
    let mut i: usize = 0;
    while i < steps.len()
        invariant
            i <= steps@.len(),
            s == steps.deep_view(),
            use_pairs(s, 0, Seq::empty(), start) == use_pairs(
                s,
                i as int,
                prefix.deep_view(),
                out.deep_view(),
            ),
        decreases steps@.len() - i,
    {
        match &steps[i] {
            UseStep::Enter(n) => {
                put(&mut prefix, n.clone());
            },
            UseStep::Leave => {
                if prefix.len() > 0 {
                    let ghost before = prefix.deep_view();
                    let _ = prefix.pop();
                    assert(prefix.deep_view() == before.drop_last());
                }
            },
            UseStep::Name(n) => {
                let full = full_path(&prefix, n);
                put(out, (n.clone(), full));
            },
            UseStep::Rename(pair) => {
                let full = full_path(&prefix, &pair.0);
                put(out, (pair.1.clone(), full));
            },
            UseStep::Glob => {},
        }
        i = i + 1;
    }
}

/// The imports of the items from `i` on, behind `acc`.
pub open spec fn item_uses(items: Seq<SrcItemV>, i: int, acc: Seq<(Seq<char>, Seq<char>)>) -> Seq<
    (Seq<char>, Seq<char>),
>
    decreases items.len() - i,
{
    if i >= items.len() {
        acc
    } else {
        match items[i] {
            SrcItemV::Use(steps) => item_uses(items, i + 1, use_pairs(steps, 0, Seq::empty(), acc)),
            _ => item_uses(items, i + 1, acc),
        }
    }
}

pub fn use_aliases(items: &Vec<SrcItem>) -> (r: Vec<(String, String)>)
    ensures
        r.deep_view() == item_uses(items.deep_view(), 0, Seq::empty()),
{
    let ghost v = items.deep_view();
    let mut out: Vec<(String, String)> = Vec::new();
    assert(out.deep_view() == Seq::<(Seq<char>, Seq<char>)>::empty());
    let mut i: usize = 0;
    while i < items.len()
        invariant
            i <= items@.len(),
            v == items.deep_view(),
            item_uses(v, 0, Seq::empty()) == item_uses(v, i as int, out.deep_view()),
        decreases items@.len() - i,
    {
        match &items[i] {
            SrcItem::Use(steps) => {
                collect_uses(steps, &mut out);
            },
            _ => {},
        }
        i = i + 1;
    }
    out
}

/// The character is a lower-case letter.
pub uninterp spec fn lowercase(c: char) -> bool;

/// Whether a character has Unicode's `Lowercase` property, as `char::is_lowercase` tells.
pub assume_specification[ char::is_lowercase ](c: char) -> (r: bool)
    ensures
        r == lowercase(c),
;

/// The signal path without a leading `self`, in pieces, and its index.
pub open spec fn path_parts(path: Seq<char>) -> (Seq<Seq<char>>, Seq<char>) {
    match find(path, "["@) {
        Some(i) => (
            pieces(path.subrange(0, i), "::"@),
            path.subrange(i, path.len() as int),
        ),
        None => (pieces(path, "::"@), ""@),
    }
}

/// The pieces name a place relative to the module they stand in.
pub open spec fn relative_pieces(segs: Seq<Seq<char>>) -> bool {
    ||| segs.len() > 0 && segs[0] == "super"@
    ||| segs.len() == 1 && segs[0] != "crate"@
    ||| segs.len() == 2 && segs[0] != "crate"@ && segs[0].len() > 0 && lowercase(segs[0][0])
}

/// A signal path with its imported head spelled out, and whether it is relative to the module it
/// stands in.
pub open spec fn resolved_path(
    path: Seq<char>,
    aliases: Seq<(Seq<char>, Seq<char>)>,
) -> (Seq<char>, bool) {
    let (all, index) = path_parts(path);
    let own = all.len() > 0 && all[0] == "self"@;
    let segs = if own {
        all.subrange(1, all.len() as int)
    } else {
        all
    };
    if segs.len() > 0 && looked_up(aliases, segs[0], aliases.len() as int) is Some {
        let full = looked_up(aliases, segs[0], aliases.len() as int)->0;
        (joined(segs.update(0, full), "::"@) + index, false)
    } else {
        (joined(segs, "::"@) + index, own || relative_pieces(segs))
    }
}

fn first_is_lowercase(s: &str) -> (r: bool)
    ensures
        r == (s@.len() > 0 && lowercase(s@[0])),
{
    let v = chars_of(s);
    v.len() > 0 && v[0].is_lowercase()
}

fn is_relative(segs: &Vec<String>) -> (r: bool)
    ensures
        r == relative_pieces(segs.deep_view()),
{
    let n = segs.len();
    if n > 0 && same(segs[0].as_str(), "super") {
        true
    } else if n == 1 {
        !same(segs[0].as_str(), "crate")
    } else if n == 2 {
        !same(segs[0].as_str(), "crate") && first_is_lowercase(segs[0].as_str())
    } else {
        false
    }
}

/// Resolves a signal path against the imports of its file.
pub fn resolve_path(path: &str, aliases: &Vec<(String, String)>) -> (r: (String, bool))
    ensures
        (r.0@, r.1) == resolved_path(path@, aliases.deep_view()),
{
    let v = chars_of(path);
    let open = chars_of("[");
    let (head, index) = match find_in(&v, &open, 0) {
        Some(i) => (slice_text(&v, 0, i), slice_text(&v, i, v.len())),
        None => (text(path), text("")),
    };
    proof {
        reveal_strlit("::");
    }
    let mut segs = split(head.as_str(), "::");
    let ghost all = segs.deep_view();
    let own = same(segs[0].as_str(), "self");
    if own {
        let _ = segs.remove(0);
        assert(segs.deep_view() == all.subrange(1, all.len() as int));
    }
    let ghost rest = segs.deep_view();
    if segs.len() > 0 {
        if let Some(full) = look_up(aliases, segs[0].as_str()) {
            segs.set(0, full);
            assert(segs.deep_view() == rest.update(0, full@));
            let names = join(&segs, "::");
            return (cat2(names.as_str(), index.as_str()), false);
        }
    }
    let names = join(&segs, "::");
    (cat2(names.as_str(), index.as_str()), own || is_relative(&segs))
}

/// An access found in a scanned source file.
#[derive(Debug)]
pub struct Discovered {
    /// The module that the file is.
    pub module: String,
    /// The access.
    pub access: Access,
    /// Its signal path is relative to that module.
    pub relative: bool,
}

/// What a [`Discovered`] means.
pub struct DiscoveredV {
    pub module: Seq<char>,
    pub access: AccessV,
    pub relative: bool,
}

impl DeepView for Discovered {
    type V = DiscoveredV;

    open spec fn deep_view(&self) -> DiscoveredV {
        DiscoveredV {
            module: self.module.deep_view(),
            access: self.access.deep_view(),
            relative: self.relative.deep_view(),
        }
    }
}

impl Dup for Discovered {
    fn dup(&self) -> (r: Self) {
        Discovered {
            module: self.module.dup(),
            access: self.access.dup(),
            relative: self.relative.dup(),
        }
    }
}


/// The access `a`, found in a file that is `module` and has these imports.
pub open spec fn placed(
    a: AccessV,
    module: Seq<char>,
    aliases: Seq<(Seq<char>, Seq<char>)>,
) -> DiscoveredV {
    let (path, relative) = resolved_path(a.path, aliases);
    DiscoveredV { module, access: AccessV { path, ..a }, relative }
}

/// What the items of a file at `origin` access.
pub open spec fn item_discoveries(items: Seq<SrcItemV>, origin: Seq<char>) -> Seq<DiscoveredV> {
    let found = item_accesses(items, 0);
    let aliases = item_uses(items, 0, Seq::empty());
    Seq::new(found.len(), |i: int| placed(found[i], module_name(origin), aliases))
}

/// What a source file at `origin` accesses.
pub open spec fn discoveries(src: Seq<char>, origin: Seq<char>) -> Seq<DiscoveredV> {
    match source_items(src) {
        Some(items) => item_discoveries(items, origin),
        None => Seq::empty(),
    }
}

/// What the items of a file at `origin` access.
pub fn discover_items(items: &Vec<SrcItem>, origin: &str) -> (r: Vec<Discovered>)
    ensures
        r.deep_view() == item_discoveries(items.deep_view(), origin@),
{
    let found = scan_items(items);
    let module = module_of(origin);
    let aliases = use_aliases(items);
    let ghost all = item_discoveries(items.deep_view(), origin@);
    let mut out: Vec<Discovered> = Vec::new();
    let mut i: usize = 0;
    while i < found.len()
        invariant
            i <= found@.len(),
            module@ == module_name(origin@),
            all == Seq::new(
                found.deep_view().len(),
                |k: int| placed(found.deep_view()[k], module@, aliases.deep_view()),
            ),
            out.deep_view() == all.take(i as int),
        decreases found@.len() - i,
    {
        let mut access = found[i].dup();
        let (path, relative) = resolve_path(access.path.as_str(), &aliases);
        access.path = path;
        put(&mut out, Discovered { module: module.clone(), access, relative });
        i = i + 1;
        assert(out.deep_view() == all.take(i as int));
    }
    assert(all.take(all.len() as int) == all);
    out
}

/// Scans Rust source for `#[dataflow]` accesses and appends them to `out`, their signal paths
/// resolved against the imports of the file.
pub fn scan_source(src: &str, origin: &str, out: &mut Vec<Discovered>)
    ensures
        final(out).deep_view() == old(out).deep_view() + discoveries(src@, origin@),
{
    if let Some(items) = parse_items_of(src) {
        let more = discover_items(&items, origin);
        append(out, &more);
    } else {
        assert(out.deep_view() + Seq::<DiscoveredV>::empty() == out.deep_view());
    }
}

/// A static whose type is one of the supervisor's gates.
#[derive(Debug)]
pub struct GateStatic {
    /// The source file.
    pub file: String,
    /// The line of its name.
    pub line: usize,
    /// Its name.
    pub name: String,
    /// The last segment of its type.
    pub ty: String,
    /// It has any visibility but the private one.
    pub public: bool,
}

/// What a [`GateStatic`] means.
pub struct GateStaticV {
    pub file: Seq<char>,
    pub line: usize,
    pub name: Seq<char>,
    pub ty: Seq<char>,
    pub public: bool,
}

impl DeepView for GateStatic {
    type V = GateStaticV;

    open spec fn deep_view(&self) -> GateStaticV {
        GateStaticV {
            file: self.file.deep_view(),
            line: self.line.deep_view(),
            name: self.name.deep_view(),
            ty: self.ty.deep_view(),
            public: self.public.deep_view(),
        }
    }
}

impl Dup for GateStatic {
    fn dup(&self) -> (r: Self) {
        GateStatic {
            file: self.file.dup(),
            line: self.line.dup(),
            name: self.name.dup(),
            ty: self.ty.dup(),
            public: self.public.dup(),
        }
    }
}


/// The name of a gate type.
pub open spec fn gate_type(ty: Seq<char>) -> bool {
    ty == "Backed"@ || ty == "Leased"@ || ty == "VetoGate"@
}

/// What gated static an item is.
pub open spec fn gate_of(item: SrcItemV, file: Seq<char>) -> Option<GateStaticV> {
    match item {
        SrcItemV::Static(s) => match s.ty {
            Some(segs) => if segs.len() > 0 && gate_type(segs.last()) {
                Some(
                    GateStaticV {
                        file,
                        line: s.line,
                        name: s.name,
                        ty: segs.last(),
                        public: s.public,
                    },
                )
            } else {
                None
            },
            None => None,
        },
        _ => None,
    }
}

fn read_gate(item: &SrcItem, file: &str) -> (r: Option<GateStatic>)
    ensures
        r.deep_view() == gate_of(item.deep_view(), file@),
{
    match item {
        SrcItem::Static(s) => match &s.ty {
            Some(segs) => {
                let n = segs.len();
                if n > 0 && (same(segs[n - 1].as_str(), "Backed") || same(
                    segs[n - 1].as_str(),
                    "Leased",
                ) || same(segs[n - 1].as_str(), "VetoGate")) {
                    Some(
                        GateStatic {
                            file: text(file),
                            line: s.line,
                            name: s.name.clone(),
                            ty: segs[n - 1].clone(),
                            public: s.public,
                        },
                    )
                } else {
                    None
                }
            },
            None => None,
        },
        _ => None,
    }
}

/// Gated statics among the items from `i` on, behind `acc`.
pub open spec fn item_gates(
    items: Seq<SrcItemV>,
    file: Seq<char>,
    i: int,
    acc: Seq<GateStaticV>,
) -> Seq<
    GateStaticV,
>
    decreases items.len() - i,
{
    if i >= items.len() {
        acc
    } else {
        item_gates(
            items,
            file,
            i + 1,
            match gate_of(items[i], file) {
                Some(g) => acc.push(g),
                None => acc,
            },
        )
    }
}

/// Appends gated statics among the items of `file` to `out`.
pub fn gate_items(items: &Vec<SrcItem>, file: &str, out: &mut Vec<GateStatic>)
    ensures
        final(out).deep_view() == item_gates(items.deep_view(), file@, 0, old(out).deep_view()),
{
    let ghost v = items.deep_view();
    let ghost start = out.deep_view();
    let mut i: usize = 0;
    while i < items.len()
        invariant
            i <= items@.len(),
            v == items.deep_view(),
            item_gates(v, file@, 0, start) == item_gates(v, file@, i as int, out.deep_view()),
        decreases items@.len() - i,
    {
        if let Some(g) = read_gate(&items[i], file) {
            put(out, g);
        }
        i = i + 1;
    }
}

/// Gated statics of a source file, behind `acc`.
pub open spec fn source_gates(
    src: Seq<char>,
    file: Seq<char>,
    acc: Seq<GateStaticV>,
) -> Seq<GateStaticV> {
    match source_items(src) {
        Some(items) => item_gates(items, file, 0, acc),
        None => acc,
    }
}

/// Scans Rust source for statics wrapped in a supervisor gate and appends them to `out`.
pub fn scan_gate_statics(src: &str, file: &str, out: &mut Vec<GateStatic>)
    ensures
        final(out).deep_view() == source_gates(src@, file@, old(out).deep_view()),
{
    if let Some(items) = parse_items_of(src) {
        gate_items(&items, file, out);
    }
}

/// An attribute of the list from `i` on is a `dataflow` attribute.
pub open spec fn marked(attrs: Seq<AttrV>) -> bool {
    exists|i: int| 0 <= i < attrs.len() && mark_of(#[trigger] attrs[i]) is Some
}

fn is_marked(attrs: &Vec<Attr>) -> (r: bool)
    ensures
        r == marked(attrs.deep_view()),
{
    let ghost a = attrs.deep_view();
    let mut i: usize = 0;
    while i < attrs.len()
        invariant
            i <= attrs@.len(),
            a == attrs.deep_view(),
            forall|k: int| 0 <= k < i ==> mark_of(#[trigger] a[k]) is None,
        decreases attrs@.len() - i,
    {
        if is_dataflow_attr(&attrs[i]) {
            assert(mark_of(a[i as int]) is Some);
            return true;
        }
        i = i + 1;
    }
    false
}

/// The `#[dataflow]` functions among the items from `i` on, as `(module, name)`, behind `acc`.
pub open spec fn item_fns(
    items: Seq<SrcItemV>,
    module: Seq<char>,
    i: int,
    acc: Seq<(Seq<char>, Seq<char>)>,
) -> Seq<(Seq<char>, Seq<char>)>
    decreases items.len() - i,
{
    if i >= items.len() {
        acc
    } else {
        item_fns(
            items,
            module,
            i + 1,
            match items[i] {
                SrcItemV::Fn(f) => if marked(f.attrs) {
                    acc.push((module, f.name))
                } else {
                    acc
                },
                _ => acc,
            },
        )
    }
}

/// Appends the `#[dataflow]` functions among the items of a file at `origin` to `out`.
pub fn fn_items(items: &Vec<SrcItem>, origin: &str, out: &mut Vec<(String, String)>)
    ensures
        final(out).deep_view() == item_fns(
            items.deep_view(),
            module_name(origin@),
            0,
            old(out).deep_view(),
        ),
{
    let module = module_of(origin);
    let ghost v = items.deep_view();
    let ghost start = out.deep_view();
    let mut i: usize = 0;
    while i < items.len()
        invariant
            i <= items@.len(),
            v == items.deep_view(),
            item_fns(v, module@, 0, start) == item_fns(v, module@, i as int, out.deep_view()),
        decreases items@.len() - i,
    {
        if let SrcItem::Fn(f) = &items[i] {
            if is_marked(&f.attrs) {
                put(out, (module.clone(), f.name.clone()));
            }
        }
        i = i + 1;
    }
}

/// The `#[dataflow]` functions of a source file, behind `acc`.
pub open spec fn source_fns(src: Seq<char>, origin: Seq<char>, acc: Seq<(Seq<char>, Seq<char>)>) -> Seq<
    (Seq<char>, Seq<char>),
> {
    match source_items(src) {
        Some(items) => item_fns(items, module_name(origin), 0, acc),
        None => acc,
    }
}

/// Appends the `(module, name)` of every `#[dataflow]` function of a source file to `out`.
pub fn scan_fns(src: &str, origin: &str, out: &mut Vec<(String, String)>)
    ensures
        final(out).deep_view() == source_fns(src@, origin@, old(out).deep_view()),
{
    if let Some(items) = parse_items_of(src) {
        fn_items(&items, origin, out);
    }
}

/// A `#[dataflow_bundle]` module and the `#[dataflow]` functions it holds.
#[derive(Debug)]
pub struct Bundle {
    /// The module that the file is.
    pub module: String,
    /// The module carrying the attribute.
    pub mod_name: String,
    /// The bundle name, `BUNDLE` where none is given.
    pub name: String,
    /// The functions.
    pub fns: Vec<String>,
}

/// What a [`Bundle`] means.
pub struct BundleV {
    pub module: Seq<char>,
    pub mod_name: Seq<char>,
    pub name: Seq<char>,
    pub fns: Seq<Seq<char>>,
}

impl DeepView for Bundle {
    type V = BundleV;

    open spec fn deep_view(&self) -> BundleV {
        BundleV {
            module: self.module.deep_view(),
            mod_name: self.mod_name.deep_view(),
            name: self.name.deep_view(),
            fns: self.fns.deep_view(),
        }
    }
}

impl Dup for Bundle {
    fn dup(&self) -> (r: Self) {
        Bundle {
            module: self.module.dup(),
            mod_name: self.mod_name.dup(),
            name: self.name.dup(),
            fns: self.fns.dup(),
        }
    }
}


/// The first `dataflow_bundle` attribute from attribute `i` on.
pub open spec fn bundle_attr(attrs: Seq<AttrV>, i: int) -> Option<AttrV>
    decreases attrs.len() - i,
{
    if i >= attrs.len() {
        None
    } else if attrs[i].path.len() > 0 && attrs[i].path.last() == "dataflow_bundle"@ {
        Some(attrs[i])
    } else {
        bundle_attr(attrs, i + 1)
    }
}

fn find_bundle_attr(attrs: &Vec<Attr>) -> (r: Option<&Attr>)
    ensures
        match r {
            Some(a) => bundle_attr(attrs.deep_view(), 0) == Some(a.deep_view()),
            None => bundle_attr(attrs.deep_view(), 0) is None,
        },
{
    let mut i: usize = 0;
    while i < attrs.len()
        invariant
            i <= attrs@.len(),
            bundle_attr(attrs.deep_view(), 0) == bundle_attr(attrs.deep_view(), i as int),
        decreases attrs@.len() - i,
    {
        let n = attrs[i].path.len();
        if n > 0 && same(attrs[i].path[n - 1].as_str(), "dataflow_bundle") {
            return Some(&attrs[i]);
        }
        i = i + 1;
    }
    None
}

/// The `#[dataflow]` functions directly in the module that ends where `depth` more modules have,
/// from item `i` on, behind `acc`.
pub open spec fn module_fns(
    items: Seq<SrcItemV>,
    i: int,
    depth: nat,
    acc: Seq<Seq<char>>,
) -> Seq<Seq<char>>
    decreases items.len() - i,
{
    if i >= items.len() {
        acc
    } else {
        match items[i] {
            SrcItemV::ModOpen(_) => module_fns(items, i + 1, depth + 1, acc),
            SrcItemV::ModClose => if depth == 0 {
                acc
            } else {
                module_fns(items, i + 1, (depth - 1) as nat, acc)
            },
            SrcItemV::Fn(f) => module_fns(
                items,
                i + 1,
                depth,
                if depth == 0 && marked(f.attrs) {
                    acc.push(f.name)
                } else {
                    acc
                },
            ),
            _ => module_fns(items, i + 1, depth, acc),
        }
    }
}

fn read_module_fns(items: &Vec<SrcItem>, from: usize) -> (r: Vec<String>)
    requires
        from <= items@.len(),
    ensures
        r.deep_view() == module_fns(items.deep_view(), from as int, 0, Seq::empty()),
{
    let ghost v = items.deep_view();
    let mut out: Vec<String> = Vec::new();
    assert(out.deep_view() == Seq::<Seq<char>>::empty());
    let mut depth: usize = 0;
    let mut i: usize = from;
    while i < items.len()
        invariant
            from <= i <= items@.len(),
            depth <= i - from,
            v == items.deep_view(),
            module_fns(v, from as int, 0, Seq::empty()) == module_fns(
                v,
                i as int,
                depth as nat,
                out.deep_view(),
            ),
        decreases items@.len() - i,
    {
        match &items[i] {
            SrcItem::ModOpen(_) => {
                depth = depth + 1;
            },
            SrcItem::ModClose => {
                if depth == 0 {
                    return out;
                }
                depth = depth - 1;
            },
            SrcItem::Fn(f) => {
                if depth == 0 && is_marked(&f.attrs) {
                    put(&mut out, f.name.clone());
                }
            },
            _ => {},
        }
        i = i + 1;
    }
    out
}

/// The bundle that opens at item `i`.
pub open spec fn bundle_at(items: Seq<SrcItemV>, module: Seq<char>, i: int) -> Option<BundleV> {
    match items[i] {
        SrcItemV::ModOpen(m) => match bundle_attr(m.attrs, 0) {
            Some(a) => Some(
                BundleV {
                    module,
                    mod_name: m.name,
                    name: match a.list {
                        Some(t) => if t.len() == 0 {
                            "BUNDLE"@
                        } else {
                            t
                        },
                        None => "BUNDLE"@,
                    },
                    fns: module_fns(items, i + 1, 0, Seq::empty()),
                },
            ),
            None => None,
        },
        _ => None,
    }
}

fn read_bundle(items: &Vec<SrcItem>, module: &String, i: usize) -> (r: Option<Bundle>)
    requires
        i < items@.len(),
    ensures
        r.deep_view() == bundle_at(items.deep_view(), module@, i as int),
{
    let size: usize = items.len();
    match &items[i] {
        SrcItem::ModOpen(m) => match find_bundle_attr(&m.attrs) {
            Some(a) => {
                let name = match &a.list {
                    Some(t) => if t.as_str().is_empty() {
                        text("BUNDLE")
                    } else {
                        t.clone()
                    },
                    None => text("BUNDLE"),
                };
                let fns = read_module_fns(items, i + 1);
                Some(Bundle { module: module.clone(), mod_name: m.name.clone(), name, fns })
            },
            None => None,
        },
        _ => None,
    }
}

/// The bundles among the items from `i` on, behind `acc`.
pub open spec fn item_bundles(
    items: Seq<SrcItemV>,
    module: Seq<char>,
    i: int,
    acc: Seq<BundleV>,
) -> Seq<BundleV>
    decreases items.len() - i,
{
    if i >= items.len() {
        acc
    } else {
        item_bundles(
            items,
            module,
            i + 1,
            match bundle_at(items, module, i) {
                Some(b) => acc.push(b),
                None => acc,
            },
        )
    }
}

/// Appends the bundles among the items of a file at `origin` to `out`.
pub fn bundle_items(items: &Vec<SrcItem>, origin: &str, out: &mut Vec<Bundle>)
    ensures
        final(out).deep_view() == item_bundles(
            items.deep_view(),
            module_name(origin@),
            0,
            old(out).deep_view(),
        ),
{
    let module = module_of(origin);
    let ghost v = items.deep_view();
    let ghost start = out.deep_view();
    let mut i: usize = 0;
    while i < items.len()
        invariant
            i <= items@.len(),
            v == items.deep_view(),
            item_bundles(v, module@, 0, start) == item_bundles(v, module@, i as int, out.deep_view()),
        decreases items@.len() - i,
    {
        if let Some(b) = read_bundle(items, &module, i) {
            put(out, b);
        }
        i = i + 1;
    }
}

/// The bundles of a source file, behind `acc`.
pub open spec fn source_bundles(src: Seq<char>, origin: Seq<char>, acc: Seq<BundleV>) -> Seq<BundleV> {
    match source_items(src) {
        Some(items) => item_bundles(items, module_name(origin), 0, acc),
        None => acc,
    }
}

/// Scans Rust source for `#[dataflow_bundle]` modules and appends them to `out`.
pub fn scan_bundles(src: &str, origin: &str, out: &mut Vec<Bundle>)
    ensures
        final(out).deep_view() == source_bundles(src@, origin@, old(out).deep_view()),
{
    if let Some(items) = parse_items_of(src) {
        bundle_items(&items, origin, out);
    }
}

} // verus!
