//! Which source files a tool reads, and what it finds in them.

use vstd::prelude::*;
use vstd::string::*;

use crate::discover::{
    discoveries, file_name, is_root_stem, root_stem, scan_bundles, scan_fns, scan_gate_statics,
    scan_source, source_bundles, source_fns, source_gates, stem, stem_of, Bundle, BundleV,
    Discovered, DiscoveredV, GateStatic, GateStaticV, names_of_path, path_names,
};
use crate::find::{decls_of, error_text, parse_source, Decl, DeclV};
use crate::label::{add_some, with_some};
use crate::json::{json_read, member, parse_json, Json, JsonV};
use crate::list::{put, Dup};
use crate::order::{comes_before, precedes};
use crate::rust::{Attr, AttrV};
use crate::scan::{append, parse_items_of, source_items, SrcItem, SrcItemV, SrcMod, SrcModV};
use crate::text::{
    cat2, cat3, cat4, chars_of, decimal, decimal_usize, ends_with, has_prefix, has_suffix, same, starts_with,
    text,
};

verus! {

/// Input file lists for a tool run.
#[derive(Debug)]
pub struct Sources {
    /// Files that may contain graph declarations.
    pub graph: Vec<String>,
    /// Files scanned only for `#[dataflow]` accesses, not declarations.
    pub scan_only: Vec<String>,
}

/// What a [`Sources`] means.
pub struct SourcesV {
    pub graph: Seq<Seq<char>>,
    pub scan_only: Seq<Seq<char>>,
}

impl DeepView for Sources {
    type V = SourcesV;

    open spec fn deep_view(&self) -> SourcesV {
        SourcesV {
            graph: self.graph.deep_view(),
            scan_only: self.scan_only.deep_view(),
        }
    }
}

impl Dup for Sources {
    fn dup(&self) -> (r: Self) {
        Sources {
            graph: self.graph.dup(),
            scan_only: self.scan_only.dup(),
        }
    }
}

/// The result of scanning a set of input sources.
#[derive(Debug)]
pub struct Scan {
    /// Graph declarations.
    pub decls: Vec<Decl>,
    /// Discovered `#[dataflow]` accesses in graph sources and dependencies.
    pub scanned_accesses: Vec<Discovered>,
    /// Module and name of the `#[dataflow]` functions in graph sources.
    pub fns: Vec<(String, String)>,
    /// Module and name of the `#[dataflow]` functions in dependency sources.
    pub dep_fns: Vec<(String, String)>,
    /// Discovered `#[dataflow_bundle]` modules.
    pub bundles: Vec<Bundle>,
    /// Statics wrapped in a supervisor gate.
    pub gate_statics: Vec<GateStatic>,
}

/// What a [`Scan`] means.
pub struct ScanV {
    pub decls: Seq<DeclV>,
    pub scanned_accesses: Seq<DiscoveredV>,
    pub fns: Seq<(Seq<char>, Seq<char>)>,
    pub dep_fns: Seq<(Seq<char>, Seq<char>)>,
    pub bundles: Seq<BundleV>,
    pub gate_statics: Seq<GateStaticV>,
}

impl DeepView for Scan {
    type V = ScanV;

    open spec fn deep_view(&self) -> ScanV {
        ScanV {
            decls: self.decls.deep_view(),
            scanned_accesses: self.scanned_accesses.deep_view(),
            fns: self.fns.deep_view(),
            dep_fns: self.dep_fns.deep_view(),
            bundles: self.bundles.deep_view(),
            gate_statics: self.gate_statics.deep_view(),
        }
    }
}

impl Dup for Scan {
    fn dup(&self) -> (r: Self) {
        Scan {
            decls: self.decls.dup(),
            scanned_accesses: self.scanned_accesses.dup(),
            fns: self.fns.dup(),
            dep_fns: self.dep_fns.dup(),
            bundles: self.bundles.dup(),
            gate_statics: self.gate_statics.dup(),
        }
    }
}

/// Nothing scanned.
pub open spec fn no_scan() -> ScanV {
    ScanV {
        decls: Seq::empty(),
        scanned_accesses: Seq::empty(),
        fns: Seq::empty(),
        dep_fns: Seq::empty(),
        bundles: Seq::empty(),
        gate_statics: Seq::empty(),
    }
}

impl Default for Scan {
    fn default() -> (r: Self)
        ensures
            r.deep_view() == no_scan(),
    {
        let r = Scan {
            decls: Vec::new(),
            scanned_accesses: Vec::new(),
            fns: Vec::new(),
            dep_fns: Vec::new(),
            bundles: Vec::new(),
            gate_statics: Vec::new(),
        };
        assert(r.decls.deep_view() == Seq::<DeclV>::empty());
        assert(r.scanned_accesses.deep_view() == Seq::<DiscoveredV>::empty());
        assert(r.fns.deep_view() == Seq::<(Seq<char>, Seq<char>)>::empty());
        assert(r.dep_fns.deep_view() == Seq::<(Seq<char>, Seq<char>)>::empty());
        assert(r.bundles.deep_view() == Seq::<BundleV>::empty());
        assert(r.gate_statics.deep_view() == Seq::<GateStaticV>::empty());
        r
    }
}

/// What is known once a file is scanned, given the declarations in it.
pub open spec fn scanned(
    s: ScanV,
    file: Seq<char>,
    src: Seq<char>,
    graph: bool,
    decls: Seq<DeclV>,
) -> ScanV {
    ScanV {
        decls: s.decls + decls,
        scanned_accesses: s.scanned_accesses + discoveries(src, file),
        fns: if graph {
            source_fns(src, file, s.fns)
        } else {
            s.fns
        },
        dep_fns: if graph {
            s.dep_fns
        } else {
            source_fns(src, file, s.dep_fns)
        },
        bundles: source_bundles(src, file, s.bundles),
        gate_statics: source_gates(src, file, s.gate_statics),
    }
}

impl Scan {
    /// Scans the text of one file; only a graph source is read for declarations.
    pub fn add_file(&mut self, file: &str, src: &str, graph: bool) -> (r: Result<(), String>)
        ensures
            match r {
                Ok(()) => if graph {
                    decls_of(src@, file@) is Ok && final(self).deep_view() == scanned(
                        old(self).deep_view(),
                        file@,
                        src@,
                        graph,
                        decls_of(src@, file@)->Ok_0,
                    )
                } else {
                    final(self).deep_view() == scanned(
                        old(self).deep_view(),
                        file@,
                        src@,
                        graph,
                        Seq::empty(),
                    )
                },
                Err(e) => graph && decls_of(src@, file@) is Err && e@ == error_text(
                    decls_of(src@, file@)->Err_0,
                ) && final(self).deep_view() == old(self).deep_view(),
            },
    {
        let ghost before = self.deep_view();
        if graph {
            match parse_source(src, file) {
                Ok(found) => {
                    append(&mut self.decls, &found);
                },
                Err(e) => {
                    return Err(e.to_text());
                },
            }
        } else {
            assert(before.decls + Seq::<DeclV>::empty() == before.decls);
        }
        scan_source(src, file, &mut self.scanned_accesses);
        if graph {
            scan_fns(src, file, &mut self.fns);
        } else {
            scan_fns(src, file, &mut self.dep_fns);
        }
        scan_bundles(src, file, &mut self.bundles);
        scan_gate_statics(src, file, &mut self.gate_statics);
        Ok(())
    }
}

/// What a path names.
#[derive(Clone, Copy, Debug, PartialEq, Eq, Structural)]
pub enum PathKind {
    /// A directory.
    Dir,
    /// A file.
    File,
    /// Nothing.
    Missing,
}

/// A path on the way, or in a directory.
#[derive(Debug)]
pub struct Entry {
    /// The path.
    pub path: String,
    /// Its last name.
    pub name: String,
    /// It is a directory.
    pub dir: bool,
    /// It is a symbolic link.
    pub link: bool,
}

/// What a [`Entry`] means.
pub struct EntryV {
    pub path: Seq<char>,
    pub name: Seq<char>,
    pub dir: bool,
    pub link: bool,
}

impl DeepView for Entry {
    type V = EntryV;

    open spec fn deep_view(&self) -> EntryV {
        EntryV {
            path: self.path.deep_view(),
            name: self.name.deep_view(),
            dir: self.dir.deep_view(),
            link: self.link.deep_view(),
        }
    }
}

impl Dup for Entry {
    fn dup(&self) -> (r: Self) {
        Entry {
            path: self.path.dup(),
            name: self.name.dup(),
            dir: self.dir.dup(),
            link: self.link.dup(),
        }
    }
}

/// A walk through input paths.
#[derive(Debug)]
pub struct Walk {
    /// The paths to come, in order.
    pub pending: Vec<Entry>,
    /// The source files found, in order.
    pub found: Vec<String>,
}

/// What a [`Walk`] means.
pub struct WalkV {
    pub pending: Seq<EntryV>,
    pub found: Seq<Seq<char>>,
}

impl DeepView for Walk {
    type V = WalkV;

    open spec fn deep_view(&self) -> WalkV {
        WalkV {
            pending: self.pending.deep_view(),
            found: self.found.deep_view(),
        }
    }
}

impl Dup for Walk {
    fn dup(&self) -> (r: Self) {
        Walk {
            pending: self.pending.dup(),
            found: self.found.dup(),
        }
    }
}

/// The paths that a walk starts from, from number `i` on, behind `acc`: standard input and files as
/// they are; or the complaint on the first path that names nothing.
pub open spec fn starts_from(
    args: Seq<Seq<char>>,
    kinds: Seq<PathKind>,
    i: int,
    acc: Seq<EntryV>,
) -> Result<
    Seq<EntryV>,
    Seq<char>,
>
    decreases args.len() - i,
{
    if i < 0 || i >= args.len() {
        Ok(acc)
    } else if args[i] != "-"@ && kinds[i] == PathKind::Missing {
        Err(args[i] + ": no such file or directory"@)
    } else {
        starts_from(
            args,
            kinds,
            i + 1,
            acc.push(
                EntryV {
                    path: args[i],
                    name: args[i],
                    dir: args[i] != "-"@ && kinds[i] == PathKind::Dir,
                    link: false,
                },
            ),
        )
    }
}

/// Starts the walk through command-line paths, given what each of them names. Directories are
/// walked recursively; `-` stands for standard input.
pub fn collect_inputs(args: &Vec<String>, kinds: &Vec<PathKind>) -> (r: Result<Walk, String>)
    requires
        args@.len() == kinds@.len(),
    ensures
        match r {
            Ok(w) => starts_from(args.deep_view(), kinds@, 0, Seq::empty()) == Ok::<Seq<EntryV>, Seq<char>>(
                w.deep_view().pending,
            ) && w.deep_view().found == Seq::<Seq<char>>::empty(),
            Err(e) => starts_from(args.deep_view(), kinds@, 0, Seq::empty()) == Err::<Seq<EntryV>, Seq<char>>(
                e@,
            ),
        },
{
    let ghost av = args.deep_view();
    let ghost whole = starts_from(av, kinds@, 0, Seq::empty());
    let mut pending: Vec<Entry> = Vec::new();
    assert(pending.deep_view() == Seq::<EntryV>::empty());
    let mut i: usize = 0;
    while i < args.len()
        invariant
            i <= args@.len() == kinds@.len(),
            av == args.deep_view(),
            whole == starts_from(av, kinds@, 0, Seq::empty()),
            whole == starts_from(av, kinds@, i as int, pending.deep_view()),
        decreases args@.len() - i,
    {
        let arg = args[i].as_str();
        assert(arg@ == av[i as int]);
        let stdin = same(arg, "-");
        let missing = match kinds[i] {
            PathKind::Missing => true,
            _ => false,
        };
        if !stdin && missing {
            return Err(cat2(arg, ": no such file or directory"));
        }
        let dir = match kinds[i] {
            PathKind::Dir => !stdin,
            _ => false,
        };
        put(&mut pending, Entry { path: args[i].dup(), name: args[i].dup(), dir, link: false });
        i = i + 1;
    }
    let found: Vec<String> = Vec::new();
    assert(found.deep_view() == Seq::<Seq<char>>::empty());
    Ok(Walk { pending, found })
}

/// A walk goes into the entry of a directory, or takes it: no `target`, no hidden directory and no
/// symbolic link, be it to a directory or to a file; of files those of Rust source.
pub open spec fn admits(e: EntryV) -> bool {
    !e.link && if e.dir {
        e.name != "target"@ && !starts_with(e.name, "."@)
    } else {
        ends_with(e.name, ".rs"@)
    }
}

fn does_admit(e: &Entry) -> (r: bool)
    ensures
        r == admits(e.deep_view()),
{
    if e.link {
        false
    } else if e.dir {
        !same(e.name.as_str(), "target") && !has_prefix(e.name.as_str(), ".")
    } else {
        has_suffix(e.name.as_str(), ".rs")
    }
}

/// The first entry from number `i` on whose path does not come before `path`.
pub open spec fn entry_slot(list: Seq<EntryV>, path: Seq<char>, i: int) -> int
    decreases list.len() - i,
{
    if i < 0 || i >= list.len() || !precedes(list[i].path, path) {
        i
    } else {
        entry_slot(list, path, i + 1)
    }
}

/// The admitted entries from number `i` on, placed by their paths into the ordered `acc`.
pub open spec fn admitted_from(entries: Seq<EntryV>, i: int, acc: Seq<EntryV>) -> Seq<EntryV>
    decreases entries.len() - i,
{
    if i < 0 || i >= entries.len() {
        acc
    } else {
        admitted_from(
            entries,
            i + 1,
            if admits(entries[i]) {
                acc.insert(entry_slot(acc, entries[i].path, 0), entries[i])
            } else {
                acc
            },
        )
    }
}

fn place_entry(list: &mut Vec<Entry>, e: Entry)
    ensures
        final(list).deep_view() == old(list).deep_view().insert(
            entry_slot(old(list).deep_view(), e.path@, 0),
            e.deep_view(),
        ),
{
    let ghost l = list.deep_view();
    let mut i: usize = 0;
    while i < list.len() && comes_before(list[i].path.as_str(), e.path.as_str())
        invariant
            i <= list@.len(),
            list@ == old(list)@,
            l == list.deep_view(),
            entry_slot(l, e.path@, 0) == entry_slot(l, e.path@, i as int),
        decreases list@.len() - i,
    {
        i = i + 1;
    }
    list.insert(i, e);
    assert(list.deep_view() == l.insert(i as int, e.deep_view()));
}

fn read_admitted(entries: &Vec<Entry>) -> (r: Vec<Entry>)
    ensures
        r.deep_view() == admitted_from(entries.deep_view(), 0, Seq::empty()),
{
    let ghost es = entries.deep_view();
    let mut out: Vec<Entry> = Vec::new();
    assert(out.deep_view() == Seq::<EntryV>::empty());
    let mut i: usize = 0;
    while i < entries.len()
        invariant
            i <= entries@.len(),
            es == entries.deep_view(),
            admitted_from(es, 0, Seq::empty()) == admitted_from(es, i as int, out.deep_view()),
        decreases entries@.len() - i,
    {
        assert(es[i as int] == entries@[i as int].deep_view());
        if does_admit(&entries[i]) {
            place_entry(&mut out, entries[i].dup());
        }
        i = i + 1;
    }
    out
}

/// The paths of the files in front of the next directory from number `i` on, behind `acc`.
pub open spec fn files_from(pending: Seq<EntryV>, i: int, acc: Seq<Seq<char>>) -> Seq<Seq<char>>
    decreases pending.len() - i,
{
    if i < 0 || i >= pending.len() || pending[i].dir {
        acc
    } else {
        files_from(pending, i + 1, acc.push(pending[i].path))
    }
}

/// The place of the next directory from number `i` on; the end where there is none.
pub open spec fn next_dir(pending: Seq<EntryV>, i: int) -> int
    decreases pending.len() - i,
{
    if i < 0 || i >= pending.len() || pending[i].dir {
        i
    } else {
        next_dir(pending, i + 1)
    }
}

/// A walk that has taken every file in front of the next directory, and that directory.
pub open spec fn advanced(w: WalkV) -> WalkV {
    let at = next_dir(w.pending, 0);
    WalkV {
        pending: if at < w.pending.len() {
            w.pending.skip(at + 1)
        } else {
            Seq::empty()
        },
        found: files_from(w.pending, 0, w.found),
    }
}

fn copy_entries(list: &Vec<Entry>, from: usize, out: &mut Vec<Entry>)
    requires
        from <= list@.len(),
    ensures
        final(out).deep_view() == old(out).deep_view() + list.deep_view().skip(from as int),
{
    let ghost all = list.deep_view().skip(from as int);
    let ghost start = out.deep_view();
    let mut i: usize = from;
    assert(start + all.take(0) == start);
    while i < list.len()
        invariant
            from <= i <= list@.len(),
            all == list.deep_view().skip(from as int),
            out.deep_view() == start + all.take(i - from),
        decreases list@.len() - i,
    {
        put(out, list[i].dup());
        i = i + 1;
        assert(out.deep_view() == start + all.take(i - from));
    }
    assert(all.take(all.len() as int) == all);
}

impl Walk {
    /// Takes the files up to the next directory and gives that directory, to be read; nothing where
    /// the walk is over.
    pub fn step(&mut self) -> (r: Option<String>)
        ensures
            final(self).deep_view() == advanced(old(self).deep_view()),
            r.deep_view() == ({
                let w = old(self).deep_view();
                let at = next_dir(w.pending, 0);
                if at < w.pending.len() {
                    Some(w.pending[at].path)
                } else {
                    None
                }
            }),
    {
        let ghost p = self.pending.deep_view();
        let ghost f = self.found.deep_view();
        let mut found = self.found.dup();
        let mut i: usize = 0;
        while i < self.pending.len() && !self.pending[i].dir
            invariant
                i <= self.pending@.len(),
                p == self.pending.deep_view(),
                files_from(p, 0, f) == files_from(p, i as int, found.deep_view()),
                next_dir(p, 0) == next_dir(p, i as int),
            decreases self.pending@.len() - i,
        {
            put(&mut found, self.pending[i].path.dup());
            i = i + 1;
        }
        let mut rest: Vec<Entry> = Vec::new();
        assert(rest.deep_view() == Seq::<EntryV>::empty());
        if i < self.pending.len() {
            let dir = self.pending[i].path.dup();
            assert(p[i as int] == self.pending@[i as int].deep_view());
            copy_entries(&self.pending, i + 1, &mut rest);
            assert(rest.deep_view() == p.skip(i + 1));
            self.pending = rest;
            self.found = found;
            return Some(dir);
        }
        self.pending = rest;
        self.found = found;
        None
    }

    /// Goes on with the entries of the directory that was given last, in the order of their paths.
    pub fn enter(&mut self, entries: &Vec<Entry>)
        ensures
            final(self).deep_view() == (WalkV {
                pending: admitted_from(entries.deep_view(), 0, Seq::empty()) + old(self).deep_view().pending,
                found: old(self).deep_view().found,
            }),
    {
        let mut next = read_admitted(entries);
        let ghost p = self.pending.deep_view();
        copy_entries(&self.pending, 0, &mut next);
        assert(p.skip(0) == p);
        self.pending = next;
    }
}

/// A walk never goes into `target`, a hidden directory or a symbolic link that it meets, nor takes
/// a file that is not Rust source.
pub proof fn a_walk_meets_only_what_it_admits(entries: Seq<EntryV>, i: int, acc: Seq<EntryV>, k: int)
    requires
        0 <= i <= entries.len(),
        forall|j: int| 0 <= j < acc.len() ==> admits(#[trigger] acc[j]),
        0 <= k < admitted_from(entries, i, acc).len(),
    ensures
        admits(admitted_from(entries, i, acc)[k]),
    decreases entries.len() - i,
{
    if i < entries.len() {
        if admits(entries[i]) {
            lemma_entry_slot(acc, entries[i].path, 0);
            let at = entry_slot(acc, entries[i].path, 0);
            let next = acc.insert(at, entries[i]);
            assert forall|j: int| 0 <= j < next.len() implies admits(#[trigger] next[j]) by {
                if j < at {
                    assert(next[j] == acc[j]);
                } else if j > at {
                    assert(next[j] == acc[j - 1]);
                }
            }
            a_walk_meets_only_what_it_admits(entries, i + 1, next, k);
        } else {
            a_walk_meets_only_what_it_admits(entries, i + 1, acc, k);
        }
    }
}

pub(crate) proof fn lemma_entry_slot(list: Seq<EntryV>, path: Seq<char>, i: int)
    requires
        0 <= i <= list.len(),
    ensures
        i <= entry_slot(list, path, i) <= list.len(),
    decreases list.len() - i,
{
    if i < list.len() && precedes(list[i].path, path) {
        lemma_entry_slot(list, path, i + 1);
    }
}

/// A path of the list before number `i` names the same file.
pub open spec fn seen_before(paths: Seq<(Seq<char>, Seq<char>)>, i: int) -> bool {
    exists|j: int| 0 <= j < i && (#[trigger] paths[j]).1 == paths[i].1
}

/// The paths from number `i` on that name a file not named before, behind `acc`.
pub open spec fn distinct_from(
    paths: Seq<(Seq<char>, Seq<char>)>,
    i: int,
    acc: Seq<Seq<char>>,
) -> Seq<Seq<char>>
    decreases paths.len() - i,
{
    if i < 0 || i >= paths.len() {
        acc
    } else {
        distinct_from(
            paths,
            i + 1,
            if seen_before(paths, i) {
                acc
            } else {
                acc.push(paths[i].0)
            },
        )
    }
}

fn is_seen_before(paths: &Vec<(String, String)>, i: usize) -> (r: bool)
    requires
        i < paths@.len(),
    ensures
        r == seen_before(paths.deep_view(), i as int),
{
    let ghost ps = paths.deep_view();
    let mut j: usize = 0;
    while j < i
        invariant
            j <= i < paths@.len(),
            ps == paths.deep_view(),
            forall|k: int| 0 <= k < j ==> (#[trigger] ps[k]).1 != ps[i as int].1,
        decreases i - j,
    {
        assert(ps[j as int].1 == paths@[j as int].1@);
        assert(ps[i as int].1 == paths@[i as int].1@);
        if same(paths[j].1.as_str(), paths[i].1.as_str()) {
            return true;
        }
        j = j + 1;
    }
    false
}

/// Keeps each file once, under the path that named it first; a path comes with the canonical one
/// of its file.
pub fn dedup(paths: &Vec<(String, String)>) -> (r: Vec<String>)
    ensures
        r.deep_view() == distinct_from(paths.deep_view(), 0, Seq::empty()),
{
    let ghost ps = paths.deep_view();
    let mut out: Vec<String> = Vec::new();
    assert(out.deep_view() == Seq::<Seq<char>>::empty());
    let mut i: usize = 0;
    while i < paths.len()
        invariant
            i <= paths@.len(),
            ps == paths.deep_view(),
            distinct_from(ps, 0, Seq::empty()) == distinct_from(ps, i as int, out.deep_view()),
        decreases paths@.len() - i,
    {
        if !is_seen_before(paths, i) {
            put(&mut out, paths[i].0.dup());
        }
        i = i + 1;
    }
    out
}

/// An attribute that gives a module its file.
pub open spec fn is_path_attr(a: AttrV) -> bool {
    a.value is Some && a.path == seq!["path"@]
}

fn names_path(a: &Attr) -> (r: bool)
    ensures
        r == is_path_attr(a.deep_view()),
{
    let hit = a.value.is_some() && a.path.len() == 1 && same(a.path[0].as_str(), "path");
    proof {
        if a.path@.len() == 1 && a.path@[0]@ == "path"@ {
            assert(a.path.deep_view() == seq!["path"@]);
        }
        if a.deep_view().path == seq!["path"@] {
            assert(a.path.deep_view().len() == 1);
            assert(a.path.deep_view()[0] == "path"@);
        }
    }
    hit
}

/// The file that attributes from number `i` on give a module.
pub open spec fn explicit_path(attrs: Seq<AttrV>, i: int) -> Option<Seq<char>>
    decreases attrs.len() - i,
{
    if i < 0 || i >= attrs.len() {
        None
    } else if is_path_attr(attrs[i]) {
        attrs[i].value
    } else {
        explicit_path(attrs, i + 1)
    }
}

fn find_explicit_path(attrs: &Vec<Attr>) -> (r: Option<String>)
    ensures
        r.deep_view() == explicit_path(attrs.deep_view(), 0),
{
    let ghost a = attrs.deep_view();
    let mut i: usize = 0;
    while i < attrs.len()
        invariant
            i <= attrs@.len(),
            a == attrs.deep_view(),
            explicit_path(a, 0) == explicit_path(a, i as int),
        decreases attrs@.len() - i,
    {
        if names_path(&attrs[i]) {
            assert(a[i as int] == attrs@[i as int].deep_view());
            return attrs[i].value.dup();
        }
        i = i + 1;
    }
    None
}

/// The directory of the modules of a file, from the directory it is in: none further for a crate
/// root or a `mod.rs`, else one of its own name.
pub open spec fn module_base(own: Seq<char>) -> Seq<Seq<char>> {
    if root_stem(own) {
        Seq::empty()
    } else {
        seq![own]
    }
}

/// Where the file of a module may be, from the directory of the file that declares it.
pub open spec fn module_paths(m: SrcModV, own: Seq<char>) -> Seq<Seq<Seq<char>>> {
    match explicit_path(m.attrs, 0) {
        Some(p) => seq![seq![p]],
        None => seq![
            module_base(own).push(m.name + ".rs"@),
            module_base(own).push(m.name).push("mod.rs"@),
        ],
    }
}

fn make_module_paths(m: &SrcMod, own: &String) -> (r: Vec<Vec<String>>)
    ensures
        r.deep_view() == module_paths(m.deep_view(), own@),
{
    let mut out: Vec<Vec<String>> = Vec::new();
    assert(out.deep_view() == Seq::<Seq<Seq<char>>>::empty());
    match find_explicit_path(&m.attrs) {
        Some(p) => {
            let mut one: Vec<String> = Vec::new();
            assert(one.deep_view() == Seq::<Seq<char>>::empty());
            put(&mut one, p);
            assert(one.deep_view() == seq![p@]);
            put(&mut out, one);
            assert(out.deep_view() == module_paths(m.deep_view(), own@));
        },
        None => {
            let mut base: Vec<String> = Vec::new();
            assert(base.deep_view() == Seq::<Seq<char>>::empty());
            if !is_root_stem(own.as_str()) {
                put(&mut base, own.dup());
            }
            assert(base.deep_view() == module_base(own@));
            let mut plain = base.dup();
            put(&mut plain, cat2(m.name.as_str(), ".rs"));
            put(&mut base, m.name.dup());
            put(&mut base, text("mod.rs"));
            put(&mut out, plain);
            put(&mut out, base);
            assert(out.deep_view() == module_paths(m.deep_view(), own@));
        },
    }
    out
}

/// The places of the file modules that items from number `i` on declare at the top level, behind
/// `acc`, given how many inline modules are open there.
pub open spec fn modules_from(
    items: Seq<SrcItemV>,
    own: Seq<char>,
    i: int,
    depth: nat,
    acc: Seq<Seq<Seq<Seq<char>>>>,
) -> Seq<Seq<Seq<Seq<char>>>>
    decreases items.len() - i,
{
    if i < 0 || i >= items.len() {
        acc
    } else {
        match items[i] {
            SrcItemV::ModOpen(_) => modules_from(items, own, i + 1, depth + 1, acc),
            SrcItemV::ModClose => modules_from(
                items,
                own,
                i + 1,
                if depth > 0 {
                    (depth - 1) as nat
                } else {
                    0
                },
                acc,
            ),
            SrcItemV::ModFile(m) => modules_from(
                items,
                own,
                i + 1,
                depth,
                if depth == 0 {
                    acc.push(module_paths(m, own))
                } else {
                    acc
                },
            ),
            _ => modules_from(items, own, i + 1, depth, acc),
        }
    }
}

/// The name of a file without its extension, or nothing.
pub open spec fn own_stem(path: Seq<char>) -> Seq<char> {
    match file_name(path) {
        Some(n) => stem(n),
        None => ""@,
    }
}

/// Where the file modules that items declare may be.
pub fn modules_of(items: &Vec<SrcItem>, own: &String) -> (r: Vec<Vec<Vec<String>>>)
    ensures
        r.deep_view() == modules_from(items.deep_view(), own@, 0, 0, Seq::empty()),
{
    let ghost is = items.deep_view();
    let mut out: Vec<Vec<Vec<String>>> = Vec::new();
    assert(out.deep_view() == Seq::<Seq<Seq<Seq<char>>>>::empty());
    let size: usize = items.len();
    let mut depth: usize = 0;
    let mut i: usize = 0;
    while i < size
        invariant
            depth <= i <= size == items@.len(),
            is == items.deep_view(),
            modules_from(is, own@, 0, 0, Seq::empty()) == modules_from(
                is,
                own@,
                i as int,
                depth as nat,
                out.deep_view(),
            ),
        decreases size - i,
    {
        assert(is[i as int] == items@[i as int].deep_view());
        match &items[i] {
            SrcItem::ModOpen(_) => {
                depth = depth + 1;
            },
            SrcItem::ModClose => {
                if depth > 0 {
                    depth = depth - 1;
                }
            },
            SrcItem::ModFile(m) => {
                if depth == 0 {
                    put(&mut out, make_module_paths(m, own));
                }
            },
            _ => {},
        }
        i = i + 1;
    }
    out
}

/// Where the file modules of a source may be: for each `mod name;` the places to look, in order,
/// each as names from the directory of the file. A source that is not Rust has none.
pub fn module_files(src: &str, file: &str) -> (r: Vec<Vec<Vec<String>>>)
    ensures
        r.deep_view() == (match source_items(src@) {
            Some(items) => modules_from(items, own_stem(file@), 0, 0, Seq::empty()),
            None => Seq::empty(),
        }),
{
    match parse_items_of(src) {
        Some(items) => {
            let own = stem_of_path(file);
            modules_of(&items, &own)
        },
        None => {
            let none: Vec<Vec<Vec<String>>> = Vec::new();
            assert(none.deep_view() == Seq::<Seq<Seq<Seq<char>>>>::empty());
            none
        },
    }
}

fn stem_of_path(path: &str) -> (r: String)
    ensures
        r@ == own_stem(path@),
{
    let names = names_of_path(path);
    let size: usize = names.len();
    assert(names.deep_view().len() == names@.len());
    if size > 0 {
        let last = &names[size - 1];
        assert(names.deep_view().last() == last@);
        if !same(last.as_str(), "..") {
            return stem_of(last.as_str());
        }
    }
    text("")
}

/// A `/`-separated path starts at the root.
pub open spec fn is_rooted(path: Seq<char>) -> bool {
    starts_with(path, "/"@)
}

/// A path starts with the current directory, written out.
pub open spec fn is_dotted(path: Seq<char>) -> bool {
    path == "."@ || starts_with(path, "./"@)
}

/// Two paths are equal as paths: they start alike, and the names along them are the same. Empty
/// pieces, and any `.` but a first one, do not count.
pub open spec fn same_place(a: Seq<char>, b: Seq<char>) -> bool {
    &&& is_rooted(a) == is_rooted(b)
    &&& is_dotted(a) == is_dotted(b)
    &&& path_names(a) == path_names(b)
}

fn same_names(a: &Vec<String>, b: &Vec<String>) -> (r: bool)
    ensures
        r == (a.deep_view() == b.deep_view()),
{
    let ghost x = a.deep_view();
    let ghost y = b.deep_view();
    assert(x.len() == a@.len() && y.len() == b@.len());
    if a.len() != b.len() {
        return false;
    }
    let mut i: usize = 0;
    while i < a.len()
        invariant
            i <= a@.len() == b@.len(),
            x == a.deep_view(),
            y == b.deep_view(),
            forall|k: int| 0 <= k < i ==> #[trigger] x[k] == y[k],
        decreases a@.len() - i,
    {
        if !same(a[i].as_str(), b[i].as_str()) {
            assert(x[i as int] != y[i as int]);
            return false;
        }
        i = i + 1;
    }
    assert(x == y);
    true
}

fn is_same_place(a: &str, b: &str) -> (r: bool)
    ensures
        r == same_place(a@, b@),
{
    has_prefix(a, "/") == has_prefix(b, "/") && (same(a, ".") || has_prefix(a, "./")) == (same(b, ".")
        || has_prefix(b, "./")) && same_names(&names_of_path(a), &names_of_path(b))
}

/// One of the known files is this place.
pub open spec fn is_known(known: Seq<Seq<char>>, place: Seq<char>) -> bool {
    exists|k: int| 0 <= k < known.len() && same_place(#[trigger] known[k], place)
}

fn knows(known: &Vec<String>, place: &str) -> (r: bool)
    ensures
        r == is_known(known.deep_view(), place@),
{
    let ghost ks = known.deep_view();
    let mut i: usize = 0;
    while i < known.len()
        invariant
            i <= known@.len(),
            ks == known.deep_view(),
            forall|k: int| 0 <= k < i ==> !same_place(#[trigger] ks[k], place@),
        decreases known@.len() - i,
    {
        if is_same_place(known[i].as_str(), place) {
            assert(same_place(ks[i as int], place@));
            return true;
        }
        i = i + 1;
    }
    false
}

/// The first place from number `i` on that is a file and not known yet.
pub open spec fn fresh_file(
    cands: Seq<Seq<char>>,
    is_file: Seq<bool>,
    known: Seq<Seq<char>>,
    i: int,
) -> Option<
    usize,
>
    decreases cands.len() - i,
{
    if i < 0 || i >= cands.len() {
        None
    } else if is_file[i] && !is_known(known, cands[i]) {
        Some(i as usize)
    } else {
        fresh_file(cands, is_file, known, i + 1)
    }
}

/// Which of the places of a module is its file, if it is not known yet.
pub fn pick_file(cands: &Vec<String>, is_file: &Vec<bool>, known: &Vec<String>) -> (r: Option<usize>)
    requires
        cands@.len() == is_file@.len(),
    ensures
        r == fresh_file(cands.deep_view(), is_file@, known.deep_view(), 0),
{
    let ghost cs = cands.deep_view();
    let ghost ks = known.deep_view();
    let mut i: usize = 0;
    while i < cands.len()
        invariant
            i <= cands@.len() == is_file@.len(),
            cs == cands.deep_view(),
            ks == known.deep_view(),
            fresh_file(cs, is_file@, ks, 0) == fresh_file(cs, is_file@, ks, i as int),
        decreases cands@.len() - i,
    {
        if is_file[i] && !knows(known, cands[i].as_str()) {
            return Some(i);
        }
        i = i + 1;
    }
    None
}

/// A walk through the file modules of source files.
#[derive(Debug)]
pub struct ModuleWalk {
    /// The modules to come, in order: for each the places where its file may be.
    pub pending: Vec<Vec<String>>,
    /// The files found, in order.
    pub found: Vec<String>,
}

/// What a [`ModuleWalk`] means.
pub struct ModuleWalkV {
    pub pending: Seq<Seq<Seq<char>>>,
    pub found: Seq<Seq<char>>,
}

impl DeepView for ModuleWalk {
    type V = ModuleWalkV;

    open spec fn deep_view(&self) -> ModuleWalkV {
        ModuleWalkV { pending: self.pending.deep_view(), found: self.found.deep_view() }
    }
}

impl Default for ModuleWalk {
    fn default() -> (r: Self)
        ensures
            r.deep_view() == (ModuleWalkV { pending: Seq::empty(), found: Seq::empty() }),
    {
        let r = ModuleWalk { pending: Vec::new(), found: Vec::new() };
        assert(r.pending.deep_view() == Seq::<Seq<Seq<char>>>::empty());
        assert(r.found.deep_view() == Seq::<Seq<char>>::empty());
        r
    }
}

fn copy_modules(list: &Vec<Vec<String>>, from: usize, out: &mut Vec<Vec<String>>)
    requires
        from <= list@.len(),
    ensures
        final(out).deep_view() == old(out).deep_view() + list.deep_view().skip(from as int),
{
    let ghost all = list.deep_view().skip(from as int);
    let ghost start = out.deep_view();
    let mut i: usize = from;
    assert(start + all.take(0) == start);
    while i < list.len()
        invariant
            from <= i <= list@.len(),
            all == list.deep_view().skip(from as int),
            out.deep_view() == start + all.take(i - from),
        decreases list@.len() - i,
    {
        put(out, list[i].dup());
        i = i + 1;
        assert(out.deep_view() == start + all.take(i - from));
    }
    assert(all.take(all.len() as int) == all);
}

/// A walk that has settled a module: its file found, where a place has one that is not known yet.
pub open spec fn settled(w: ModuleWalkV, places: Seq<Seq<char>>, is_file: Seq<bool>) -> ModuleWalkV {
    match fresh_file(places, is_file, w.found, 0) {
        Some(i) => ModuleWalkV { found: w.found.push(places[i as int]), ..w },
        None => w,
    }
}

impl ModuleWalk {
    /// Starts at a root file; the modules of the file are to be entered next.
    pub fn add_root(&mut self, root: &str)
        ensures
            final(self).deep_view() == (ModuleWalkV {
                found: old(self).deep_view().found.push(root@),
                ..old(self).deep_view()
            }),
    {
        put(&mut self.found, text(root));
    }

    /// Goes on with the modules of the file that was found last: for each the places where its
    /// file may be.
    pub fn enter(&mut self, modules: &Vec<Vec<String>>)
        ensures
            final(self).deep_view() == (ModuleWalkV {
                pending: modules.deep_view() + old(self).deep_view().pending,
                ..old(self).deep_view()
            }),
    {
        let ghost p = self.pending.deep_view();
        let mut next: Vec<Vec<String>> = Vec::new();
        assert(next.deep_view() == Seq::<Seq<Seq<char>>>::empty());
        copy_modules(modules, 0, &mut next);
        assert(next.deep_view() == modules.deep_view());
        copy_modules(&self.pending, 0, &mut next);
        assert(p.skip(0) == p);
        self.pending = next;
    }

    /// Takes the next module and gives the places to look for its file; nothing where the walk is
    /// over.
    pub fn step(&mut self) -> (r: Option<Vec<String>>)
        ensures
            ({
                let w = old(self).deep_view();
                if w.pending.len() == 0 {
                    r is None && final(self).deep_view() == w
                } else {
                    r.deep_view() == Some(w.pending[0]) && final(self).deep_view() == (ModuleWalkV {
                        pending: w.pending.skip(1),
                        ..w
                    })
                }
            }),
    {
        let ghost p = self.pending.deep_view();
        assert(p.len() == self.pending@.len());
        if self.pending.len() == 0 {
            return None;
        }
        let first = self.pending[0].dup();
        assert(first.deep_view() == p[0]);
        let mut rest: Vec<Vec<String>> = Vec::new();
        assert(rest.deep_view() == Seq::<Seq<Seq<char>>>::empty());
        copy_modules(&self.pending, 1, &mut rest);
        assert(rest.deep_view() == p.skip(1));
        self.pending = rest;
        Some(first)
    }

    /// Settles the module that was given last, given which of its places are files: the first file
    /// that is not known yet is the module's, and is to be read.
    pub fn settle(&mut self, places: &Vec<String>, is_file: &Vec<bool>) -> (r: Option<String>)
        requires
            places@.len() == is_file@.len(),
        ensures
            final(self).deep_view() == settled(
                old(self).deep_view(),
                places.deep_view(),
                is_file@,
            ),
            r.deep_view() == match fresh_file(
                places.deep_view(),
                is_file@,
                old(self).deep_view().found,
                0,
            ) {
                Some(i) => Some(places.deep_view()[i as int]),
                None => None,
            },
    {
        let ghost ps = places.deep_view();
        let size: usize = places.len();
        assert(ps.len() == size);
        proof {
            lemma_fresh_file(ps, is_file@, self.found.deep_view(), 0);
        }
        match pick_file(places, is_file, &self.found) {
            Some(i) => {
                let file = places[i].dup();
                assert(file@ == ps[i as int]);
                put(&mut self.found, places[i].dup());
                Some(file)
            },
            None => None,
        }
    }
}

proof fn lemma_fresh_file(cands: Seq<Seq<char>>, is_file: Seq<bool>, known: Seq<Seq<char>>, i: int)
    requires
        0 <= i,
        cands.len() <= usize::MAX,
    ensures
        fresh_file(cands, is_file, known, i) matches Some(k) ==> i <= k < cands.len() && is_file[k as int]
            && !is_known(known, cands[k as int]),
    decreases cands.len() - i,
{
    if i < cands.len() {
        lemma_fresh_file(cands, is_file, known, i + 1);
    }
}

/// No two of the places are the same.
pub open spec fn places_differ(places: Seq<Seq<char>>) -> bool {
    forall|i: int, j: int|
        0 <= i < j < places.len() ==> !same_place(#[trigger] places[i], #[trigger] places[j])
}

/// A walk through modules finds no file twice, however its path is written.
pub proof fn a_module_walk_finds_no_file_twice(
    w: ModuleWalkV,
    places: Seq<Seq<char>>,
    is_file: Seq<bool>,
)
    requires
        places_differ(w.found),
        places.len() <= usize::MAX,
    ensures
        places_differ(settled(w, places, is_file).found),
{
    lemma_fresh_file(places, is_file, w.found, 0);
}

/// A name in the directory of a crate's binaries.
#[derive(Debug)]
pub struct Bin {
    /// Its path.
    pub path: String,
    /// Its last name.
    pub name: String,
    /// The `main.rs` in it, where it is a directory that has one.
    pub main: Option<String>,
}

/// What a [`Bin`] means.
pub struct BinV {
    pub path: Seq<char>,
    pub name: Seq<char>,
    pub main: Option<Seq<char>>,
}

impl DeepView for Bin {
    type V = BinV;

    open spec fn deep_view(&self) -> BinV {
        BinV {
            path: self.path.deep_view(),
            name: self.name.deep_view(),
            main: self.main.deep_view(),
        }
    }
}

/// A file name has the extension `rs`: behind a stem that is not empty.
pub open spec fn is_rust_file(name: Seq<char>) -> bool {
    ends_with(name, ".rs"@) && name.len() > 3
}

/// The roots of the binaries from number `i` on, behind `acc`: Rust files, and the `main.rs` of
/// directories.
pub open spec fn bin_roots_from(bins: Seq<BinV>, i: int, acc: Seq<Seq<char>>) -> Seq<Seq<char>>
    decreases bins.len() - i,
{
    if i < 0 || i >= bins.len() {
        acc
    } else {
        bin_roots_from(
            bins,
            i + 1,
            if is_rust_file(bins[i].name) {
                acc.push(bins[i].path)
            } else {
                with_some(acc, bins[i].main)
            },
        )
    }
}

pub const NO_ROOT: &'static str = " has no src/main.rs or src/lib.rs — pass files or directories explicitly (see --help)";

/// The root files of a crate: its `main.rs` and `lib.rs`, where it has them, and its binaries.
pub open spec fn roots(
    main: Option<Seq<char>>,
    lib: Option<Seq<char>>,
    bins: Seq<BinV>,
) -> Seq<Seq<char>> {
    bin_roots_from(bins, 0, with_some(with_some(Seq::empty(), main), lib))
}

/// The root files of the crate in `dir`; a complaint where it has none.
pub fn default_roots(
    dir: &str,
    main: Option<String>,
    lib: Option<String>,
    bins: &Vec<Bin>,
) -> (r: Result<
    Vec<String>,
    String,
>)
    ensures
        ({
            let found = roots(main.deep_view(), lib.deep_view(), bins.deep_view());
            match r {
                Ok(v) => found.len() > 0 && v.deep_view() == found,
                Err(e) => found.len() == 0 && e@ == "no input files, and "@ + dir@ + NO_ROOT@,
            }
        }),
{
    let ghost bs = bins.deep_view();
    let mut out: Vec<String> = Vec::new();
    assert(out.deep_view() == Seq::<Seq<char>>::empty());
    let ghost found = roots(main.deep_view(), lib.deep_view(), bs);
    add_some(&mut out, main);
    add_some(&mut out, lib);
    let mut i: usize = 0;
    while i < bins.len()
        invariant
            i <= bins@.len(),
            bs == bins.deep_view(),
            found == bin_roots_from(bs, i as int, out.deep_view()),
        decreases bins@.len() - i,
    {
        assert(bs[i as int] == bins@[i as int].deep_view());
        let size: usize = chars_of(bins[i].name.as_str()).len();
        if has_suffix(bins[i].name.as_str(), ".rs") && size > 3 {
            put(&mut out, bins[i].path.dup());
        } else {
            add_some(&mut out, bins[i].main.dup());
        }
        i = i + 1;
    }
    assert(out.deep_view().len() == out@.len());
    if out.len() == 0 {
        return Err(cat3("no input files, and ", dir, NO_ROOT));
    }
    Ok(out)
}

/// What is said where a tool is given no files and scans the crate around it.
pub fn scanning_note(tool: &str, files: usize) -> (r: String)
    ensures
        r@ == tool@ + ": no inputs given; scanning this crate ("@ + decimal(files as nat) + " files)"@,
{
    let n = decimal_usize(files);
    cat4(tool, ": no inputs given; scanning this crate (", n.as_str(), " files)")
}

/// A package of a workspace.
#[derive(Debug)]
pub struct Package {
    /// It comes from no registry.
    pub local: bool,
    /// Its manifest.
    pub manifest: Option<String>,
}

/// What a [`Package`] means.
pub struct PackageV {
    pub local: bool,
    pub manifest: Option<Seq<char>>,
}

impl DeepView for Package {
    type V = PackageV;

    open spec fn deep_view(&self) -> PackageV {
        PackageV {
            local: self.local.deep_view(),
            manifest: self.manifest.deep_view(),
        }
    }
}

impl Dup for Package {
    fn dup(&self) -> (r: Self) {
        Package {
            local: self.local.dup(),
            manifest: self.manifest.dup(),
        }
    }
}

/// The package that a value of the `packages` list describes: one without a source, or with a null
/// one, is local.
pub open spec fn package_of(p: JsonV) -> PackageV {
    PackageV {
        local: match member(p, "source"@) {
            None => true,
            Some(s) => s is Null,
        },
        manifest: match member(p, "manifest_path"@) {
            Some(JsonV::Str(m)) => Some(m),
            _ => None,
        },
    }
}

/// The packages that the output of `cargo metadata` lists.
pub open spec fn packages_of(meta: JsonV) -> Seq<PackageV> {
    match member(meta, "packages"@) {
        Some(JsonV::Arr(v)) => Seq::new(v.len(), |i: int| package_of(v[i])),
        _ => Seq::empty(),
    }
}

fn package_in(p: &Json) -> (r: Package)
    ensures
        r.deep_view() == package_of(p.deep_view()),
{
    let local = match p.member("source") {
        None => true,
        Some(Json::Null) => true,
        Some(_) => false,
    };
    let manifest = match p.member("manifest_path") {
        Some(Json::Str(m)) => Some(m.dup()),
        _ => None,
    };
    Package { local, manifest }
}

/// The packages that the output of `cargo metadata` lists.
pub fn packages_in(meta: &Json) -> (r: Vec<Package>)
    ensures
        r.deep_view() == packages_of(meta.deep_view()),
{
    let ghost all = packages_of(meta.deep_view());
    let mut out: Vec<Package> = Vec::new();
    assert(out.deep_view() == Seq::<PackageV>::empty());
    match meta.member("packages") {
        Some(Json::Arr(v)) => {
            let mut i: usize = 0;
            assert(all.len() == v@.len());
            while i < v.len()
                invariant
                    i <= v@.len() == all.len(),
                    forall|k: int|
                        0 <= k < all.len() ==> #[trigger] all[k] == package_of(v@[k].deep_view()),
                    out.deep_view() == all.take(i as int),
                decreases v@.len() - i,
            {
                put(&mut out, package_in(&v[i]));
                i = i + 1;
                assert(out.deep_view() == all.take(i as int));
            }
            assert(all.take(all.len() as int) == all);
        },
        _ => {},
    }
    out
}

/// The manifests of the local packages from number `i` on, behind `acc`.
pub open spec fn local_from(packages: Seq<PackageV>, i: int, acc: Seq<Seq<char>>) -> Seq<Seq<char>>
    decreases packages.len() - i,
{
    if i < 0 || i >= packages.len() {
        acc
    } else {
        local_from(
            packages,
            i + 1,
            if packages[i].local && packages[i].manifest is Some {
                acc.push(packages[i].manifest->0)
            } else {
                acc
            },
        )
    }
}

/// The manifests of packages that come from no registry.
pub fn local_manifests(packages: &Vec<Package>) -> (r: Vec<String>)
    ensures
        r.deep_view() == local_from(packages.deep_view(), 0, Seq::empty()),
{
    let ghost ps = packages.deep_view();
    let mut out: Vec<String> = Vec::new();
    assert(out.deep_view() == Seq::<Seq<char>>::empty());
    let mut i: usize = 0;
    while i < packages.len()
        invariant
            i <= packages@.len(),
            ps == packages.deep_view(),
            local_from(ps, 0, Seq::empty()) == local_from(ps, i as int, out.deep_view()),
        decreases packages@.len() - i,
    {
        assert(ps[i as int] == packages@[i as int].deep_view());
        if packages[i].local {
            if let Some(m) = &packages[i].manifest {
                put(&mut out, m.dup());
            }
        }
        i = i + 1;
    }
    out
}

/// The manifests of the local packages in the output of `cargo metadata`.
pub fn workspace_manifests(json: &[u8]) -> (r: Result<Vec<String>, String>)
    ensures
        match r {
            Ok(v) => json_read(json@) is Ok && v.deep_view() == local_from(
                packages_of(json_read(json@)->Ok_0),
                0,
                Seq::empty(),
            ),
            Err(e) => json_read(json@) is Err && e@ == "cargo metadata json: "@ + json_read(
                json@,
            )->Err_0,
        },
{
    match parse_json(json) {
        Ok(meta) => Ok(local_manifests(&packages_in(&meta))),
        Err(e) => Err(cat2("cargo metadata json: ", e.as_str())),
    }
}

/// The manifests from number `i` on that are not the crate's own, behind `acc`.
pub open spec fn others_from(
    manifests: Seq<(Seq<char>, Option<Seq<char>>)>,
    own: Option<Seq<char>>,
    i: int,
    acc: Seq<Seq<char>>,
) -> Seq<Seq<char>>
    decreases manifests.len() - i,
{
    if i < 0 || i >= manifests.len() {
        acc
    } else {
        others_from(
            manifests,
            own,
            i + 1,
            if manifests[i].1 == own {
                acc
            } else {
                acc.push(manifests[i].0)
            },
        )
    }
}

fn same_path(a: &Option<String>, b: &Option<String>) -> (r: bool)
    ensures
        r == (a.deep_view() == b.deep_view()),
{
    match (a, b) {
        (Some(x), Some(y)) => same(x.as_str(), y.as_str()),
        (None, None) => true,
        _ => false,
    }
}

/// Leaves out the crate's own manifest; a manifest comes with its canonical path, where it has one.
pub fn other_manifests(
    manifests: &Vec<(String, Option<String>)>,
    own: &Option<String>,
) -> (r: Vec<String>)
    ensures
        r.deep_view() == others_from(manifests.deep_view(), own.deep_view(), 0, Seq::empty()),
{
    let ghost ms = manifests.deep_view();
    let ghost ov = own.deep_view();
    let mut out: Vec<String> = Vec::new();
    assert(out.deep_view() == Seq::<Seq<char>>::empty());
    let mut i: usize = 0;
    while i < manifests.len()
        invariant
            i <= manifests@.len(),
            ms == manifests.deep_view(),
            ov == own.deep_view(),
            others_from(ms, ov, 0, Seq::empty()) == others_from(ms, ov, i as int, out.deep_view()),
        decreases manifests@.len() - i,
    {
        assert(ms[i as int].1 == manifests@[i as int].1.deep_view());
        if !same_path(&manifests[i].1, own) {
            put(&mut out, manifests[i].0.dup());
        }
        i = i + 1;
    }
    out
}

proof fn lemma_distinct(paths: Seq<(Seq<char>, Seq<char>)>, i: int, acc: Seq<Seq<char>>, x: Seq<char>)
    requires
        0 <= i,
    ensures
        distinct_from(paths, i, acc).contains(x) <==> acc.contains(x) || exists|k: int|
            i <= k < paths.len() && !seen_before(paths, k) && (#[trigger] paths[k]).0 == x,
    decreases paths.len() - i,
{
    if i < paths.len() {
        let next = if seen_before(paths, i) {
            acc
        } else {
            acc.push(paths[i].0)
        };
        if acc.contains(x) {
            let m = choose|m: int| 0 <= m < acc.len() && acc[m] == x;
            assert(next[m] == x);
        }
        if !seen_before(paths, i) {
            assert(next[acc.len() as int] == paths[i].0);
        }
        lemma_distinct(paths, i + 1, next, x);
    }
}

proof fn lemma_first_naming(paths: Seq<(Seq<char>, Seq<char>)>, i: int) -> (k: int)
    requires
        0 <= i < paths.len(),
    ensures
        0 <= k <= i,
        paths[k].1 == paths[i].1,
        !seen_before(paths, k),
    decreases i,
{
    if seen_before(paths, i) {
        let j = choose|j: int| 0 <= j < i && (#[trigger] paths[j]).1 == paths[i].1;
        lemma_first_naming(paths, j)
    } else {
        i
    }
}

/// Every file given is kept, under a path that names it, and under no path but the first.
pub proof fn every_file_is_kept_under_its_first_path(
    paths: Seq<(Seq<char>, Seq<char>)>,
    i: int,
    x: Seq<char>,
)
    requires
        0 <= i < paths.len(),
    ensures
        exists|k: int|
            0 <= k <= i && (#[trigger] paths[k]).1 == paths[i].1 && distinct_from(
                paths,
                0,
                Seq::empty(),
            ).contains(paths[k].0),
        distinct_from(paths, 0, Seq::empty()).contains(x) <==> exists|k: int|
            0 <= k < paths.len() && !seen_before(paths, k) && (#[trigger] paths[k]).0 == x,
{
    let k = lemma_first_naming(paths, i);
    lemma_distinct(paths, 0, Seq::empty(), paths[k].0);
    lemma_distinct(paths, 0, Seq::empty(), x);
    assert(paths[k].1 == paths[i].1);
}

} // verus!
