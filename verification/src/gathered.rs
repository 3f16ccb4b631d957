//! Which files the tools read, and what each adds to what is known.

use vstd::prelude::*;

use crate::args::{
    asks_help, comma_list, lint_args, lint_from, looks_like_option, no_lint_args, LintArgsV,
};
use crate::asked::{said, said_with};
use crate::covered::{has_mark, the_functions_scanned_are_the_marked_ones};
use crate::discover::module_name;
use crate::find::DeclV;
use crate::inputs::{
    admits, admitted_from, bin_roots_from, entry_slot, explicit_path, is_path_attr, is_rust_file,
    lemma_entry_slot, local_from, module_paths, others_from, package_of, roots, scanned, BinV,
    EntryV, PackageV, ScanV,
};
use crate::json::{member, JsonV};
use crate::label::with_some;
use crate::lint::{with_categories, with_category, LintCats};
use crate::scan::{source_items, SrcItemV, SrcModV};
use crate::text::{ends_with, pieces, starts_with, trimmed};

verus! {

/// A walk goes on with the entry: a directory other than `target` and the hidden ones, or a file of
/// Rust source; and no link.
pub open spec fn goes_on_with(e: EntryV) -> bool {
    &&& !e.link
    &&& e.dir ==> e.name != "target"@ && !starts_with(e.name, "."@)
    &&& !e.dir ==> ends_with(e.name, ".rs"@)
}

/// A walk goes on with exactly these entries of a directory.
pub proof fn a_walk_goes_on_with_every_admitted_entry(
    entries: Seq<EntryV>,
    i: int,
    acc: Seq<EntryV>,
    e: EntryV,
)
    requires
        0 <= i,
    ensures
        admitted_from(entries, i, acc).contains(e) <==> acc.contains(e) || (goes_on_with(e)
            && exists|k: int| i <= k < entries.len() && #[trigger] entries[k] == e),
    decreases entries.len() - i,
{
    if i < entries.len() {
        assert(admits(entries[i]) == goes_on_with(entries[i]));
        if admits(entries[i]) {
            lemma_entry_slot(acc, entries[i].path, 0);
            let at = entry_slot(acc, entries[i].path, 0);
            let next = acc.insert(at, entries[i]);
            assert(next[at] == entries[i]);
            if acc.contains(e) {
                let k = choose|k: int| 0 <= k < acc.len() && acc[k] == e;
                if k < at {
                    assert(next[k] == e);
                } else {
                    assert(next[k + 1] == e);
                }
            }
            if next.contains(e) && !acc.contains(e) {
                let k = choose|k: int| 0 <= k < next.len() && next[k] == e;
                if k < at {
                    assert(acc[k] == e);
                } else if k > at {
                    assert(acc[k - 1] == e);
                }
                assert(entries[i] == e);
            }
            a_walk_goes_on_with_every_admitted_entry(entries, i + 1, next, e);
        } else {
            a_walk_goes_on_with_every_admitted_entry(entries, i + 1, acc, e);
        }
    }
}

/// A scanned file adds its marked functions: to those of the graph where it is a graph source, else
/// to those of the dependencies; the other list stays. The declarations found in it are added behind
/// those known.
pub proof fn a_scanned_file_adds_its_functions(
    s: ScanV,
    file: Seq<char>,
    src: Seq<char>,
    graph: bool,
    decls: Seq<DeclV>,
    items: Seq<SrcItemV>,
    x: (Seq<char>, Seq<char>),
)
    requires
        source_items(src) == Some(items),
    ensures
        ({
            let r = scanned(s, file, src, graph, decls);
            let added = x.0 == module_name(file) && exists|k: int|
                0 <= k < items.len() && (#[trigger] items[k] matches SrcItemV::Fn(f) && has_mark(f)
                    && f.name == x.1);
            &&& r.decls == s.decls + decls
            &&& r.fns.contains(x) <==> s.fns.contains(x) || (graph && added)
            &&& r.dep_fns.contains(x) <==> s.dep_fns.contains(x) || (!graph && added)
        }),
{
    the_functions_scanned_are_the_marked_ones(items, module_name(file), 0, s.fns, x);
    the_functions_scanned_are_the_marked_ones(items, module_name(file), 0, s.dep_fns, x);
}

proof fn lemma_more(list: Seq<Seq<char>>, x: Seq<char>, y: Seq<char>)
    ensures
        list.push(x).contains(y) <==> list.contains(y) || x == y,
{
    let next = list.push(x);
    assert(next[list.len() as int] == x);
    if list.contains(y) {
        let k = choose|k: int| 0 <= k < list.len() && list[k] == y;
        assert(next[k] == y);
    }
    if next.contains(y) {
        let k = choose|k: int| 0 <= k < next.len() && next[k] == y;
        if k < list.len() {
            assert(list[k] == y);
        }
    }
}

proof fn lemma_bins(bins: Seq<BinV>, i: int, acc: Seq<Seq<char>>, x: Seq<char>)
    requires
        0 <= i,
    ensures
        bin_roots_from(bins, i, acc).contains(x) <==> acc.contains(x) || exists|k: int|
            i <= k < bins.len() && is_root_of(#[trigger] bins[k], x),
    decreases bins.len() - i,
{
    if i < bins.len() {
        let next = if is_rust_file(bins[i].name) {
            acc.push(bins[i].path)
        } else {
            with_some(acc, bins[i].main)
        };
        lemma_bins(bins, i + 1, next, x);
        lemma_more(acc, bins[i].path, x);
        if bins[i].main is Some {
            lemma_more(acc, bins[i].main->0, x);
        }
    }
}

/// The file is the root of a binary: the binary itself where it is a Rust file, else its `main.rs`.
pub open spec fn is_root_of(b: BinV, x: Seq<char>) -> bool {
    if ends_with(b.name, ".rs"@) && b.name.len() > 3 {
        b.path == x
    } else {
        b.main == Some(x)
    }
}

/// The roots of a crate are its `main.rs`, its `lib.rs` and the roots of its binaries.
pub proof fn the_roots_of_a_crate_are_its_targets(
    main: Option<Seq<char>>,
    lib: Option<Seq<char>>,
    bins: Seq<BinV>,
    x: Seq<char>,
)
    ensures
        roots(main, lib, bins).contains(x) <==> main == Some(x) || lib == Some(x) || exists|k: int|
            0 <= k < bins.len() && is_root_of(#[trigger] bins[k], x),
{
    let none = Seq::<Seq<char>>::empty();
    let first = with_some(none, main);
    let both = with_some(first, lib);
    lemma_bins(bins, 0, both, x);
    if main is Some {
        lemma_more(none, main->0, x);
    }
    if lib is Some {
        lemma_more(first, lib->0, x);
    }
}

/// A package is local where it has no source; the manifests read are those of the local packages.
pub proof fn the_manifests_read_are_the_local_ones(
    packages: Seq<PackageV>,
    i: int,
    acc: Seq<Seq<char>>,
    x: Seq<char>,
)
    requires
        0 <= i,
    ensures
        local_from(packages, i, acc).contains(x) <==> acc.contains(x) || exists|k: int|
            i <= k < packages.len() && (#[trigger] packages[k]).local && packages[k].manifest
                == Some(x),
    decreases packages.len() - i,
{
    if i < packages.len() {
        let p = packages[i];
        let next = if p.local && p.manifest is Some {
            acc.push(p.manifest->0)
        } else {
            acc
        };
        the_manifests_read_are_the_local_ones(packages, i + 1, next, x);
        if p.manifest is Some {
            lemma_more(acc, p.manifest->0, x);
        }
    }
}

/// A package is local exactly where it names no source, and has the manifest that it names.
pub proof fn a_package_without_a_source_is_local(p: JsonV, m: Seq<char>)
    ensures
        package_of(p).local <==> member(p, "source"@) is None || member(p, "source"@) == Some(
            JsonV::Null,
        ),
        package_of(p).manifest == Some(m) <==> member(p, "manifest_path"@) == Some(JsonV::Str(m)),
{
}

/// Of the manifests, a crate's own is left out, and no other.
pub proof fn only_the_own_manifest_is_left_out(
    manifests: Seq<(Seq<char>, Option<Seq<char>>)>,
    own: Option<Seq<char>>,
    i: int,
    acc: Seq<Seq<char>>,
    x: Seq<char>,
)
    requires
        0 <= i,
    ensures
        others_from(manifests, own, i, acc).contains(x) <==> acc.contains(x) || exists|k: int|
            i <= k < manifests.len() && (#[trigger] manifests[k]).0 == x && manifests[k].1 != own,
    decreases manifests.len() - i,
{
    if i < manifests.len() {
        let next = if manifests[i].1 == own {
            acc
        } else {
            acc.push(manifests[i].0)
        };
        only_the_own_manifest_is_left_out(manifests, own, i + 1, next, x);
        lemma_more(acc, manifests[i].0, x);
    }
}

proof fn lemma_no_path(m: SrcModV, i: int)
    requires
        0 <= i,
        forall|k: int| 0 <= k < m.attrs.len() ==> !is_path_attr(#[trigger] m.attrs[k]),
    ensures
        explicit_path(m.attrs, i) is None,
    decreases m.attrs.len() - i,
{
    if i < m.attrs.len() {
        lemma_no_path(m, i + 1);
    }
}

/// The file of a module is looked for as Rust does: `name.rs`, then `name/mod.rs`, in the directory
/// of the file for a root, else in the directory of the file's own name.
pub proof fn a_module_is_looked_for_beside_its_file(m: SrcModV, own: Seq<char>)
    requires
        forall|k: int| 0 <= k < m.attrs.len() ==> !is_path_attr(#[trigger] m.attrs[k]),
    ensures
        own == "mod"@ || own == "lib"@ || own == "main"@ ==> module_paths(m, own) == seq![
            seq![m.name + ".rs"@],
            seq![m.name, "mod.rs"@],
        ],
        own != "mod"@ && own != "lib"@ && own != "main"@ ==> module_paths(m, own) == seq![
            seq![own, m.name + ".rs"@],
            seq![own, m.name, "mod.rs"@],
        ],
{
    lemma_no_path(m, 0);
    let none = Seq::<Seq<char>>::empty();
    assert(none.push(m.name + ".rs"@) =~= seq![m.name + ".rs"@]);
    assert(none.push(m.name).push("mod.rs"@) =~= seq![m.name, "mod.rs"@]);
    assert(seq![own].push(m.name + ".rs"@) =~= seq![own, m.name + ".rs"@]);
    assert(seq![own].push(m.name).push("mod.rs"@) =~= seq![own, m.name, "mod.rs"@]);
}

/// The option stands among the arguments, and a category of this name, or `all`, in its value.
pub open spec fn named_category(list: Seq<Seq<char>>, name: Seq<char>) -> bool {
    exists|v: Seq<char>| #[trigger] said_with(list, "--only"@, v) && (lists_name(v, name)
        || lists_name(v, "all"@))
}

/// The comma-separated list has this name.
pub open spec fn lists_name(v: Seq<char>, name: Seq<char>) -> bool {
    exists|k: int|
        0 <= k < pieces(v, ","@).len() && trimmed(#[trigger] pieces(v, ","@)[k]) == name
}

proof fn lemma_categories(c: LintCats, v: Seq<char>, i: int)
    requires
        0 <= i,
    ensures
        ({
            let r = with_categories(c, pieces(v, ","@), i).0;
            &&& r.orphan_reads ==> c.orphan_reads || lists_name(v, "orphan-reads"@) || lists_name(
                v,
                "all"@,
            )
            &&& r.dead_writes ==> c.dead_writes || lists_name(v, "dead-writes"@) || lists_name(
                v,
                "all"@,
            )
            &&& r.public_gate ==> c.public_gate || lists_name(v, "public-gate"@) || lists_name(
                v,
                "all"@,
            )
        }),
    decreases pieces(v, ","@).len() - i,
{
    let names = pieces(v, ","@);
    if i < names.len() {
        let name = trimmed(names[i]);
        assert(lists_name(v, name));
        if name.len() == 0 {
            lemma_categories(c, v, i + 1);
        } else if let Some(d) = with_category(c, name) {
            lemma_categories(d, v, i + 1);
        }
    }
}

spec fn lint_said(a: LintArgsV, list: Seq<Seq<char>>) -> bool {
    &&& a.deps ==> said(list, "--deps"@)
    &&& a.only.orphan_reads ==> named_category(list, "orphan-reads"@)
    &&& a.only.dead_writes ==> named_category(list, "dead-writes"@)
    &&& a.only.public_gate ==> named_category(list, "public-gate"@)
    &&& a.allow.len() > 0 ==> said(list, "--allow"@)
}

proof fn lemma_lint_said(list: Seq<Seq<char>>, i: int, a: LintArgsV)
    requires
        0 <= i,
        lint_said(a, list),
    ensures
        lint_from(list, i, a) matches Ok(Some(b)) ==> lint_said(b, list),
    decreases list.len() + 2 - i,
{
    if i < list.len() && !asks_help(list[i]) {
        assert(said(list, list[i]));
        if list[i] == "--deps"@ {
            lemma_lint_said(list, i + 1, LintArgsV { deps: true, ..a });
        } else if list[i] == "--only"@ || list[i] == "--allow"@ {
            if i + 1 < list.len() {
                let v = list[i + 1];
                assert(said_with(list, list[i], v));
                if list[i] == "--only"@ {
                    lemma_categories(a.only, v, 0);
                    let only = with_categories(a.only, pieces(v, ","@), 0).0;
                    lemma_lint_said(list, i + 2, LintArgsV { only, ..a });
                } else {
                    lemma_lint_said(
                        list,
                        i + 2,
                        LintArgsV { allow: a.allow + comma_list(v), ..a },
                    );
                }
            }
        } else if !looks_like_option(list[i]) {
            lemma_lint_said(list, i + 1, LintArgsV { files: a.files.push(list[i]), ..a });
        }
    }
}

/// The linting tool looks for what its arguments name, and for everything where they name no
/// category.
pub proof fn the_linting_tool_looks_for_what_is_named(list: Seq<Seq<char>>, a: LintArgsV)
    requires
        lint_args(list) == Ok::<Option<LintArgsV>, Seq<char>>(Some(a)),
    ensures
        a.deps ==> said(list, "--deps"@),
        a.allow.len() > 0 ==> said(list, "--allow"@),
        a.only.orphan_reads && a.only.dead_writes && a.only.public_gate || (a.only.orphan_reads
            ==> named_category(list, "orphan-reads"@)) && (a.only.dead_writes ==> named_category(
            list,
            "dead-writes"@,
        )) && (a.only.public_gate ==> named_category(list, "public-gate"@)),
        a.only.orphan_reads || a.only.dead_writes || a.only.public_gate,
{
    lemma_lint_said(list, 0, no_lint_args());
}

} // verus!
