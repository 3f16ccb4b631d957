//! What an import brings into scope, and what a signal path means under the imports of its file.

use vstd::prelude::*;

use crate::discover::{
    item_discoveries, item_uses, lowercase, module_name, path_parts, resolved_path, use_pairs,
};
use crate::labels::{all_plain, lemma_joined_front, lemma_spelling, lemma_split_back, plain};
use crate::scan::{item_accesses, SrcItemV, UseStepV};
use crate::text::{find, joined, lemma_find_from, looked_up, stands_at};

verus! {

/// An import tree.
pub enum ImportTree {
    /// `name::` and what stands below it.
    Below(Seq<char>, Box<ImportTree>),
    /// A name.
    Name(Seq<char>),
    /// A name, under another.
    Rename(Seq<char>, Seq<char>),
    /// Trees side by side in braces.
    Group(Seq<ImportTree>),
    /// Everything.
    Glob,
}

/// The steps through a tree, in the order of its text.
pub open spec fn steps_of(t: ImportTree) -> Seq<UseStepV>
    decreases t,
{
    match t {
        ImportTree::Below(n, sub) => seq![UseStepV::Enter(n)] + steps_of(*sub) + seq![UseStepV::Leave],
        ImportTree::Name(n) => seq![UseStepV::Name(n)],
        ImportTree::Rename(n, alias) => seq![UseStepV::Rename((n, alias))],
        ImportTree::Group(list) => steps_of_all(list, list.len() as int),
        ImportTree::Glob => seq![UseStepV::Glob],
    }
}

/// The steps through the first `n` trees.
pub open spec fn steps_of_all(list: Seq<ImportTree>, n: int) -> Seq<UseStepV>
    decreases list, n,
{
    if n <= 0 || n > list.len() {
        Seq::empty()
    } else {
        steps_of_all(list, n - 1) + steps_of(list[n - 1])
    }
}

/// The tree imports the path under the name `alias`.
pub open spec fn imports(t: ImportTree, path: Seq<Seq<char>>, alias: Seq<char>) -> bool
    decreases t,
{
    match t {
        ImportTree::Below(n, sub) => path.len() >= 2 && path[0] == n && imports(*sub, path.skip(1), alias),
        ImportTree::Name(n) => path == seq![n] && alias == n,
        ImportTree::Rename(n, other) => path == seq![n] && alias == other,
        ImportTree::Group(list) => exists|k: int| 0 <= k < list.len() && imports(#[trigger] list[k], path, alias),
        ImportTree::Glob => false,
    }
}

/// The pair of a name in scope and the path it stands for, below `prefix`.
pub open spec fn pairs_of(
    t: ImportTree,
    prefix: Seq<Seq<char>>,
    x: (Seq<char>, Seq<char>),
) -> bool {
    exists|path: Seq<Seq<char>>|
        #[trigger] imports(t, path, x.0) && x.1 == joined(prefix + path, "::"@)
}

/// One of the first `n` trees has the pair.
pub open spec fn some_pairs(
    list: Seq<ImportTree>,
    n: int,
    prefix: Seq<Seq<char>>,
    x: (Seq<char>, Seq<char>),
) -> bool {
    exists|k: int| 0 <= k < n && k < list.len() && pairs_of(#[trigger] list[k], prefix, x)
}

proof fn lemma_added(acc: Seq<(Seq<char>, Seq<char>)>, y: (Seq<char>, Seq<char>), x: (Seq<char>, Seq<char>))
    ensures
        acc.push(y).contains(x) <==> acc.contains(x) || x == y,
{
    let all = acc.push(y);
    assert(all[acc.len() as int] == y);
    if acc.contains(x) {
        let m = choose|m: int| 0 <= m < acc.len() && acc[m] == x;
        assert(all[m] == x);
    }
    if all.contains(x) {
        let m = choose|m: int| 0 <= m < all.len() && all[m] == x;
        if m < acc.len() {
            assert(acc[m] == x);
        }
    }
}

proof fn lemma_pair(
    t: ImportTree,
    prefix: Seq<Seq<char>>,
    path: Seq<Seq<char>>,
    x: (Seq<char>, Seq<char>),
)
    requires
        imports(t, path, x.0),
        x.1 == joined(prefix + path, "::"@),
    ensures
        pairs_of(t, prefix, x),
{
}

/// The steps of a tree that stand at `i` add the pairs of the tree, and leave the prefix as it was.
proof fn lemma_tree(
    steps: Seq<UseStepV>,
    i: int,
    prefix: Seq<Seq<char>>,
    acc: Seq<(Seq<char>, Seq<char>)>,
    t: ImportTree,
) -> (r: Seq<(Seq<char>, Seq<char>)>)
    requires
        0 <= i,
        i + steps_of(t).len() <= steps.len(),
        steps.subrange(i, i + steps_of(t).len()) == steps_of(t),
    ensures
        use_pairs(steps, i, prefix, acc) == use_pairs(steps, i + steps_of(t).len(), prefix, r),
        forall|x: (Seq<char>, Seq<char>)| #[trigger]
            r.contains(x) <==> acc.contains(x) || pairs_of(t, prefix, x),
    decreases t,
{
    let s = steps_of(t);
    match t {
        ImportTree::Below(n, sub) => {
            let inner = steps_of(*sub);
            assert(steps[i] == steps.subrange(i, i + s.len())[0]);
            assert(s[0] == UseStepV::Enter(n));
            assert(steps.subrange(i + 1, i + 1 + inner.len()) == inner) by {
                assert(s.subrange(1, 1 + inner.len() as int) == inner);
                assert(steps.subrange(i, i + s.len()).subrange(1, 1 + inner.len() as int)
                    == steps.subrange(i + 1, i + 1 + inner.len()));
            }
            let deep = prefix.push(n);
            let r = lemma_tree(steps, i + 1, deep, acc, *sub);
            let e = i + 1 + inner.len();
            assert(steps[e] == steps.subrange(i, i + s.len())[1 + inner.len() as int]);
            assert(s[1 + inner.len() as int] == UseStepV::Leave);
            assert(deep.drop_last() == prefix);
            assert forall|x: (Seq<char>, Seq<char>)| #[trigger] r.contains(x) <==> acc.contains(x) || pairs_of(
                t,
                prefix,
                x,
            ) by {
                if pairs_of(*sub, deep, x) {
                    let path = choose|path: Seq<Seq<char>>|
                        #[trigger] imports(*sub, path, x.0) && x.1 == joined(deep + path, "::"@);
                    lemma_some_path(*sub, path, x.0);
                    let whole = seq![n] + path;
                    assert(whole.skip(1) == path);
                    assert(prefix + whole == deep + path);
                    assert(imports(t, whole, x.0));
                }
                if pairs_of(t, prefix, x) {
                    let path = choose|path: Seq<Seq<char>>|
                        #[trigger] imports(t, path, x.0) && x.1 == joined(prefix + path, "::"@);
                    assert(prefix + path == deep + path.skip(1));
                    assert(imports(*sub, path.skip(1), x.0));
                }
            }
            r
        },
        ImportTree::Name(n) => {
            assert(steps[i] == steps.subrange(i, i + s.len())[0]);
            let y = (n, joined(prefix.push(n), "::"@));
            let r = acc.push(y);
            assert(prefix + seq![n] == prefix.push(n));
            assert(imports(t, seq![n], n));
            lemma_pair(t, prefix, seq![n], y);
            assert forall|x: (Seq<char>, Seq<char>)| #[trigger] r.contains(x) <==> acc.contains(x) || pairs_of(
                t,
                prefix,
                x,
            ) by {
                lemma_added(acc, y, x);
                if pairs_of(t, prefix, x) {
                    let path = choose|path: Seq<Seq<char>>|
                        #[trigger] imports(t, path, x.0) && x.1 == joined(prefix + path, "::"@);
                    assert(path == seq![n]);
                }
            }
            r
        },
        ImportTree::Rename(n, alias) => {
            assert(steps[i] == steps.subrange(i, i + s.len())[0]);
            let y = (alias, joined(prefix.push(n), "::"@));
            let r = acc.push(y);
            assert(prefix + seq![n] == prefix.push(n));
            assert(imports(t, seq![n], alias));
            lemma_pair(t, prefix, seq![n], y);
            assert forall|x: (Seq<char>, Seq<char>)| #[trigger] r.contains(x) <==> acc.contains(x) || pairs_of(
                t,
                prefix,
                x,
            ) by {
                lemma_added(acc, y, x);
                if pairs_of(t, prefix, x) {
                    let path = choose|path: Seq<Seq<char>>|
                        #[trigger] imports(t, path, x.0) && x.1 == joined(prefix + path, "::"@);
                    assert(path == seq![n]);
                }
            }
            r
        },
        ImportTree::Group(list) => {
            let r = lemma_trees(steps, i, prefix, acc, list, list.len() as int);
            assert forall|x: (Seq<char>, Seq<char>)| #[trigger] r.contains(x) <==> acc.contains(x) || pairs_of(
                t,
                prefix,
                x,
            ) by {
                if some_pairs(list, list.len() as int, prefix, x) {
                    let k = choose|k: int|
                        0 <= k < list.len() && pairs_of(#[trigger] list[k], prefix, x);
                    let path = choose|path: Seq<Seq<char>>|
                        #[trigger] imports(list[k], path, x.0) && x.1 == joined(prefix + path, "::"@);
                    assert(imports(t, path, x.0));
                }
                if pairs_of(t, prefix, x) {
                    let path = choose|path: Seq<Seq<char>>|
                        #[trigger] imports(t, path, x.0) && x.1 == joined(prefix + path, "::"@);
                    let k = choose|k: int| 0 <= k < list.len() && imports(#[trigger] list[k], path, x.0);
                    assert(pairs_of(list[k], prefix, x));
                }
            }
            r
        },
        ImportTree::Glob => {
            assert(steps[i] == steps.subrange(i, i + s.len())[0]);
            assert forall|x: (Seq<char>, Seq<char>)| #[trigger] acc.contains(x) <==> acc.contains(x) || pairs_of(
                t,
                prefix,
                x,
            ) by {
                if pairs_of(t, prefix, x) {
                    let path = choose|path: Seq<Seq<char>>|
                        #[trigger] imports(t, path, x.0) && x.1 == joined(prefix + path, "::"@);
                }
            }
            acc
        },
    }
}

proof fn lemma_some_path(t: ImportTree, path: Seq<Seq<char>>, alias: Seq<char>)
    requires
        imports(t, path, alias),
    ensures
        path.len() > 0,
    decreases t,
{
    if let ImportTree::Group(list) = t {
        let k = choose|k: int| 0 <= k < list.len() && imports(#[trigger] list[k], path, alias);
        lemma_some_path(list[k], path, alias);
    }
}

proof fn lemma_trees(
    steps: Seq<UseStepV>,
    i: int,
    prefix: Seq<Seq<char>>,
    acc: Seq<(Seq<char>, Seq<char>)>,
    list: Seq<ImportTree>,
    n: int,
) -> (r: Seq<(Seq<char>, Seq<char>)>)
    requires
        0 <= i,
        0 <= n <= list.len(),
        i + steps_of_all(list, n).len() <= steps.len(),
        steps.subrange(i, i + steps_of_all(list, n).len()) == steps_of_all(list, n),
    ensures
        use_pairs(steps, i, prefix, acc) == use_pairs(
            steps,
            i + steps_of_all(list, n).len(),
            prefix,
            r,
        ),
        forall|x: (Seq<char>, Seq<char>)| #[trigger]
            r.contains(x) <==> acc.contains(x) || some_pairs(list, n, prefix, x),
    decreases list, n,
{
    if n == 0 {
        acc
    } else {
        let front = steps_of_all(list, n - 1);
        let last = steps_of(list[n - 1]);
        let all = steps_of_all(list, n);
        assert(all == front + last);
        assert(steps.subrange(i, i + front.len()) == front) by {
            assert(all.subrange(0, front.len() as int) == front);
            assert(steps.subrange(i, i + all.len()).subrange(0, front.len() as int) == steps.subrange(
                i,
                i + front.len(),
            ));
        }
        let mid = lemma_trees(steps, i, prefix, acc, list, n - 1);
        let j = i + front.len();
        assert(steps.subrange(j, j + last.len()) == last) by {
            assert(all.subrange(front.len() as int, all.len() as int) == last);
            assert(steps.subrange(i, i + all.len()).subrange(front.len() as int, all.len() as int)
                == steps.subrange(j, j + last.len()));
        }
        let r = lemma_tree(steps, j, prefix, mid, list[n - 1]);
        assert forall|x: (Seq<char>, Seq<char>)| #[trigger] r.contains(x) <==> acc.contains(x) || some_pairs(
            list,
            n,
            prefix,
            x,
        ) by {
            assert(mid.contains(x) <==> acc.contains(x) || some_pairs(list, n - 1, prefix, x));
            if some_pairs(list, n, prefix, x) {
                let k = choose|k: int| 0 <= k < n && k < list.len() && pairs_of(#[trigger] list[k], prefix, x);
                if k < n - 1 {
                    assert(some_pairs(list, n - 1, prefix, x));
                }
            }
        }
        r
    }
}

/// The names that an import tree brings into scope are the last segments of the paths it imports,
/// or their aliases, and each stands for its full path, from the root of the tree to that segment.
pub proof fn an_imported_name_stands_for_its_full_path(t: ImportTree, x: (Seq<char>, Seq<char>))
    ensures
        use_pairs(steps_of(t), 0, Seq::empty(), Seq::empty()).contains(x) <==> exists|path: Seq<Seq<char>>|
            #[trigger] imports(t, path, x.0) && x.1 == joined(path, "::"@),
{
    let steps = steps_of(t);
    let none = Seq::<Seq<char>>::empty();
    assert(steps.subrange(0, steps.len() as int) == steps);
    let r = lemma_tree(steps, 0, none, Seq::empty(), t);
    assert(r.contains(x) <==> pairs_of(t, none, x));
    if pairs_of(t, none, x) {
        let path = choose|path: Seq<Seq<char>>|
            #[trigger] imports(t, path, x.0) && x.1 == joined(none + path, "::"@);
        assert(none + path == path);
    }
    if exists|path: Seq<Seq<char>>| #[trigger] imports(t, path, x.0) && x.1 == joined(path, "::"@) {
        let path = choose|path: Seq<Seq<char>>| #[trigger] imports(t, path, x.0) && x.1 == joined(path, "::"@);
        assert(none + path == path);
    }
}

/// A plainly imported path `a::..::z` brings `z` into scope, for the whole of it; a renamed one its
/// alias.
pub proof fn a_path_is_imported_under_its_last_segment(
    path: Seq<Seq<char>>,
    alias: Option<Seq<char>>,
) -> (t: ImportTree)
    requires
        path.len() > 0,
    ensures
        imports(
            t,
            path,
            match alias {
                Some(a) => a,
                None => path.last(),
            },
        ),
        use_pairs(steps_of(t), 0, Seq::empty(), Seq::empty()).contains(
            (
                match alias {
                    Some(a) => a,
                    None => path.last(),
                },
                joined(path, "::"@),
            ),
        ),
    decreases path.len(),
{
    let name = match alias {
        Some(a) => a,
        None => path.last(),
    };
    let t = if path.len() == 1 {
        assert(path == seq![path[0]]);
        match alias {
            Some(a) => ImportTree::Rename(path[0], a),
            None => ImportTree::Name(path[0]),
        }
    } else {
        let sub = a_path_is_imported_under_its_last_segment(path.skip(1), alias);
        ImportTree::Below(path[0], Box::new(sub))
    };
    let x = (name, joined(path, "::"@));
    let none = Seq::<Seq<char>>::empty();
    assert(none + path == path);
    lemma_pair(t, none, path, x);
    an_imported_name_stands_for_its_full_path(t, x);
    t
}

/// Different paths stand for different signals: no two have one spelling, where their segments are
/// identifiers.
pub proof fn different_imports_stand_for_different_paths(a: Seq<Seq<char>>, b: Seq<Seq<char>>)
    requires
        all_plain(a),
        all_plain(b),
        a != b,
    ensures
        joined(a, "::"@) != joined(b, "::"@),
{
    let none = Seq::<char>::empty();
    assert(joined(a, "::"@) + none == joined(a, "::"@));
    assert(joined(b, "::"@) + none == joined(b, "::"@));
    if joined(a, "::"@) == joined(b, "::"@) {
        lemma_spelling(a, none, b, none);
    }
}

proof fn lemma_pairs_behind(
    steps: Seq<UseStepV>,
    i: int,
    prefix: Seq<Seq<char>>,
    acc: Seq<(Seq<char>, Seq<char>)>,
)
    requires
        0 <= i,
    ensures
        use_pairs(steps, i, prefix, acc) == acc + use_pairs(steps, i, prefix, Seq::empty()),
    decreases steps.len() - i,
{
    let none = Seq::<(Seq<char>, Seq<char>)>::empty();
    assert(acc + none == acc);
    if i < steps.len() {
        match steps[i] {
            UseStepV::Enter(n) => lemma_pairs_behind(steps, i + 1, prefix.push(n), acc),
            UseStepV::Leave => lemma_pairs_behind(
                steps,
                i + 1,
                if prefix.len() > 0 {
                    prefix.drop_last()
                } else {
                    prefix
                },
                acc,
            ),
            UseStepV::Name(n) => {
                let y = (n, joined(prefix.push(n), "::"@));
                lemma_pairs_behind(steps, i + 1, prefix, acc.push(y));
                lemma_pairs_behind(steps, i + 1, prefix, none.push(y));
                let rest = use_pairs(steps, i + 1, prefix, none);
                assert(acc.push(y) + rest == acc + (none.push(y) + rest));
            },
            UseStepV::Rename((n, alias)) => {
                let y = (alias, joined(prefix.push(n), "::"@));
                lemma_pairs_behind(steps, i + 1, prefix, acc.push(y));
                lemma_pairs_behind(steps, i + 1, prefix, none.push(y));
                let rest = use_pairs(steps, i + 1, prefix, none);
                assert(acc.push(y) + rest == acc + (none.push(y) + rest));
            },
            UseStepV::Glob => lemma_pairs_behind(steps, i + 1, prefix, acc),
        }
    }
}

/// The imports of an item.
pub open spec fn item_imports(item: SrcItemV, x: (Seq<char>, Seq<char>)) -> bool {
    item matches SrcItemV::Use(steps) && use_pairs(steps, 0, Seq::empty(), Seq::empty()).contains(x)
}

proof fn lemma_item_uses(
    items: Seq<SrcItemV>,
    i: int,
    acc: Seq<(Seq<char>, Seq<char>)>,
    x: (Seq<char>, Seq<char>),
)
    requires
        0 <= i,
    ensures
        item_uses(items, i, acc).contains(x) <==> acc.contains(x) || exists|k: int|
            i <= k < items.len() && item_imports(#[trigger] items[k], x),
    decreases items.len() - i,
{
    if i < items.len() {
        if let SrcItemV::Use(steps) = items[i] {
            let more = use_pairs(steps, 0, Seq::empty(), Seq::empty());
            lemma_pairs_behind(steps, 0, Seq::empty(), acc);
            let next = acc + more;
            lemma_item_uses(items, i + 1, next, x);
            if acc.contains(x) {
                let m = choose|m: int| 0 <= m < acc.len() && acc[m] == x;
                assert(next[m] == x);
            }
            if more.contains(x) {
                let m = choose|m: int| 0 <= m < more.len() && more[m] == x;
                assert(next[acc.len() + m] == x);
            }
            if next.contains(x) && !acc.contains(x) {
                let m = choose|m: int| 0 <= m < next.len() && next[m] == x;
                if m < acc.len() {
                    assert(acc[m] == x);
                }
                assert(more[m - acc.len()] == x);
            }
            assert(item_imports(items[i], x) <==> more.contains(x));
        } else {
            lemma_item_uses(items, i + 1, acc, x);
            assert(!item_imports(items[i], x));
        }
    }
}

/// What is imported in a file is what its `use` items import, at any depth, and nothing else.
pub proof fn the_imports_of_a_file_are_those_of_its_use_items(
    items: Seq<SrcItemV>,
    x: (Seq<char>, Seq<char>),
)
    ensures
        item_uses(items, 0, Seq::empty()).contains(x) <==> exists|k: int|
            0 <= k < items.len() && item_imports(#[trigger] items[k], x),
{
    lemma_item_uses(items, 0, Seq::empty(), x);
}

proof fn lemma_no_open(segs: Seq<Seq<char>>)
    requires
        all_plain(segs),
    ensures
        forall|i: int| 0 <= i < joined(segs, "::"@).len() ==> #[trigger] joined(segs, "::"@)[i] != '[',
    decreases segs.len(),
{
    reveal_strlit("::");
    if segs.len() > 1 {
        let front = segs.drop_last();
        assert forall|k: int| 0 <= k < front.len() implies plain(#[trigger] front[k]) by {
            assert(front[k] == segs[k]);
        }
        lemma_no_open(front);
        let last = segs[segs.len() - 1];
        assert(plain(last));
        let a = joined(front, "::"@);
        let t = joined(segs, "::"@);
        assert(t == a + "::"@ + last);
        assert forall|i: int| 0 <= i < t.len() implies #[trigger] t[i] != '[' by {
            if i < a.len() {
                assert(t[i] == a[i]);
            } else if i < a.len() + 2 {
                assert(t[i] == "::"@[i - a.len()]);
            } else {
                assert(t[i] == last[i - a.len() - 2]);
            }
        }
    } else if segs.len() == 1 {
        assert(plain(segs[0]));
    }
}

proof fn lemma_parts(segs: Seq<Seq<char>>, index: Seq<char>)
    requires
        segs.len() > 0,
        all_plain(segs),
        index.len() == 0 || index[0] == '[',
    ensures
        path_parts(joined(segs, "::"@) + index) == (segs, index),
{
    reveal_strlit("[");
    reveal_strlit("");
    let head = joined(segs, "::"@);
    let path = head + index;
    let none = Seq::<char>::empty();
    lemma_no_open(segs);
    lemma_split_back(none, segs);
    assert(none + head == head);
    lemma_find_from(path, "["@, 0);
    assert forall|j: int| 0 <= j < head.len() implies !stands_at(path, j, "["@) by {
        if stands_at(path, j, "["@) {
            assert(path.subrange(j, j + 1)[0] == path[j]);
            assert(head[j] == path[j]);
        }
    }
    if index.len() == 0 {
        assert(path == head);
        if let Some(k) = find(path, "["@) {
            assert(k + 1 <= path.len());
        }
    } else {
        let k = head.len() as int;
        assert(path.subrange(k, k + 1) == "["@);
        assert(stands_at(path, k, "["@));
        assert(find(path, "["@) == Some(k)) by {
            match find(path, "["@) {
                Some(m) => {
                    if m < k {
                        assert(!stands_at(path, m, "["@));
                    }
                },
                None => {},
            }
        }
        assert(path.subrange(0, k) == head);
        assert(path.subrange(k, path.len() as int) == index);
    }
}

/// The last of the imports under a name has this path.
pub open spec fn last_import(
    pairs: Seq<(Seq<char>, Seq<char>)>,
    name: Seq<char>,
    full: Seq<char>,
) -> bool {
    exists|j: int|
        0 <= j < pairs.len() && #[trigger] pairs[j] == (name, full) && forall|m: int|
            j < m < pairs.len() ==> (#[trigger] pairs[m]).0 != name
}

/// No import has the name.
pub open spec fn not_imported(pairs: Seq<(Seq<char>, Seq<char>)>, name: Seq<char>) -> bool {
    forall|j: int| 0 <= j < pairs.len() ==> (#[trigger] pairs[j]).0 != name
}

proof fn lemma_looked_up(pairs: Seq<(Seq<char>, Seq<char>)>, name: Seq<char>, n: int, j: int)
    requires
        0 <= j < n <= pairs.len(),
        pairs[j].0 == name,
        forall|m: int| j < m < n ==> (#[trigger] pairs[m]).0 != name,
    ensures
        looked_up(pairs, name, n) == Some(pairs[j].1),
    decreases n,
{
    if j < n - 1 {
        lemma_looked_up(pairs, name, n - 1, j);
    }
}

proof fn lemma_not_looked_up(pairs: Seq<(Seq<char>, Seq<char>)>, name: Seq<char>, n: int)
    requires
        0 <= n <= pairs.len(),
        not_imported(pairs, name),
    ensures
        looked_up(pairs, name, n) is None,
    decreases n,
{
    if n > 0 {
        lemma_not_looked_up(pairs, name, n - 1);
    }
}

/// A signal path whose first segment is imported is that import's full path, with its other
/// segments and its index behind it, and it is not relative. A later import of a name wins.
pub proof fn an_imported_head_is_spelled_out(
    segs: Seq<Seq<char>>,
    index: Seq<char>,
    aliases: Seq<(Seq<char>, Seq<char>)>,
    full: Seq<char>,
)
    requires
        segs.len() > 0,
        all_plain(segs),
        segs[0] != "self"@,
        index.len() == 0 || index[0] == '[',
        last_import(aliases, segs[0], full),
    ensures
        resolved_path(joined(segs, "::"@) + index, aliases).0 == (if segs.len() == 1 {
            full + index
        } else {
            full + "::"@ + joined(segs.skip(1), "::"@) + index
        }),
        !resolved_path(joined(segs, "::"@) + index, aliases).1,
{
    lemma_parts(segs, index);
    let j = choose|j: int|
        0 <= j < aliases.len() && #[trigger] aliases[j] == (segs[0], full) && forall|m: int|
            j < m < aliases.len() ==> (#[trigger] aliases[m]).0 != segs[0];
    lemma_looked_up(aliases, segs[0], aliases.len() as int, j);
    let all = segs.update(0, full);
    if segs.len() > 1 {
        lemma_joined_front(all);
        assert(all.drop_first() == segs.skip(1));
    }
}

/// A signal path whose first segment nothing imports stays as it is. It is relative to its module
/// where it starts with `super`, where it is one segment other than `crate`, and where it is two of
/// which the first is not `crate` and starts with a lower-case letter.
pub proof fn a_path_that_nothing_imports_stays(
    segs: Seq<Seq<char>>,
    index: Seq<char>,
    aliases: Seq<(Seq<char>, Seq<char>)>,
)
    requires
        segs.len() > 0,
        all_plain(segs),
        segs[0] != "self"@,
        index.len() == 0 || index[0] == '[',
        not_imported(aliases, segs[0]),
    ensures
        resolved_path(joined(segs, "::"@) + index, aliases).0 == joined(segs, "::"@) + index,
        resolved_path(joined(segs, "::"@) + index, aliases).1 <==> segs[0] == "super"@ || (segs[0]
            != "crate"@ && (segs.len() == 1 || (segs.len() == 2 && lowercase(segs[0][0])))),
{
    lemma_parts(segs, index);
    lemma_not_looked_up(aliases, segs[0], aliases.len() as int);
    assert(plain(segs[0]));
}

/// A signal path behind `self::` is the path without it; it is relative unless it is imported.
pub proof fn a_path_behind_self_is_relative(
    segs: Seq<Seq<char>>,
    index: Seq<char>,
    aliases: Seq<(Seq<char>, Seq<char>)>,
)
    requires
        segs.len() > 0,
        all_plain(segs),
        index.len() == 0 || index[0] == '[',
        not_imported(aliases, segs[0]),
    ensures
        resolved_path("self"@ + "::"@ + joined(segs, "::"@) + index, aliases) == (
            joined(segs, "::"@) + index,
            true,
        ),
{
    reveal_strlit("self");
    let all = seq!["self"@] + segs;
    assert forall|k: int| 0 <= k < all.len() implies plain(#[trigger] all[k]) by {
        if k > 0 {
            assert(all[k] == segs[k - 1]);
        }
    }
    lemma_joined_front(all);
    assert(all.drop_first() == segs);
    lemma_parts(all, index);
    assert(all.subrange(1, all.len() as int) == segs);
    lemma_not_looked_up(aliases, segs[0], aliases.len() as int);
}

/// What is found in a file is each access of its `#[dataflow]` functions, with the function, verb,
/// direction and predicates it has there, under the file's module, its path resolved against the
/// imports of the file.
pub proof fn a_discovery_is_an_access_with_its_path_resolved(
    items: Seq<SrcItemV>,
    origin: Seq<char>,
    k: int,
)
    requires
        0 <= k < item_accesses(items, 0).len(),
    ensures
        item_discoveries(items, origin).len() == item_accesses(items, 0).len(),
        item_discoveries(items, origin)[k].module == module_name(origin),
        item_discoveries(items, origin)[k].access.func == item_accesses(items, 0)[k].func,
        item_discoveries(items, origin)[k].access.verb == item_accesses(items, 0)[k].verb,
        item_discoveries(items, origin)[k].access.write == item_accesses(items, 0)[k].write,
        item_discoveries(items, origin)[k].access.cfgs == item_accesses(items, 0)[k].cfgs,
        (
            item_discoveries(items, origin)[k].access.path,
            item_discoveries(items, origin)[k].relative,
        ) == resolved_path(item_accesses(items, 0)[k].path, item_uses(items, 0, Seq::empty())),
{
}

/// Where a file imports a path once under a name, an access of that name is found as one of the
/// full path, in its own direction.
pub proof fn an_imported_signal_is_found_under_its_full_path(
    items: Seq<SrcItemV>,
    origin: Seq<char>,
    k: int,
    u: int,
    t: ImportTree,
    path: Seq<Seq<char>>,
    name: Seq<char>,
)
    requires
        0 <= k < item_accesses(items, 0).len(),
        item_accesses(items, 0)[k].path == name,
        plain(name),
        name != "self"@,
        0 <= u < items.len(),
        items[u] == SrcItemV::Use(steps_of(t)),
        imports(t, path, name),
        forall|v: int, other: Seq<char>|
            0 <= v < items.len() && #[trigger] item_imports(items[v], (name, other)) ==> other == joined(
                path,
                "::"@,
            ),
    ensures
        item_discoveries(items, origin)[k].access.path == joined(path, "::"@),
        item_discoveries(items, origin)[k].access.write == item_accesses(items, 0)[k].write,
        !item_discoveries(items, origin)[k].relative,
{
    let aliases = item_uses(items, 0, Seq::empty());
    let full = joined(path, "::"@);
    let x = (name, full);
    let none = Seq::<Seq<char>>::empty();
    assert(none + path == path);
    lemma_pair(t, none, path, x);
    an_imported_name_stands_for_its_full_path(t, x);
    assert(item_imports(items[u], x));
    the_imports_of_a_file_are_those_of_its_use_items(items, x);
    let j = lemma_last_of(aliases, name, aliases.len() as int);
    let y = aliases[j];
    assert(aliases.contains(y));
    the_imports_of_a_file_are_those_of_its_use_items(items, y);
    let v = choose|v: int| 0 <= v < items.len() && item_imports(#[trigger] items[v], y);
    assert(item_imports(items[v], (name, y.1)));
    assert(aliases[j] == (name, full));
    let segs = seq![name];
    assert forall|i: int| 0 <= i < segs.len() implies plain(#[trigger] segs[i]) by {}
    assert(last_import(aliases, segs[0], full));
    let index = Seq::<char>::empty();
    assert(joined(segs, "::"@) + index == name);
    assert(full + index == full);
    an_imported_head_is_spelled_out(segs, index, aliases, full);
}

/// The last of the first `n` pairs with a name that some pair has.
proof fn lemma_last_of(pairs: Seq<(Seq<char>, Seq<char>)>, name: Seq<char>, n: int) -> (j: int)
    requires
        0 <= n <= pairs.len(),
        exists|m: int| 0 <= m < n && (#[trigger] pairs[m]).0 == name,
    ensures
        0 <= j < n,
        pairs[j].0 == name,
        forall|m: int| j < m < n ==> (#[trigger] pairs[m]).0 != name,
    decreases n,
{
    if pairs[n - 1].0 == name {
        n - 1
    } else {
        lemma_last_of(pairs, name, n - 1)
    }
}

} // verus!
