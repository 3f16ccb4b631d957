//! The labels of signals: no two signals have the same.

use vstd::prelude::*;

use crate::ast::{path_string, signal_name, ItemV};
use crate::coupling::{
    couplings, each_signal_is_listed_once, has_key, key_of, keys_from, label_from, label_of,
    labelled, longest_from, nonempty_from, segments, short_name, signal_keys, stands_alone,
    CouplingV, SignalKeyV,
};
use crate::rust::PathTextV;
use crate::text::{joined, pieces, split_from, stands_at};

verus! {

/// A segment of a path: not empty, and without the characters that stand between segments and in
/// front of an index.
pub open spec fn plain(seg: Seq<char>) -> bool {
    seg.len() > 0 && forall|i: int| 0 <= i < seg.len() ==> #[trigger] seg[i] != ':' && seg[i] != '['
}

/// The segments of a path.
pub open spec fn all_plain(segs: Seq<Seq<char>>) -> bool {
    forall|i: int| 0 <= i < segs.len() ==> plain(#[trigger] segs[i])
}

/// Nothing, or an index in brackets.
pub open spec fn is_index(x: Seq<char>) -> bool {
    x.len() == 0 || x[0] == '['
}

/// A signal spelled by its segments and its index, perhaps behind `::`.
pub open spec fn well_spelled(k: SignalKeyV) -> bool {
    let bare = joined(k.segs, "::"@) + k.index;
    &&& all_plain(k.segs)
    &&& is_index(k.index)
    &&& k.key == bare || k.key == "::"@ + bare
}

pub proof fn lemma_joined_front(segs: Seq<Seq<char>>)
    requires
        segs.len() >= 2,
    ensures
        joined(segs, "::"@) == segs[0] + "::"@ + joined(segs.drop_first(), "::"@),
    decreases segs.len(),
{
    let sep = "::"@;
    let rest = segs.drop_first();
    if segs.len() == 2 {
        assert(segs.drop_last().len() == 1);
        assert(joined(segs.drop_last(), sep) == segs[0]);
        assert(joined(rest, sep) == segs[1]);
    } else {
        lemma_joined_front(segs.drop_last());
        assert(segs.drop_last().drop_first() == rest.drop_last());
        assert(joined(rest, sep) == joined(rest.drop_last(), sep) + sep + rest.last());
        assert(joined(segs, sep) == segs[0] + sep + joined(rest.drop_last(), sep) + sep
            + segs.last());
        assert(segs[0] + sep + joined(rest.drop_last(), sep) + sep + segs.last() == segs[0] + sep + (
        joined(rest.drop_last(), sep) + sep + rest.last()));
    }
}

/// What follows the first segment: the rest behind `::`, or the index.
spec fn tail(segs: Seq<Seq<char>>, x: Seq<char>) -> Seq<char> {
    if segs.len() == 1 {
        x
    } else {
        "::"@ + (joined(segs.drop_first(), "::"@) + x)
    }
}

proof fn lemma_tail(segs: Seq<Seq<char>>, x: Seq<char>)
    requires
        segs.len() > 0,
        is_index(x),
    ensures
        joined(segs, "::"@) + x == segs[0] + tail(segs, x),
        tail(segs, x).len() == 0 || tail(segs, x)[0] == ':' || tail(segs, x)[0] == '[',
{
    reveal_strlit("::");
    if segs.len() > 1 {
        lemma_joined_front(segs);
        assert(segs[0] + "::"@ + joined(segs.drop_first(), "::"@) + x == segs[0] + ("::"@ + (joined(
            segs.drop_first(),
            "::"@,
        ) + x)));
    }
}

/// A text is spelled by one list of segments and one index only.
pub proof fn lemma_spelling(a: Seq<Seq<char>>, x: Seq<char>, b: Seq<Seq<char>>, y: Seq<char>)
    requires
        all_plain(a),
        all_plain(b),
        is_index(x),
        is_index(y),
        joined(a, "::"@) + x == joined(b, "::"@) + y,
    ensures
        a == b,
        x == y,
    decreases a.len(),
{
    reveal_strlit("::");
    let t = joined(a, "::"@) + x;
    if a.len() == 0 && b.len() == 0 {
        assert(joined(a, "::"@) + x == x);
        assert(joined(b, "::"@) + y == y);
    } else if a.len() == 0 {
        lemma_tail(b, y);
        assert(plain(b[0]));
        assert(t == x);
        assert(t[0] == b[0][0]);
    } else if b.len() == 0 {
        lemma_tail(a, x);
        assert(plain(a[0]));
        assert(t == y);
        assert(t[0] == a[0][0]);
    } else {
        lemma_tail(a, x);
        lemma_tail(b, y);
        let p = a[0];
        let q = b[0];
        assert(plain(p) && plain(q));
        if p.len() < q.len() {
            assert(t[p.len() as int] == q[p.len() as int]);
            assert(t[p.len() as int] == tail(a, x)[0]);
        } else if q.len() < p.len() {
            assert(t[q.len() as int] == p[q.len() as int]);
            assert(t[q.len() as int] == tail(b, y)[0]);
        }
        assert(p.len() == q.len());
        assert(p == t.take(p.len() as int));
        assert(q == t.take(q.len() as int));
        assert(tail(a, x) == t.skip(p.len() as int));
        assert(tail(b, y) == t.skip(q.len() as int));
        if a.len() == 1 && b.len() == 1 {
            assert(a == seq![p]);
            assert(b == seq![q]);
        } else if a.len() == 1 {
            assert(tail(b, y)[0] == ':');
        } else if b.len() == 1 {
            assert(tail(a, x)[0] == ':');
        } else {
            let c = a.drop_first();
            let d = b.drop_first();
            assert(joined(c, "::"@) + x == tail(a, x).skip(2));
            assert(joined(d, "::"@) + y == tail(b, y).skip(2));
            assert(all_plain(c)) by {
                assert forall|i: int| 0 <= i < c.len() implies plain(#[trigger] c[i]) by {
                    assert(c[i] == a[i + 1]);
                }
            }
            assert(all_plain(d)) by {
                assert forall|i: int| 0 <= i < d.len() implies plain(#[trigger] d[i]) by {
                    assert(d[i] == b[i + 1]);
                }
            }
            lemma_spelling(c, x, d, y);
            assert(a == seq![p] + c);
            assert(b == seq![q] + d);
        }
    }
}

/// How many segments the label of signal `i` has, of `n` or more; one more than the longest for
/// its full name.
proof fn lemma_level(keys: Seq<SignalKeyV>, i: int, n: int, longest: int) -> (m: int)
    requires
        n <= longest + 1,
    ensures
        n <= m <= longest + 1,
        m <= longest ==> stands_alone(keys, i, m) && label_from(keys, i, n, longest) == short_name(
            keys[i],
            m,
        ),
        m > longest ==> label_from(keys, i, n, longest) == keys[i].key,
    decreases longest + 1 - n,
{
    if n > longest || stands_alone(keys, i, n) {
        n
    } else {
        lemma_level(keys, i, n + 1, longest)
    }
}

/// The last `n` segments.
spec fn last_of(k: SignalKeyV, n: int) -> Seq<Seq<char>> {
    k.segs.skip(
        if k.segs.len() > n {
            k.segs.len() - n
        } else {
            0
        },
    )
}

proof fn lemma_last(k: SignalKeyV, n: int)
    requires
        all_plain(k.segs),
        0 <= n,
    ensures
        all_plain(last_of(k, n)),
        last_of(k, n).len() == if k.segs.len() > n {
            n
        } else {
            k.segs.len() as int
        },
        k.segs.len() <= n ==> last_of(k, n) == k.segs,
{
    let from = if k.segs.len() > n {
        k.segs.len() - n
    } else {
        0
    };
    assert forall|i: int| 0 <= i < last_of(k, n).len() implies plain(#[trigger] last_of(k, n)[i]) by {
        assert(last_of(k, n)[i] == k.segs[i + from]);
    }
}

/// A label of `m` segments is no label of more, nor the full name of another signal.
proof fn lemma_apart(keys: Seq<SignalKeyV>, i: int, j: int, m: int, other: Seq<char>, k: int)
    requires
        0 <= i < keys.len(),
        0 <= j < keys.len(),
        i != j,
        well_spelled(keys[i]),
        well_spelled(keys[j]),
        1 <= m < k,
        stands_alone(keys, i, m),
        other == short_name(keys[j], k) || other == keys[j].key,
    ensures
        short_name(keys[i], m) != other,
{
    reveal_strlit("::");
    lemma_last(keys[i], m);
    lemma_last(keys[j], m);
    lemma_last(keys[j], k);
    let mine = last_of(keys[i], m);
    let x = keys[i].index;
    let y = keys[j].index;
    assert(short_name(keys[j], m) != short_name(keys[i], m));
    if short_name(keys[i], m) == other {
        if other == short_name(keys[j], k) {
            lemma_spelling(mine, x, last_of(keys[j], k), y);
        } else if other == joined(keys[j].segs, "::"@) + y {
            lemma_spelling(mine, x, keys[j].segs, y);
        } else if mine.len() == 0 {
            assert(joined(mine, "::"@) + x == x);
            assert(other[0] == ':');
        } else {
            lemma_tail(mine, x);
            assert(plain(mine[0]));
            assert(other[0] == mine[0][0]);
            assert(other[0] == ':');
        }
    }
}

proof fn lemma_longest(keys: Seq<SignalKeyV>, i: int, acc: int)
    ensures
        longest_from(keys, i, acc) >= acc,
    decreases keys.len() - i,
{
    if 0 <= i < keys.len() {
        lemma_longest(
            keys,
            i + 1,
            if keys[i].segs.len() > acc {
                keys[i].segs.len() as int
            } else {
                acc
            },
        );
    }
}

proof fn lemma_labels_differ(keys: Seq<SignalKeyV>, full: bool, i: int, j: int)
    requires
        0 <= i < keys.len(),
        0 <= j < keys.len(),
        i != j,
        well_spelled(keys[i]),
        well_spelled(keys[j]),
        keys[i].key != keys[j].key,
    ensures
        label_of(keys, i, full) != label_of(keys, j, full),
{
    if !full {
        let longest = longest_from(keys, 0, 0);
        lemma_longest(keys, 0, 0);
        let m = lemma_level(keys, i, 1, longest);
        let k = lemma_level(keys, j, 1, longest);
        if m < k {
            lemma_apart(keys, i, j, m, label_of(keys, j, false), k);
        } else if k < m {
            lemma_apart(keys, j, i, k, label_of(keys, i, false), m);
        } else if m <= longest {
            assert(short_name(keys[j], m) != short_name(keys[i], m));
        }
    }
}

proof fn lemma_no_separator(s: Seq<char>, start: int, i: int, e: int)
    requires
        0 <= i <= e <= s.len(),
        forall|k: int| i <= k < e ==> #[trigger] s[k] != ':',
    ensures
        split_from(s, "::"@, start, i) == split_from(s, "::"@, start, e),
    decreases e - i,
{
    reveal_strlit("::");
    if i < e {
        if stands_at(s, i, "::"@) {
            assert(s.subrange(i, i + 2)[0] == s[i]);
        }
        lemma_no_separator(s, start, i + 1, e);
    }
}

pub proof fn lemma_split_back(before: Seq<char>, segs: Seq<Seq<char>>)
    requires
        segs.len() > 0,
        all_plain(segs),
    ensures
        split_from(
            before + joined(segs, "::"@),
            "::"@,
            before.len() as int,
            before.len() as int,
        ) == segs,
    decreases segs.len(),
{
    reveal_strlit("::");
    let s = before + joined(segs, "::"@);
    let start = before.len() as int;
    let end = start + segs[0].len();
    lemma_tail(segs, Seq::empty());
    let rest = tail(segs, Seq::empty());
    assert(joined(segs, "::"@) + Seq::<char>::empty() == joined(segs, "::"@));
    assert(s == before + segs[0] + rest);
    assert(plain(segs[0]));
    assert forall|k: int| start <= k < end implies #[trigger] s[k] != ':' by {
        assert(s[k] == segs[0][k - start]);
    }
    lemma_no_separator(s, start, start, end);
    assert(s.subrange(start, end) == segs[0]);
    if segs.len() == 1 {
        assert(s.len() == end);
        assert(segs == seq![segs[0]]);
    } else {
        let more = segs.drop_first();
        assert(rest == "::"@ + joined(more, "::"@)) by {
            assert(joined(more, "::"@) + Seq::<char>::empty() == joined(more, "::"@));
        }
        assert(s.subrange(end, end + 2) == "::"@);
        assert(stands_at(s, end, "::"@));
        let upto = before + segs[0] + "::"@;
        assert(s == upto + joined(more, "::"@));
        assert(all_plain(more)) by {
            assert forall|i: int| 0 <= i < more.len() implies plain(#[trigger] more[i]) by {
                assert(more[i] == segs[i + 1]);
            }
        }
        lemma_split_back(upto, more);
        assert(segs == seq![segs[0]] + more);
    }
}

proof fn lemma_nonempty(segs: Seq<Seq<char>>, i: int, acc: Seq<Seq<char>>)
    requires
        0 <= i <= segs.len(),
        all_plain(segs),
    ensures
        nonempty_from(segs, i, acc) == acc + segs.skip(i),
    decreases segs.len() - i,
{
    if i < segs.len() {
        assert(plain(segs[i]));
        lemma_nonempty(segs, i + 1, acc.push(segs[i]));
        assert(acc.push(segs[i]) + segs.skip(i + 1) == acc + segs.skip(i));
    } else {
        assert(acc + segs.skip(i) == acc);
    }
}

proof fn lemma_segments(p: PathTextV)
    requires
        p.segments.len() > 0,
        all_plain(p.segments),
    ensures
        segments(path_string(p)) == p.segments,
{
    reveal_strlit("::");
    let s = path_string(p);
    let none = Seq::<Seq<char>>::empty();
    lemma_nonempty(p.segments, 0, none);
    assert(none + p.segments.skip(0) == p.segments);
    if p.leading {
        assert(s == "::"@ + joined(p.segments, "::"@));
        assert(s.subrange(0, 2) == "::"@);
        assert(stands_at(s, 0, "::"@));
        lemma_split_back("::"@, p.segments);
        let all = seq![s.subrange(0, 0)] + p.segments;
        assert(pieces(s, "::"@) == all);
        assert(nonempty_from(all, 0, none) == nonempty_from(all, 1, none));
        lemma_nonempty_behind(all, p.segments, 0, none);
    } else {
        assert(""@ + joined(p.segments, "::"@) == joined(p.segments, "::"@)) by {
            reveal_strlit("");
        }
        assert(Seq::<char>::empty() + s == s);
        lemma_split_back(Seq::empty(), p.segments);
    }
}

/// The list without its first text.
proof fn lemma_nonempty_behind(
    all: Seq<Seq<char>>,
    segs: Seq<Seq<char>>,
    i: int,
    acc: Seq<Seq<char>>,
)
    requires
        0 <= i <= segs.len(),
        all.len() == segs.len() + 1,
        forall|k: int| 0 <= k < segs.len() ==> #[trigger] segs[k] == all[k + 1],
    ensures
        nonempty_from(all, i + 1, acc) == nonempty_from(segs, i, acc),
    decreases segs.len() - i,
{
    if i < segs.len() {
        lemma_nonempty_behind(
            all,
            segs,
            i + 1,
            if segs[i].len() > 0 {
                acc.push(segs[i])
            } else {
                acc
            },
        );
    }
}

/// The paths of the signals that couplings name are spelled by plain segments.
pub open spec fn plain_paths(list: Seq<CouplingV>) -> bool {
    forall|i: int|
        0 <= i < list.len() ==> (#[trigger] list[i]).sig.path.segments.len() > 0 && all_plain(
            list[i].sig.path.segments,
        )
}

proof fn lemma_key_spelled(c: CouplingV)
    requires
        c.sig.path.segments.len() > 0,
        all_plain(c.sig.path.segments),
    ensures
        well_spelled(key_of(c.sig)),
{
    reveal_strlit("::");
    reveal_strlit("[");
    reveal_strlit("");
    lemma_segments(c.sig.path);
    let k = key_of(c.sig);
    let name = joined(k.segs, "::"@);
    assert(signal_name(c.sig) == path_string(c.sig.path) + k.index);
    assert(is_index(k.index));
    if c.sig.path.leading {
        assert("::"@ + name + k.index == "::"@ + (name + k.index));
    } else {
        assert(""@ + name == name);
    }
}

proof fn lemma_keys_spelled(list: Seq<CouplingV>, i: int, acc: Seq<SignalKeyV>)
    requires
        0 <= i,
        plain_paths(list),
        forall|k: int| 0 <= k < acc.len() ==> well_spelled(#[trigger] acc[k]),
    ensures
        forall|k: int|
            0 <= k < keys_from(list, i, acc).len() ==> well_spelled(
                #[trigger] keys_from(list, i, acc)[k],
            ),
    decreases list.len() - i,
{
    if i < list.len() {
        let k = key_of(list[i].sig);
        lemma_key_spelled(list[i]);
        let next = if has_key(acc, k.key) {
            acc
        } else {
            acc.push(k)
        };
        lemma_keys_spelled(list, i + 1, next);
        assert(keys_from(list, i, acc) == keys_from(list, i + 1, next));
    }
}

/// Two different signals never have the same label, in full or shortened.
pub proof fn two_signals_never_share_a_label(items: Seq<ItemV>, full: bool, a: int, b: int)
    requires
        plain_paths(couplings(items)),
        0 <= a < b < signal_keys(items).len(),
    ensures
        labelled(signal_keys(items), full)[a].1 != labelled(signal_keys(items), full)[b].1,
{
    let list = couplings(items);
    let keys = signal_keys(items);
    lemma_keys_spelled(list, 0, Seq::empty());
    assert(well_spelled(keys[a]) && well_spelled(keys[b]));
    if list.len() > 0 {
        each_signal_is_listed_once(items, a, b, 0);
    }
    lemma_labels_differ(keys, full, a, b);
}

} // verus!
