//! The order of texts, and sorting by it.

use vstd::prelude::*;

use crate::list::Dup;
use crate::text::{chars_of, same};

verus! {

/// `a[i..]` comes before `b[i..]`, character by character.
pub open spec fn precedes_from(a: Seq<char>, b: Seq<char>, i: int) -> bool
    decreases b.len() - i,
{
    if i >= b.len() {
        false
    } else if i >= a.len() {
        true
    } else if a[i] == b[i] {
        precedes_from(a, b, i + 1)
    } else {
        a[i] < b[i]
    }
}

/// `a` comes before `b`.
pub open spec fn precedes(a: Seq<char>, b: Seq<char>) -> bool {
    precedes_from(a, b, 0)
}

/// Whether `a` comes before `b`.
pub fn comes_before(a: &str, b: &str) -> (r: bool)
    ensures
        r == precedes(a@, b@),
{
    let x = chars_of(a);
    let y = chars_of(b);
    let mut i: usize = 0;
    while i < y.len()
        invariant
            i <= y@.len(),
            i <= x@.len(),
            x@ == a@,
            y@ == b@,
            precedes(a@, b@) == precedes_from(a@, b@, i as int),
        decreases y@.len() - i,
    {
        if i >= x.len() {
            return true;
        }
        if x[i] != y[i] {
            return x[i] < y[i];
        }
        i = i + 1;
    }
    false
}

/// No text comes before itself, and of two texts that agree up to `i` and then differ one comes
/// before the other.
pub proof fn lemma_precedes_total(a: Seq<char>, b: Seq<char>, i: int)
    requires
        0 <= i <= a.len(),
        i <= b.len(),
        forall|k: int| 0 <= k < i ==> a[k] == b[k],
    ensures
        precedes_from(a, b, i) && precedes_from(b, a, i) ==> false,
        !precedes_from(a, b, i) && !precedes_from(b, a, i) ==> a == b,
    decreases a.len() - i,
{
    if i < a.len() && i < b.len() {
        if a[i] == b[i] {
            lemma_precedes_total(a, b, i + 1);
        }
    } else if a.len() == b.len() {
        assert(a == b);
    }
}

pub proof fn lemma_precedes_transitive(a: Seq<char>, b: Seq<char>, c: Seq<char>, i: int)
    requires
        0 <= i <= a.len(),
        i <= b.len(),
        i <= c.len(),
        precedes_from(a, b, i),
        precedes_from(b, c, i),
    ensures
        precedes_from(a, c, i),
    decreases c.len() - i,
{
    if i < a.len() && i < b.len() && i < c.len() {
        if a[i] == b[i] && b[i] == c[i] {
            lemma_precedes_transitive(a, b, c, i + 1);
        }
    }
}

/// The order of texts is strict and total: of two texts exactly one comes first, or they are the
/// same.
pub proof fn text_order_is_total(a: Seq<char>, b: Seq<char>)
    ensures
        !(precedes(a, b) && precedes(b, a)),
        precedes(a, b) || precedes(b, a) || a == b,
        !precedes(a, a),
{
    lemma_precedes_total(a, b, 0);
    lemma_precedes_total(a, a, 0);
}

/// The order of texts is transitive.
pub proof fn text_order_is_transitive(a: Seq<char>, b: Seq<char>, c: Seq<char>)
    requires
        precedes(a, b),
        precedes(b, c),
    ensures
        precedes(a, c),
{
    lemma_precedes_transitive(a, b, c, 0);
}

/// Every text comes before those after it.
pub open spec fn ascending(v: Seq<Seq<char>>) -> bool {
    forall|i: int, j: int| 0 <= i < j < v.len() ==> precedes(#[trigger] v[i], #[trigger] v[j])
}

/// The first position from `i` on whose text does not come before `x`.
pub open spec fn slot_from(v: Seq<Seq<char>>, x: Seq<char>, i: int) -> int
    decreases v.len() - i,
{
    if i < 0 || i >= v.len() || !precedes(v[i], x) {
        i
    } else {
        slot_from(v, x, i + 1)
    }
}

/// The ascending `v` with `x` in its place; `v` itself where it holds `x`.
pub open spec fn placed(v: Seq<Seq<char>>, x: Seq<char>) -> Seq<Seq<char>> {
    let at = slot_from(v, x, 0);
    if at < v.len() && v[at] == x {
        v
    } else {
        v.insert(at, x)
    }
}

/// The texts of `list` from number `i` on, placed into the ascending `acc`.
pub open spec fn ordered_from(list: Seq<Seq<char>>, i: int, acc: Seq<Seq<char>>) -> Seq<Seq<char>>
    decreases list.len() - i,
{
    if i < 0 || i >= list.len() {
        acc
    } else {
        ordered_from(list, i + 1, placed(acc, list[i]))
    }
}

/// The texts of `list` in ascending order, each once.
pub open spec fn ordered(list: Seq<Seq<char>>) -> Seq<Seq<char>> {
    ordered_from(list, 0, Seq::empty())
}

fn place(v: &mut Vec<String>, x: &String)
    ensures
        final(v).deep_view() == placed(old(v).deep_view(), x@),
{
    let mut i: usize = 0;
    let ghost d = v.deep_view();
    while i < v.len() && comes_before(v[i].as_str(), x.as_str())
        invariant
            i <= v@.len(),
            v@ == old(v)@,
            d == v.deep_view(),
            slot_from(d, x@, 0) == slot_from(d, x@, i as int),
        decreases v@.len() - i,
    {
        i = i + 1;
    }
    if i < v.len() && same(v[i].as_str(), x.as_str()) {
        return;
    }
    v.insert(i, x.dup());
    assert(v.deep_view() == d.insert(i as int, x@));
}

/// Sorts texts, keeping each once.
pub fn in_order(list: &Vec<String>) -> (r: Vec<String>)
    ensures
        r.deep_view() == ordered(list.deep_view()),
{
    let mut out: Vec<String> = Vec::new();
    assert(out.deep_view() == Seq::<Seq<char>>::empty());
    let mut i: usize = 0;
    while i < list.len()
        invariant
            i <= list@.len(),
            ordered(list.deep_view()) == ordered_from(list.deep_view(), i as int, out.deep_view()),
        decreases list@.len() - i,
    {
        place(&mut out, &list[i]);
        i = i + 1;
    }
    out
}

proof fn lemma_slot(v: Seq<Seq<char>>, x: Seq<char>, i: int)
    requires
        0 <= i <= v.len(),
        forall|j: int| 0 <= j < i ==> precedes(#[trigger] v[j], x),
    ensures
        i <= slot_from(v, x, i) <= v.len(),
        forall|j: int| 0 <= j < slot_from(v, x, i) ==> precedes(#[trigger] v[j], x),
        slot_from(v, x, i) < v.len() ==> !precedes(v[slot_from(v, x, i)], x),
    decreases v.len() - i,
{
    if i < v.len() && precedes(v[i], x) {
        lemma_slot(v, x, i + 1);
    }
}

proof fn lemma_placed(v: Seq<Seq<char>>, x: Seq<char>)
    requires
        ascending(v),
    ensures
        ascending(placed(v, x)),
        forall|y: Seq<char>| #[trigger] placed(v, x).contains(y) <==> v.contains(y) || y == x,
{
    lemma_slot(v, x, 0);
    let at = slot_from(v, x, 0);
    if at < v.len() && v[at] == x {
        assert(v.contains(x));
    } else {
        let w = v.insert(at, x);
        assert forall|i: int, j: int| 0 <= i < j < w.len() implies precedes(
            #[trigger] w[i],
            #[trigger] w[j],
        ) by {
            if i == at {
                text_order_is_total(v[at], x);
                if j - 1 > at {
                    text_order_is_transitive(x, v[at], v[j - 1]);
                }
            } else if j == at {
            } else {
                let a = if i < at {
                    i
                } else {
                    i - 1
                };
                let b = if j < at {
                    j
                } else {
                    j - 1
                };
                assert(w[i] == v[a] && w[j] == v[b]);
            }
        }
        assert forall|y: Seq<char>| #[trigger] w.contains(y) <==> v.contains(y) || y == x by {
            if v.contains(y) {
                let k = choose|k: int| 0 <= k < v.len() && v[k] == y;
                if k < at {
                    assert(w[k] == y);
                } else {
                    assert(w[k + 1] == y);
                }
            }
            if y == x {
                assert(w[at] == y);
            }
            if w.contains(y) && y != x {
                let k = choose|k: int| 0 <= k < w.len() && w[k] == y;
                if k < at {
                    assert(v[k] == y);
                } else {
                    assert(v[k - 1] == y);
                }
            }
        }
    }
}

proof fn lemma_ordered(list: Seq<Seq<char>>, i: int, acc: Seq<Seq<char>>)
    requires
        0 <= i <= list.len(),
        ascending(acc),
    ensures
        ascending(ordered_from(list, i, acc)),
        forall|y: Seq<char>| #[trigger]
            ordered_from(list, i, acc).contains(y) <==> acc.contains(y) || list.skip(i).contains(y),
    decreases list.len() - i,
{
    if i < list.len() {
        lemma_placed(acc, list[i]);
        lemma_ordered(list, i + 1, placed(acc, list[i]));
        let whole = list.skip(i);
        let rest = list.skip(i + 1);
        assert forall|y: Seq<char>| whole.contains(y) <==> y == list[i] || #[trigger] rest.contains(y) by {
            if whole.contains(y) {
                let k = choose|k: int| 0 <= k < whole.len() && whole[k] == y;
                if k > 0 {
                    assert(rest[k - 1] == y);
                }
            }
            if y == list[i] {
                assert(whole[0] == y);
            }
            if rest.contains(y) {
                let k = choose|k: int| 0 <= k < rest.len() && rest[k] == y;
                assert(whole[k + 1] == y);
            }
        }
    }
}

/// Ordering keeps every text exactly once and puts each before those that it comes before.
pub proof fn ordering_sorts_and_keeps(list: Seq<Seq<char>>, x: Seq<char>)
    ensures
        ascending(ordered(list)),
        ordered(list).contains(x) <==> list.contains(x),
{
    lemma_ordered(list, 0, Seq::empty());
    assert(list.skip(0) == list);
}

} // verus!
