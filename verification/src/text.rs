//! Text as sequences of characters: searching, splitting, joining, replacing
//! and number formatting.

use vstd::prelude::*;
use vstd::string::*;

use crate::list::put;

verus! {

/// Appends one character to a `String`, as `String::push` does.
pub assume_specification[ String::push ](s: &mut String, c: char)
    ensures
        final(s)@ == old(s)@.push(c),
;

/// The characters of a string, as a vector.
pub fn chars_of(s: &str) -> (r: Vec<char>)
    ensures
        r@ == s@,
{
    let mut out: Vec<char> = Vec::new();
    for c in it: s.chars()
        invariant
            it.seq() == s@,
            out@ == s@.take(it.index() as int),
    {
        out.push(c);
        assert(out@ == s@.take(it.index() + 1));
    }
    assert(s@.take(s@.len() as int) == s@);
    out
}

/// The string made of `v[from..to]`.
pub fn slice_text(v: &Vec<char>, from: usize, to: usize) -> (r: String)
    requires
        from <= to <= v@.len(),
    ensures
        r@ == v@.subrange(from as int, to as int),
{
    let mut out = String::new();
    let mut i: usize = from;
    while i < to
        invariant
            from <= i <= to <= v@.len(),
            out@ == v@.subrange(from as int, i as int),
        decreases to - i,
    {
        out.push(v[i]);
        i = i + 1;
        assert(out@ == v@.subrange(from as int, i as int));
    }
    out
}

/// `a` and `b` hold the same characters.
pub fn same(a: &str, b: &str) -> (r: bool)
    ensures
        r == (a@ == b@),
{
    let x = chars_of(a);
    let y = chars_of(b);
    if x.len() != y.len() {
        return false;
    }
    let mut i: usize = 0;
    while i < x.len()
        invariant
            i <= x@.len(),
            x@.len() == y@.len(),
            x@ == a@,
            y@ == b@,
            forall|k: int| 0 <= k < i ==> x@[k] == y@[k],
        decreases x@.len() - i,
    {
        if x[i] != y[i] {
            assert(a@[i as int] != b@[i as int]);
            return false;
        }
        i = i + 1;
    }
    assert(x@ == y@);
    true
}


/// A copy of a string slice.
pub fn text(s: &str) -> (r: String)
    ensures
        r@ == s@,
{
    s.to_owned()
}

/// `pat` stands in `s` at position `i`.
pub open spec fn stands_at(s: Seq<char>, i: int, pat: Seq<char>) -> bool {
    0 <= i && i + pat.len() <= s.len() && s.subrange(i, i + pat.len()) == pat
}

pub(crate) fn stands_at_in(s: &Vec<char>, i: usize, pat: &Vec<char>) -> (r: bool)
    requires
        i <= s@.len(),
    ensures
        r == stands_at(s@, i as int, pat@),
{
    if s.len() - i < pat.len() {
        return false;
    }
    let size: usize = s.len();
    let mut k: usize = 0;
    while k < pat.len()
        invariant
            k <= pat@.len(),
            size == s@.len(),
            i + pat@.len() <= size,
            forall|j: int| 0 <= j < k ==> s@[i + j] == pat@[j],
        decreases pat@.len() - k,
    {
        if s[i + k] != pat[k] {
            assert(s@.subrange(i as int, i + pat@.len())[k as int] != pat@[k as int]);
            return false;
        }
        k = k + 1;
    }
    assert(s@.subrange(i as int, i + pat@.len()) == pat@);
    true
}

/// `s` begins with `pat`.
pub open spec fn starts_with(s: Seq<char>, pat: Seq<char>) -> bool {
    stands_at(s, 0, pat)
}

pub fn has_prefix(s: &str, pat: &str) -> (r: bool)
    ensures
        r == starts_with(s@, pat@),
{
    let x = chars_of(s);
    let y = chars_of(pat);
    stands_at_in(&x, 0, &y)
}

/// `s` ends with `pat`.
pub open spec fn ends_with(s: Seq<char>, pat: Seq<char>) -> bool {
    stands_at(s, s.len() - pat.len(), pat)
}

pub fn has_suffix(s: &str, pat: &str) -> (r: bool)
    ensures
        r == ends_with(s@, pat@),
{
    let x = chars_of(s);
    let y = chars_of(pat);
    if y.len() > x.len() {
        return false;
    }
    stands_at_in(&x, x.len() - y.len(), &y)
}

/// `s` without the leading `pat`, or `s` itself.
pub open spec fn without_prefix(s: Seq<char>, pat: Seq<char>) -> Seq<char> {
    if starts_with(s, pat) {
        s.subrange(pat.len() as int, s.len() as int)
    } else {
        s
    }
}

pub fn strip_prefix(s: &str, pat: &str) -> (r: String)
    ensures
        r@ == without_prefix(s@, pat@),
{
    let x = chars_of(s);
    let y = chars_of(pat);
    if stands_at_in(&x, 0, &y) {
        slice_text(&x, y.len(), x.len())
    } else {
        text(s)
    }
}

/// The first position at or after `i` where `pat` stands in `s`.
pub open spec fn find_from(s: Seq<char>, pat: Seq<char>, i: int) -> Option<int>
    decreases s.len() + 1 - i,
{
    if i < 0 || i > s.len() {
        None
    } else if stands_at(s, i, pat) {
        Some(i)
    } else {
        find_from(s, pat, i + 1)
    }
}

pub(crate) fn find_in(s: &Vec<char>, pat: &Vec<char>, from: usize) -> (r: Option<usize>)
    requires
        from <= s@.len(),
    ensures
        match r {
            Some(i) => find_from(s@, pat@, from as int) == Some(i as int) && i + pat@.len() <= s@.len(),
            None => find_from(s@, pat@, from as int) is None,
        },
{
    let mut i: usize = from;
    loop
        invariant
            from <= i <= s@.len(),
            find_from(s@, pat@, from as int) == find_from(s@, pat@, i as int),
        decreases s@.len() - i,
    {
        if stands_at_in(s, i, pat) {
            return Some(i);
        }
        if i >= s.len() {
            assert(find_from(s@, pat@, i + 1) is None);
            return None;
        }
        i = i + 1;
    }
}

/// Where `pat` first stands in `s`.
pub open spec fn find(s: Seq<char>, pat: Seq<char>) -> Option<int> {
    find_from(s, pat, 0)
}

/// `pat` stands somewhere in `s`.
pub open spec fn contains(s: Seq<char>, pat: Seq<char>) -> bool {
    exists|i: int| stands_at(s, i, pat)
}

/// A search that starts at `i` succeeds exactly where some later position matches, and gives
/// the least one.
pub proof fn lemma_find_from(s: Seq<char>, pat: Seq<char>, i: int)
    requires
        0 <= i,
    ensures
        match find_from(s, pat, i) {
            Some(k) => i <= k && stands_at(s, k, pat) && forall|j: int|
                i <= j < k ==> !stands_at(s, j, pat),
            None => forall|j: int| i <= j ==> !stands_at(s, j, pat),
        },
    decreases s.len() + 1 - i,
{
    if i <= s.len() {
        if !stands_at(s, i, pat) {
            lemma_find_from(s, pat, i + 1);
            assert forall|j: int| i <= j && (find_from(s, pat, i) matches Some(k) ==> j < k)
                implies !stands_at(s, j, pat) by {
                if j > i {
                    assert(i + 1 <= j);
                }
            }
        }
    }
}

pub fn has(s: &str, pat: &str) -> (r: bool)
    ensures
        r == contains(s@, pat@),
{
    let x = chars_of(s);
    let y = chars_of(pat);
    proof {
        lemma_find_from(s@, pat@, 0);
    }
    find_in(&x, &y, 0).is_some()
}

/// `s[i..]` with every occurrence of the non-empty `pat` replaced by `rep`, left to right.
pub open spec fn replace_from(s: Seq<char>, pat: Seq<char>, rep: Seq<char>, i: int) -> Seq<char>
    decreases s.len() - i,
{
    if i < 0 || i >= s.len() {
        Seq::empty()
    } else if pat.len() > 0 && stands_at(s, i, pat) {
        rep + replace_from(s, pat, rep, i + pat.len())
    } else {
        seq![s[i]] + replace_from(s, pat, rep, i + 1)
    }
}

/// `s` with every occurrence of the non-empty `pat` replaced by `rep`.
pub open spec fn replaced(s: Seq<char>, pat: Seq<char>, rep: Seq<char>) -> Seq<char> {
    replace_from(s, pat, rep, 0)
}

pub fn replace(s: &str, pat: &str, rep: &str) -> (r: String)
    requires
        pat@.len() > 0,
    ensures
        r@ == replaced(s@, pat@, rep@),
{
    let x = chars_of(s);
    let y = chars_of(pat);
    let mut out = String::new();
    let mut i: usize = 0;
    while i < x.len()
        invariant
            i <= x@.len(),
            x@ == s@,
            y@ == pat@,
            pat@.len() > 0,
            out@ + replace_from(s@, pat@, rep@, i as int) == replaced(s@, pat@, rep@),
        decreases x@.len() - i,
    {
        if stands_at_in(&x, i, &y) {
            proof {
                let tail = replace_from(s@, pat@, rep@, i + pat@.len());
                assert(out@ + (rep@ + tail) == (out@ + rep@) + tail);
            }
            out.append(rep);
            i = i + y.len();
        } else {
            proof {
                let tail = replace_from(s@, pat@, rep@, i + 1);
                assert(out@ + (seq![s@[i as int]] + tail) == out@.push(s@[i as int]) + tail);
            }
            out.push(x[i]);
            i = i + 1;
        }
    }
    assert(out@ + Seq::<char>::empty() == out@);
    out
}

/// `s` with the first occurrence of `pat` replaced by `rep`.
pub open spec fn replaced_first(s: Seq<char>, pat: Seq<char>, rep: Seq<char>) -> Seq<char> {
    match find(s, pat) {
        Some(i) => s.subrange(0, i) + rep + s.subrange(i + pat.len(), s.len() as int),
        None => s,
    }
}

pub fn replace_first(s: &str, pat: &str, rep: &str) -> (r: String)
    ensures
        r@ == replaced_first(s@, pat@, rep@),
{
    let x = chars_of(s);
    let y = chars_of(pat);
    match find_in(&x, &y, 0) {
        Some(i) => {
            let size: usize = x.len();
            let mut out = slice_text(&x, 0, i);
            out.append(rep);
            let rest = slice_text(&x, i + y.len(), size);
            out.append(rest.as_str());
            out
        },
        None => text(s),
    }
}

/// The pieces of `s[start..]` between occurrences of the non-empty `pat`; no occurrence begins
/// before `i`.
pub open spec fn split_from(s: Seq<char>, pat: Seq<char>, start: int, i: int) -> Seq<Seq<char>>
    decreases s.len() - i,
{
    if i < 0 || i >= s.len() {
        seq![s.subrange(start, s.len() as int)]
    } else if pat.len() > 0 && stands_at(s, i, pat) {
        seq![s.subrange(start, i)] + split_from(s, pat, i + pat.len(), i + pat.len())
    } else {
        split_from(s, pat, start, i + 1)
    }
}

/// The pieces of `s` between occurrences of the non-empty `pat`.
pub open spec fn pieces(s: Seq<char>, pat: Seq<char>) -> Seq<Seq<char>> {
    split_from(s, pat, 0, 0)
}

pub fn split(s: &str, pat: &str) -> (r: Vec<String>)
    requires
        pat@.len() > 0,
    ensures
        r.deep_view() == pieces(s@, pat@),
        r@.len() >= 1,
{
    let x = chars_of(s);
    let y = chars_of(pat);
    let mut out: Vec<String> = Vec::new();
    let mut start: usize = 0;
    let mut i: usize = 0;
    while i < x.len()
        invariant
            start <= i <= x@.len(),
            x@ == s@,
            y@ == pat@,
            pat@.len() > 0,
            out.deep_view() + split_from(s@, pat@, start as int, i as int) == pieces(s@, pat@),
        decreases x@.len() - i,
    {
        if stands_at_in(&x, i, &y) {
            let piece = slice_text(&x, start, i);
            proof {
                let tail = split_from(s@, pat@, i + pat@.len(), i + pat@.len());
                let head = seq![s@.subrange(start as int, i as int)];
                let done = out.deep_view();
                assert(done + (head + tail) == done.push(head[0]) + tail);
            }
            put(&mut out, piece);
            i = i + y.len();
            start = i;
        } else {
            i = i + 1;
        }
    }
    let piece = slice_text(&x, start, x.len());
    proof {
        let done = out.deep_view();
        assert(done + seq![piece@] == done.push(piece@));
    }
    put(&mut out, piece);
    out
}

/// The last position at or before `i` where `pat` stands in `s`.
pub open spec fn rfind_from(s: Seq<char>, pat: Seq<char>, i: int) -> Option<int>
    decreases i + 1,
{
    if i < 0 {
        None
    } else if stands_at(s, i, pat) {
        Some(i)
    } else {
        rfind_from(s, pat, i - 1)
    }
}

/// Where `pat` last stands in `s`.
pub open spec fn rfind(s: Seq<char>, pat: Seq<char>) -> Option<int> {
    rfind_from(s, pat, s.len() as int)
}

pub(crate) fn rfind_in(s: &Vec<char>, pat: &Vec<char>) -> (r: Option<usize>)
    ensures
        match r {
            Some(i) => rfind(s@, pat@) == Some(i as int) && i + pat@.len() <= s@.len(),
            None => rfind(s@, pat@) is None,
        },
{
    let mut i: usize = s.len();
    loop
        invariant
            i <= s@.len(),
            rfind(s@, pat@) == rfind_from(s@, pat@, i as int),
        decreases i,
    {
        if stands_at_in(s, i, pat) {
            return Some(i);
        }
        if i == 0 {
            assert(rfind_from(s@, pat@, -1) is None);
            return None;
        }
        i = i - 1;
    }
}

/// What follows the last `pat` in `s`; all of `s` where there is none.
pub open spec fn after_last(s: Seq<char>, pat: Seq<char>) -> Seq<char> {
    match rfind(s, pat) {
        Some(i) => s.subrange(i + pat.len(), s.len() as int),
        None => s,
    }
}

pub fn tail_after(s: &str, pat: &str) -> (r: String)
    ensures
        r@ == after_last(s@, pat@),
{
    let x = chars_of(s);
    let y = chars_of(pat);
    match rfind_in(&x, &y) {
        Some(i) => {
            let size: usize = x.len();
            slice_text(&x, i + y.len(), size)
        },
        None => text(s),
    }
}

/// What precedes the last `pat` in `s`, where there is one.
pub open spec fn before_last(s: Seq<char>, pat: Seq<char>) -> Option<Seq<char>> {
    match rfind(s, pat) {
        Some(i) => Some(s.subrange(0, i)),
        None => None,
    }
}

pub fn head_before(s: &str, pat: &str) -> (r: Option<String>)
    ensures
        match r {
            Some(h) => before_last(s@, pat@) == Some(h@),
            None => before_last(s@, pat@) is None,
        },
{
    let x = chars_of(s);
    let y = chars_of(pat);
    match rfind_in(&x, &y) {
        Some(i) => Some(slice_text(&x, 0, i)),
        None => None,
    }
}

/// The parts of a list with `sep` between neighbours.
pub open spec fn joined(parts: Seq<Seq<char>>, sep: Seq<char>) -> Seq<char>
    decreases parts.len(),
{
    if parts.len() == 0 {
        Seq::empty()
    } else if parts.len() == 1 {
        parts[0]
    } else {
        joined(parts.drop_last(), sep) + sep + parts.last()
    }
}

pub fn join(parts: &Vec<String>, sep: &str) -> (r: String)
    ensures
        r@ == joined(parts.deep_view(), sep@),
{
    let mut out = String::new();
    let mut i: usize = 0;
    while i < parts.len()
        invariant
            i <= parts@.len(),
            out@ == joined(parts.deep_view().take(i as int), sep@),
        decreases parts@.len() - i,
    {
        proof {
            let next = parts.deep_view().take(i + 1);
            assert(next.drop_last() == parts.deep_view().take(i as int));
            assert(next.last() == parts@[i as int]@);
            if i == 0 {
                assert(Seq::<char>::empty() + parts@[0]@ == parts@[0]@);
            }
        }
        if i > 0 {
            out.append(sep);
        }
        out.append(parts[i].as_str());
        i = i + 1;
    }
    assert(parts.deep_view().take(parts@.len() as int) == parts.deep_view());
    out
}

/// How many times the non-empty `pat` occurs in `s[i..]`, without overlap.
pub open spec fn count_from(s: Seq<char>, pat: Seq<char>, i: int) -> nat
    decreases s.len() - i,
{
    if i < 0 || i >= s.len() {
        0
    } else if pat.len() > 0 && stands_at(s, i, pat) {
        1 + count_from(s, pat, i + pat.len())
    } else {
        count_from(s, pat, i + 1)
    }
}

/// How many times the non-empty `pat` occurs in `s`, without overlap.
pub open spec fn occurrences(s: Seq<char>, pat: Seq<char>) -> nat {
    count_from(s, pat, 0)
}

pub fn count(s: &str, pat: &str) -> (r: usize)
    requires
        pat@.len() > 0,
    ensures
        r == occurrences(s@, pat@),
        r <= s@.len(),
{
    let x = chars_of(s);
    let y = chars_of(pat);
    let mut n: usize = 0;
    let mut i: usize = 0;
    while i < x.len()
        invariant
            n <= i <= x@.len(),
            x@ == s@,
            y@ == pat@,
            pat@.len() > 0,
            n + count_from(s@, pat@, i as int) == occurrences(s@, pat@),
        decreases x@.len() - i,
    {
        if stands_at_in(&x, i, &y) {
            n = n + 1;
            i = i + y.len();
        } else {
            i = i + 1;
        }
    }
    n
}

/// The decimal digit of a number below ten.
pub open spec fn digit(d: int) -> char {
    if d == 0 {
        '0'
    } else if d == 1 {
        '1'
    } else if d == 2 {
        '2'
    } else if d == 3 {
        '3'
    } else if d == 4 {
        '4'
    } else if d == 5 {
        '5'
    } else if d == 6 {
        '6'
    } else if d == 7 {
        '7'
    } else if d == 8 {
        '8'
    } else {
        '9'
    }
}

fn digit_char(d: u64) -> (r: char)
    requires
        d < 10,
    ensures
        r == digit(d as int),
{
    if d == 0 {
        '0'
    } else if d == 1 {
        '1'
    } else if d == 2 {
        '2'
    } else if d == 3 {
        '3'
    } else if d == 4 {
        '4'
    } else if d == 5 {
        '5'
    } else if d == 6 {
        '6'
    } else if d == 7 {
        '7'
    } else if d == 8 {
        '8'
    } else {
        '9'
    }
}

/// A number in decimal, without leading zeros.
pub open spec fn decimal(n: nat) -> Seq<char>
    decreases n,
{
    if n < 10 {
        seq![digit(n as int)]
    } else {
        decimal(n / 10).push(digit((n % 10) as int))
    }
}

pub fn decimal_u64(n: u64) -> (r: String)
    ensures
        r@ == decimal(n as nat),
    decreases n,
{
    if n < 10 {
        let mut s = String::new();
        s.push(digit_char(n));
        assert(s@ == seq![digit(n as int)]);
        s
    } else {
        let mut s = decimal_u64(n / 10);
        s.push(digit_char(n % 10));
        s
    }
}

pub fn decimal_usize(n: usize) -> (r: String)
    ensures
        r@ == decimal(n as nat),
{
    decimal_u64(n as u64)
}

pub fn decimal_u128(n: u128) -> (r: String)
    ensures
        r@ == decimal(n as nat),
    decreases n,
{
    if n < 10 {
        decimal_u64(n as u64)
    } else {
        let mut s = decimal_u128(n / 10);
        s.push(digit_char((n % 10) as u64));
        s
    }
}

/// Two numbers with the same decimal text are equal.
pub proof fn decimal_is_injective(a: nat, b: nat)
    requires
        decimal(a) == decimal(b),
    ensures
        a == b,
    decreases a,
{
    lemma_decimal_len(a);
    lemma_decimal_len(b);
    assert(decimal(a).last() == digit((a % 10) as int));
    assert(decimal(b).last() == digit((b % 10) as int));
    assert(a % 10 == b % 10);
    if a >= 10 && b >= 10 {
        assert(decimal(a).drop_last() == decimal(a / 10));
        assert(decimal(b).drop_last() == decimal(b / 10));
        decimal_is_injective(a / 10, b / 10);
    }
}

proof fn lemma_decimal_len(a: nat)
    ensures
        decimal(a).len() >= 1,
        a >= 10 ==> decimal(a).len() >= 2,
    decreases a,
{
    if a >= 10 {
        lemma_decimal_len(a / 10);
    }
}

/// The value of a decimal digit.
pub open spec fn digit_value(c: char) -> Option<nat> {
    if '0' <= c && c <= '9' {
        Some((c as int - '0' as int) as nat)
    } else {
        None
    }
}

/// The number that a run of decimal digits stands for; `None` for anything else.
pub open spec fn digits_value(s: Seq<char>) -> Option<nat>
    decreases s.len(),
{
    if s.len() == 0 {
        Some(0)
    } else {
        match (digits_value(s.drop_last()), digit_value(s.last())) {
            (Some(n), Some(d)) => Some(n * 10 + d),
            _ => None,
        }
    }
}

/// The number that a text stands for: digits, with an optional leading `+`.
pub open spec fn number(s: Seq<char>) -> Option<nat> {
    let body = if s.len() > 0 && s[0] == '+' {
        s.subrange(1, s.len() as int)
    } else {
        s
    };
    if body.len() == 0 {
        None
    } else {
        digits_value(body)
    }
}

/// The number that a text stands for, where it stands for one of at most `max`.
pub open spec fn bounded_number(s: Seq<char>, max: nat) -> Option<nat> {
    match number(s) {
        Some(n) => if n <= max {
            Some(n)
        } else {
            None
        },
        None => None,
    }
}

proof fn lemma_digits_prefix(s: Seq<char>, k: int, max: nat)
    requires
        0 <= k <= s.len(),
        match digits_value(s.take(k)) {
            Some(n) => n > max,
            None => true,
        },
    ensures
        match digits_value(s) {
            Some(n) => n > max,
            None => true,
        },
    decreases s.len() - k,
{
    if k < s.len() {
        assert(s.take(k + 1).drop_last() == s.take(k));
        lemma_digits_prefix(s, k + 1, max);
    } else {
        assert(s.take(k) == s);
    }
}

pub fn parse_number(s: &str, max: u64) -> (r: Option<u64>)
    ensures
        match r {
            Some(n) => bounded_number(s@, max as nat) == Some(n as nat),
            None => bounded_number(s@, max as nat) is None,
        },
{
    let x = chars_of(s);
    let first: usize = if x.len() > 0 && x[0] == '+' {
        1
    } else {
        0
    };
    let ghost body = x@.subrange(first as int, x@.len() as int);
    assert(first == 0 ==> body == s@);
    if first >= x.len() {
        return None;
    }
    let mut n: u64 = 0;
    let mut i: usize = first;
    while i < x.len()
        invariant
            first <= i <= x@.len(),
            first < x@.len(),
            x@ == s@,
            body == x@.subrange(first as int, x@.len() as int),
            first == (if s@.len() > 0 && s@[0] == '+' {
                1int
            } else {
                0int
            }),
            first == 0 ==> body == s@,
            n <= max,
            digits_value(body.take(i - first)) == Some(n as nat),
        decreases x@.len() - i,
    {
        let c = x[i];
        proof {
            assert(body.take(i - first + 1).drop_last() == body.take(i - first));
            assert(body.take(i - first + 1).last() == c);
        }
        if c < '0' || c > '9' {
            proof {
                lemma_digits_prefix(body, i - first + 1, max as nat);
            }
            return None;
        }
        let d: u64 = (c as u32 - '0' as u32) as u64;
        if n > max / 10 || n * 10 > max - d.min(max) || d > max {
            proof {
                assert(n * 10 + d > max);
                lemma_digits_prefix(body, i - first + 1, max as nat);
            }
            return None;
        }
        n = n * 10 + d;
        i = i + 1;
    }
    assert(body.take(body.len() as int) == body);
    Some(n)
}


/// The concatenation of its arguments.
pub fn cat2(a: &str, b: &str) -> (r: String)
    ensures
        r@ == a@ + b@,
{
    let mut out = text(a);
    out.append(b);
    out
}

/// The concatenation of its arguments.
pub fn cat3(a: &str, b: &str, c: &str) -> (r: String)
    ensures
        r@ == a@ + b@ + c@,
{
    let mut out = text(a);
    out.append(b);
    out.append(c);
    out
}

/// The concatenation of its arguments.
pub fn cat4(a: &str, b: &str, c: &str, d: &str) -> (r: String)
    ensures
        r@ == a@ + b@ + c@ + d@,
{
    let mut out = text(a);
    out.append(b);
    out.append(c);
    out.append(d);
    out
}

/// The concatenation of its arguments.
pub fn cat5(a: &str, b: &str, c: &str, d: &str, e: &str) -> (r: String)
    ensures
        r@ == a@ + b@ + c@ + d@ + e@,
{
    let mut out = text(a);
    out.append(b);
    out.append(c);
    out.append(d);
    out.append(e);
    out
}

/// The concatenation of its arguments.
pub fn cat6(a: &str, b: &str, c: &str, d: &str, e: &str, f: &str) -> (r: String)
    ensures
        r@ == a@ + b@ + c@ + d@ + e@ + f@,
{
    let mut out = text(a);
    out.append(b);
    out.append(c);
    out.append(d);
    out.append(e);
    out.append(f);
    out
}

/// The concatenation of its arguments.
pub fn cat7(a: &str, b: &str, c: &str, d: &str, e: &str, f: &str, g: &str) -> (r: String)
    ensures
        r@ == a@ + b@ + c@ + d@ + e@ + f@ + g@,
{
    let mut out = text(a);
    out.append(b);
    out.append(c);
    out.append(d);
    out.append(e);
    out.append(f);
    out.append(g);
    out
}

/// The concatenation of its arguments.
pub fn cat8(a: &str, b: &str, c: &str, d: &str, e: &str, f: &str, g: &str, h: &str) -> (r: String)
    ensures
        r@ == a@ + b@ + c@ + d@ + e@ + f@ + g@ + h@,
{
    let mut out = text(a);
    out.append(b);
    out.append(c);
    out.append(d);
    out.append(e);
    out.append(f);
    out.append(g);
    out.append(h);
    out
}

/// The concatenation of its arguments.
pub fn cat9(
    a: &str,
    b: &str,
    c: &str,
    d: &str,
    e: &str,
    f: &str,
    g: &str,
    h: &str,
    i: &str,
) -> (r: String)
    ensures
        r@ == a@ + b@ + c@ + d@ + e@ + f@ + g@ + h@ + i@,
{
    let mut out = text(a);
    out.append(b);
    out.append(c);
    out.append(d);
    out.append(e);
    out.append(f);
    out.append(g);
    out.append(h);
    out.append(i);
    out
}

/// A character is white space, as `char::is_whitespace` has it.
pub uninterp spec fn whitespace(c: char) -> bool;

/// `char::is_whitespace`: which characters are white space depends on the character alone.
pub assume_specification[ char::is_whitespace ](c: char) -> (r: bool)
    ensures
        r == whitespace(c),
;

/// `s[..n]` without the white space at its end.
pub open spec fn trimmed_end_at(s: Seq<char>, n: int) -> Seq<char>
    decreases n,
{
    if n <= 0 {
        Seq::empty()
    } else if whitespace(s[n - 1]) {
        trimmed_end_at(s, n - 1)
    } else {
        s.take(n)
    }
}

/// `s` without the white space at its end.
pub open spec fn trimmed_end(s: Seq<char>) -> Seq<char> {
    trimmed_end_at(s, s.len() as int)
}

pub fn trim_end(s: &str) -> (r: String)
    ensures
        r@ == trimmed_end(s@),
{
    let x = chars_of(s);
    let mut n: usize = x.len();
    while n > 0 && x[n - 1].is_whitespace()
        invariant
            n <= x@.len(),
            x@ == s@,
            trimmed_end(s@) == trimmed_end_at(s@, n as int),
        decreases n,
    {
        n = n - 1;
    }
    assert(s@.subrange(0, n as int) == s@.take(n as int));
    assert(n == 0 ==> s@.take(0) == Seq::<char>::empty());
    slice_text(&x, 0, n)
}

/// `s[i..]` without the white space in front.
pub open spec fn trimmed_start_at(s: Seq<char>, i: int) -> Seq<char>
    decreases s.len() - i,
{
    if i < 0 || i >= s.len() {
        Seq::empty()
    } else if whitespace(s[i]) {
        trimmed_start_at(s, i + 1)
    } else {
        s.skip(i)
    }
}

/// `s` without the white space at both ends.
pub open spec fn trimmed(s: Seq<char>) -> Seq<char> {
    trimmed_end(trimmed_start_at(s, 0))
}

pub fn trim(s: &str) -> (r: String)
    ensures
        r@ == trimmed(s@),
{
    let x = chars_of(s);
    let mut i: usize = 0;
    while i < x.len() && x[i].is_whitespace()
        invariant
            i <= x@.len(),
            x@ == s@,
            trimmed_start_at(s@, 0) == trimmed_start_at(s@, i as int),
        decreases x@.len() - i,
    {
        i = i + 1;
    }
    assert(s@.subrange(i as int, s@.len() as int) == s@.skip(i as int));
    assert(i == s@.len() ==> s@.skip(i as int) == Seq::<char>::empty());
    let rest = slice_text(&x, i, x.len());
    trim_end(rest.as_str())
}

/// What the last of the first `n` pairs with a name has with it.
pub open spec fn looked_up(
    pairs: Seq<(Seq<char>, Seq<char>)>,
    name: Seq<char>,
    n: int,
) -> Option<Seq<char>>
    decreases n,
{
    if n <= 0 {
        None
    } else if pairs[n - 1].0 == name {
        Some(pairs[n - 1].1)
    } else {
        looked_up(pairs, name, n - 1)
    }
}

pub fn look_up(pairs: &Vec<(String, String)>, name: &str) -> (r: Option<String>)
    ensures
        r.deep_view() == looked_up(pairs.deep_view(), name@, pairs@.len() as int),
{
    let ghost p = pairs.deep_view();
    let mut n: usize = pairs.len();
    while n > 0
        invariant
            n <= pairs@.len(),
            p == pairs.deep_view(),
            looked_up(p, name@, pairs@.len() as int) == looked_up(p, name@, n as int),
        decreases n,
    {
        if same(pairs[n - 1].0.as_str(), name) {
            return Some(pairs[n - 1].1.clone());
        }
        n = n - 1;
    }
    None
}

/// A character does not occur in a text.
pub open spec fn free_of(s: Seq<char>, c: char) -> bool {
    forall|i: int| 0 <= i < s.len() ==> #[trigger] s[i] != c
}

pub proof fn lemma_replaced_free(s: Seq<char>, pat: Seq<char>, rep: Seq<char>, c: char, i: int)
    requires
        0 <= i,
        free_of(rep, c),
        pat == seq![c] || free_of(s, c),
    ensures
        free_of(replace_from(s, pat, rep, i), c),
    decreases s.len() - i,
{
    if i < s.len() {
        if pat.len() > 0 && stands_at(s, i, pat) {
            lemma_replaced_free(s, pat, rep, c, i + pat.len());
        } else {
            lemma_replaced_free(s, pat, rep, c, i + 1);
            if pat == seq![c] {
                assert(s.subrange(i, i + 1) == seq![s[i]]);
                assert(s[i] != c) by {
                    if s[i] == c {
                        assert(s.subrange(i, i + 1) == pat);
                        assert(stands_at(s, i, pat));
                    }
                }
            }
        }
    }
}

} // verus!
