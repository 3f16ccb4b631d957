//! Identifiers for the elements of a diagram.

use vstd::prelude::*;

use crate::list::{put, Dup};
use crate::text::{cat3, chars_of, decimal, decimal_is_injective, decimal_usize, same};

verus! {

/// An identifier and the element it was given to.
#[derive(Debug)]
pub struct IdEntry {
    /// The kind of element.
    pub prefix: String,
    /// The name of the element.
    pub key: String,
    /// Its identifier.
    pub id: String,
}

/// What an [`IdEntry`] means.
pub struct IdEntryV {
    pub prefix: Seq<char>,
    pub key: Seq<char>,
    pub id: Seq<char>,
}

impl DeepView for IdEntry {
    type V = IdEntryV;

    open spec fn deep_view(&self) -> IdEntryV {
        IdEntryV { prefix: self.prefix@, key: self.key@, id: self.id@ }
    }
}

/// The identifiers given out so far.
#[derive(Debug)]
pub struct Ids {
    /// One entry for each element.
    pub entries: Vec<IdEntry>,
}

impl DeepView for Ids {
    type V = Seq<IdEntryV>;

    open spec fn deep_view(&self) -> Seq<IdEntryV> {
        self.entries.deep_view()
    }
}

/// A character that can stand in an identifier, else `_`.
pub open spec fn id_char(c: char) -> char {
    if ('a' <= c && c <= 'z') || ('A' <= c && c <= 'Z') || ('0' <= c && c <= '9') {
        c
    } else {
        '_'
    }
}

/// A name with every other character replaced by `_`.
pub open spec fn id_text(key: Seq<char>) -> Seq<char> {
    Seq::new(key.len(), |i: int| id_char(key[i]))
}

/// The identifier an element would have, were it alone.
pub open spec fn id_base(prefix: Seq<char>, key: Seq<char>) -> Seq<char> {
    prefix + "_"@ + id_text(key)
}

/// The identifiers to try, in order: the base, then the base with a number behind it.
pub open spec fn id_candidate(base: Seq<char>, n: nat) -> Seq<char> {
    if n == 0 {
        base
    } else {
        base + "__"@ + decimal(n)
    }
}

/// Some element has the identifier.
pub open spec fn issued(v: Seq<IdEntryV>, id: Seq<char>) -> bool {
    exists|i: int| 0 <= i < v.len() && #[trigger] v[i].id == id
}

/// The first free candidate from number `n` on; after `v.len()` taken ones the next is free.
pub open spec fn free_id(v: Seq<IdEntryV>, base: Seq<char>, n: nat) -> Seq<char>
    decreases v.len() - n,
{
    if n < v.len() && issued(v, id_candidate(base, n)) {
        free_id(v, base, n + 1)
    } else {
        id_candidate(base, n)
    }
}

/// Entry number `i` is that of the element.
pub open spec fn entry_is(v: Seq<IdEntryV>, i: int, prefix: Seq<char>, key: Seq<char>) -> bool {
    0 <= i < v.len() && v[i].prefix == prefix && v[i].key == key
}

/// The identifier of an element from entry `i` on, if it has one.
pub open spec fn id_from(
    v: Seq<IdEntryV>,
    prefix: Seq<char>,
    key: Seq<char>,
    i: int,
) -> Option<Seq<char>>
    decreases v.len() - i,
{
    if i < 0 || i >= v.len() {
        None
    } else if entry_is(v, i, prefix, key) {
        Some(v[i].id)
    } else {
        id_from(v, prefix, key, i + 1)
    }
}

/// The identifier of an element: the one it has, else the first free candidate.
pub open spec fn id_of(v: Seq<IdEntryV>, prefix: Seq<char>, key: Seq<char>) -> Seq<char> {
    match id_from(v, prefix, key, 0) {
        Some(id) => id,
        None => free_id(v, id_base(prefix, key), 0),
    }
}

/// The identifiers once the element has one.
pub open spec fn ids_with(v: Seq<IdEntryV>, prefix: Seq<char>, key: Seq<char>) -> Seq<IdEntryV> {
    match id_from(v, prefix, key, 0) {
        Some(_) => v,
        None => v.push(IdEntryV { prefix, key, id: id_of(v, prefix, key) }),
    }
}

/// No element has two entries and no two elements share an identifier.
pub open spec fn ids_valid(v: Seq<IdEntryV>) -> bool {
    &&& forall|i: int, j: int|
        #![trigger v[i], v[j]]
        0 <= i < j < v.len() ==> v[i].id != v[j].id
    &&& forall|i: int, j: int|
        #![trigger v[i], v[j]]
        0 <= i < j < v.len() ==> v[i].prefix != v[j].prefix || v[i].key != v[j].key
}

fn text_of_id(key: &str) -> (r: String)
    ensures
        r@ == id_text(key@),
{
    let x = chars_of(key);
    let mut out = String::new();
    let mut i: usize = 0;
    while i < x.len()
        invariant
            i <= x@.len(),
            x@ == key@,
            out@ == id_text(key@).take(i as int),
        decreases x@.len() - i,
    {
        let c = x[i];
        let ok = ('a' <= c && c <= 'z') || ('A' <= c && c <= 'Z') || ('0' <= c && c <= '9');
        out.push(if ok {
            c
        } else {
            '_'
        });
        i = i + 1;
        assert(out@ == id_text(key@).take(i as int));
    }
    assert(id_text(key@).take(key@.len() as int) == id_text(key@));
    out
}

impl Ids {
    /// No identifiers yet.
    pub fn new() -> (r: Self)
        ensures
            r.deep_view() == Seq::<IdEntryV>::empty(),
    {
        let entries: Vec<IdEntry> = Vec::new();
        assert(entries.deep_view() == Seq::<IdEntryV>::empty());
        Ids { entries }
    }

    fn is_issued(&self, id: &str) -> (r: bool)
        ensures
            r == issued(self.deep_view(), id@),
    {
        let mut i: usize = 0;
        while i < self.entries.len()
            invariant
                i <= self.entries@.len(),
                forall|j: int| 0 <= j < i ==> self.deep_view()[j].id != id@,
            decreases self.entries@.len() - i,
        {
            if same(self.entries[i].id.as_str(), id) {
                assert(self.deep_view()[i as int].id == id@);
                return true;
            }
            i = i + 1;
        }
        false
    }

    fn find(&self, prefix: &str, key: &str) -> (r: Option<String>)
        ensures
            r.deep_view() == id_from(self.deep_view(), prefix@, key@, 0),
    {
        let ghost v = self.deep_view();
        let mut i: usize = 0;
        while i < self.entries.len()
            invariant
                i <= self.entries@.len(),
                v == self.deep_view(),
                id_from(v, prefix@, key@, 0) == id_from(v, prefix@, key@, i as int),
            decreases self.entries@.len() - i,
        {
            let e = &self.entries[i];
            assert(v[i as int] == e.deep_view());
            if same(e.prefix.as_str(), prefix) && same(e.key.as_str(), key) {
                return Some(e.id.dup());
            }
            i = i + 1;
        }
        None
    }

    fn free(&self, base: &str) -> (r: String)
        ensures
            r@ == free_id(self.deep_view(), base@, 0),
    {
        let ghost v = self.deep_view();
        let mut id = base.to_string();
        let mut n: usize = 0;
        while n < self.entries.len() && self.is_issued(id.as_str())
            invariant
                n <= self.entries@.len(),
                v == self.deep_view(),
                v.len() == self.entries@.len(),
                id@ == id_candidate(base@, n as nat),
                free_id(v, base@, 0) == free_id(v, base@, n as nat),
            decreases self.entries@.len() - n,
        {
            n = n + 1;
            let digits = decimal_usize(n);
            id = cat3(base, "__", digits.as_str());
        }
        id
    }

    /// The identifier of the element of the kind `prefix` named `key`, given out on first use.
    pub fn get(&mut self, prefix: &str, key: &str) -> (r: String)
        ensures
            r@ == id_of(old(self).deep_view(), prefix@, key@),
            final(self).deep_view() == ids_with(old(self).deep_view(), prefix@, key@),
    {
        if let Some(id) = self.find(prefix, key) {
            return id;
        }
        let tail = text_of_id(key);
        let base = cat3(prefix, "_", tail.as_str());
        let id = self.free(base.as_str());
        put(
            &mut self.entries,
            IdEntry { prefix: prefix.to_string(), key: key.to_string(), id: id.dup() },
        );
        id
    }
}

pub proof fn lemma_id_from(v: Seq<IdEntryV>, prefix: Seq<char>, key: Seq<char>, i: int)
    requires
        0 <= i <= v.len(),
    ensures
        match id_from(v, prefix, key, i) {
            Some(id) => exists|k: int| i <= k < v.len() && #[trigger] entry_is(v, k, prefix, key) && v[k].id == id,
            None => forall|k: int| i <= k < v.len() ==> !#[trigger] entry_is(v, k, prefix, key),
        },
    decreases v.len() - i,
{
    if i < v.len() && !entry_is(v, i, prefix, key) {
        lemma_id_from(v, prefix, key, i + 1);
    }
}

pub proof fn lemma_id_pushed(v: Seq<IdEntryV>, e: IdEntryV, prefix: Seq<char>, key: Seq<char>, i: int)
    requires
        0 <= i <= v.len(),
    ensures
        id_from(v.push(e), prefix, key, i) == (match id_from(v, prefix, key, i) {
            Some(id) => Some(id),
            None => if e.prefix == prefix && e.key == key {
                Some(e.id)
            } else {
                None
            },
        }),
    decreases v.len() - i,
{
    let w = v.push(e);
    if i < v.len() {
        assert(w[i] == v[i]);
        assert(entry_is(w, i, prefix, key) == entry_is(v, i, prefix, key));
        lemma_id_pushed(v, e, prefix, key, i + 1);
    } else {
        assert(w[i] == e);
        assert(id_from(w, prefix, key, i + 1) is None);
    }
}

/// The first `n` candidates of a base.
spec fn candidates(base: Seq<char>, n: nat) -> Set<Seq<char>>
    decreases n,
{
    if n == 0 {
        Set::empty()
    } else {
        candidates(base, (n - 1) as nat).insert(id_candidate(base, (n - 1) as nat))
    }
}

proof fn lemma_candidates_differ(base: Seq<char>, a: nat, b: nat)
    requires
        id_candidate(base, a) == id_candidate(base, b),
    ensures
        a == b,
{
    reveal_strlit("__");
    let x = id_candidate(base, a);
    if a != 0 {
        assert(x.len() > base.len());
        assert(x.skip((base.len() + 2) as int) == decimal(a));
    }
    if b != 0 {
        assert(x.len() > base.len());
        assert(x.skip((base.len() + 2) as int) == decimal(b));
    }
    if a != 0 && b != 0 {
        decimal_is_injective(a, b);
    }
}

proof fn lemma_candidates(base: Seq<char>, n: nat)
    ensures
        candidates(base, n).finite(),
        candidates(base, n).len() == n,
        forall|x: Seq<char>| #[trigger]
            candidates(base, n).contains(x) ==> exists|k: nat| k < n && x == id_candidate(base, k),
    decreases n,
{
    if n > 0 {
        let m = (n - 1) as nat;
        lemma_candidates(base, m);
        let x = id_candidate(base, m);
        if candidates(base, m).contains(x) {
            let k = choose|k: nat| k < m && x == id_candidate(base, k);
            lemma_candidates_differ(base, k, m);
        }
    }
}

/// The identifiers of the first `n` entries.
spec fn taken(v: Seq<IdEntryV>, n: nat) -> Set<Seq<char>>
    decreases n,
{
    if n == 0 {
        Set::empty()
    } else {
        taken(v, (n - 1) as nat).insert(v[n - 1].id)
    }
}

proof fn lemma_taken(v: Seq<IdEntryV>, n: nat)
    requires
        n <= v.len(),
    ensures
        taken(v, n).finite(),
        taken(v, n).len() <= n,
        forall|i: int| 0 <= i < n ==> taken(v, n).contains(#[trigger] v[i].id),
    decreases n,
{
    if n > 0 {
        lemma_taken(v, (n - 1) as nat);
    }
}

proof fn lemma_free(v: Seq<IdEntryV>, base: Seq<char>, n: nat)
    requires
        n <= v.len(),
        forall|k: nat| k < n ==> issued(v, #[trigger] id_candidate(base, k)),
    ensures
        !issued(v, free_id(v, base, n)),
    decreases v.len() - n,
{
    if n < v.len() {
        if issued(v, id_candidate(base, n)) {
            lemma_free(v, base, n + 1);
        }
    } else if issued(v, id_candidate(base, n)) {
        lemma_candidates(base, n + 1);
        lemma_taken(v, n);
        assert forall|x: Seq<char>| candidates(base, n + 1).contains(x) implies taken(v, n).contains(x) by {
            let k = choose|k: nat| k < n + 1 && x == id_candidate(base, k);
            assert(issued(v, id_candidate(base, k)));
            let i = choose|i: int| 0 <= i < v.len() && #[trigger] v[i].id == x;
            assert(taken(v, n).contains(v[i].id));
        }
        vstd::set_lib::lemma_len_subset(candidates(base, n + 1), taken(v, n));
    }
}

/// Giving out an identifier keeps them distinct: an identifier never names two elements.
pub proof fn identifiers_stay_distinct(v: Seq<IdEntryV>, prefix: Seq<char>, key: Seq<char>)
    requires
        ids_valid(v),
    ensures
        ids_valid(ids_with(v, prefix, key)),
{
    lemma_id_from(v, prefix, key, 0);
    if id_from(v, prefix, key, 0) is None {
        let base = id_base(prefix, key);
        lemma_free(v, base, 0);
        let w = ids_with(v, prefix, key);
        assert forall|i: int, j: int|
            #![trigger w[i], w[j]]
            0 <= i < j < w.len() implies w[i].id != w[j].id && (w[i].prefix != w[j].prefix || w[i].key
            != w[j].key) by {
            assert(w[i] == v[i]);
            if j == v.len() {
                assert(!entry_is(v, i, prefix, key));
                assert(w[j].id == free_id(v, base, 0));
                assert(v[i].id != free_id(v, base, 0));
            } else {
                assert(w[j] == v[j]);
            }
        }
    }
}

/// An element keeps its identifier, whatever element is asked for in between.
pub proof fn identifiers_are_stable(
    v: Seq<IdEntryV>,
    prefix: Seq<char>,
    key: Seq<char>,
    other_prefix: Seq<char>,
    other_key: Seq<char>,
)
    ensures
        id_of(ids_with(v, prefix, key), prefix, key) == id_of(v, prefix, key),
        id_of(ids_with(ids_with(v, prefix, key), other_prefix, other_key), prefix, key) == id_of(
            v,
            prefix,
            key,
        ),
{
    let id = id_of(v, prefix, key);
    let w = ids_with(v, prefix, key);
    lemma_id_pushed(v, IdEntryV { prefix, key, id }, prefix, key, 0);
    assert(id_from(w, prefix, key, 0) == Some(id));
    let next = id_of(w, other_prefix, other_key);
    lemma_id_pushed(
        w,
        IdEntryV { prefix: other_prefix, key: other_key, id: next },
        prefix,
        key,
        0,
    );
}

/// Two different elements have different identifiers.
pub proof fn different_elements_have_different_identifiers(
    v: Seq<IdEntryV>,
    prefix: Seq<char>,
    key: Seq<char>,
    other_prefix: Seq<char>,
    other_key: Seq<char>,
)
    requires
        ids_valid(v),
        prefix != other_prefix || key != other_key,
    ensures
        id_of(ids_with(v, prefix, key), other_prefix, other_key) != id_of(v, prefix, key),
{
    let w = ids_with(v, prefix, key);
    identifiers_stay_distinct(v, prefix, key);
    identifiers_are_stable(v, prefix, key, other_prefix, other_key);
    let x = ids_with(w, other_prefix, other_key);
    identifiers_stay_distinct(w, other_prefix, other_key);
    identifiers_are_stable(w, other_prefix, other_key, prefix, key);
    lemma_id_pushed(
        v,
        IdEntryV { prefix, key, id: id_of(v, prefix, key) },
        prefix,
        key,
        0,
    );
    lemma_id_pushed(
        w,
        IdEntryV { prefix: other_prefix, key: other_key, id: id_of(w, other_prefix, other_key) },
        other_prefix,
        other_key,
        0,
    );
    lemma_id_pushed(
        w,
        IdEntryV { prefix: other_prefix, key: other_key, id: id_of(w, other_prefix, other_key) },
        prefix,
        key,
        0,
    );
    lemma_id_from(x, prefix, key, 0);
    lemma_id_from(x, other_prefix, other_key, 0);
    let a = choose|k: int|
        0 <= k < x.len() && #[trigger] entry_is(x, k, prefix, key) && x[k].id == id_of(v, prefix, key);
    let b = choose|k: int|
        0 <= k < x.len() && #[trigger] entry_is(x, k, other_prefix, other_key) && x[k].id == id_of(
            w,
            other_prefix,
            other_key,
        );
    assert(a != b);
    if a < b {
        assert(x[a].id != x[b].id);
    } else {
        assert(x[b].id != x[a].id);
    }
}

} // verus!
