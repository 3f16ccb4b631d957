//! Composing graphs from fragments, and leaving nodes out.

use vstd::prelude::*;
use vstd::string::*;

use crate::ast::{boxed_name, deps_of, Dep, DepV, GraphSpecV, Item, ItemV, NodeItemV, PoolItemV};
use crate::find::{error_text, items_of, parse_items, Decl, DeclKind, DeclV, Error, ErrorV};
use crate::list::{put, Dup};
use crate::order::{comes_before, precedes, text_order_is_total, text_order_is_transitive};
use crate::parse::{verdict, Fault};
use crate::pool::holds;
use crate::scan::append;
use crate::text::{
    after_last, before_last, cat3, cat4, cat8, decimal, decimal_usize, head_before, join, joined,
    same, tail_after, text,
};
use crate::token::{
    lex, lexed, normalize_fragment_crate, normalized, substitute_dollar_crate, substituted, Tok,
    TokV,
};

verus! {

/// The declaration is a fragment of this name.
pub open spec fn is_fragment(d: DeclV, name: Seq<char>) -> bool {
    d.kind == DeclKind::Fragment && d.spec.name == Some(name)
}

/// The positions from `i` on of the fragments of this name, behind `acc`.
pub open spec fn candidates(decls: Seq<DeclV>, name: Seq<char>, i: int, acc: Seq<int>) -> Seq<int>
    decreases decls.len() - i,
{
    if i >= decls.len() {
        acc
    } else {
        candidates(
            decls,
            name,
            i + 1,
            if is_fragment(decls[i], name) {
                acc.push(i)
            } else {
                acc
            },
        )
    }
}

/// The positions as integers.
pub open spec fn positions(v: Seq<usize>) -> Seq<int> {
    Seq::new(v.len(), |i: int| v[i] as int)
}

fn find_candidates(decls: &Vec<Decl>, name: &str) -> (r: Vec<usize>)
    ensures
        positions(r@) == candidates(decls.deep_view(), name@, 0, Seq::empty()),
        forall|k: int| 0 <= k < r@.len() ==> #[trigger] r@[k] < decls@.len(),
{
    let ghost d = decls.deep_view();
    let mut out: Vec<usize> = Vec::new();
    assert(positions(out@) == Seq::<int>::empty());
    let mut i: usize = 0;
    while i < decls.len()
        invariant
            i <= decls@.len(),
            d == decls.deep_view(),
            candidates(d, name@, 0, Seq::empty()) == candidates(d, name@, i as int, positions(out@)),
            forall|k: int| 0 <= k < out@.len() ==> #[trigger] out@[k] < decls@.len(),
        decreases decls@.len() - i,
    {
        let hit = match decls[i].kind {
            DeclKind::Fragment => match &decls[i].spec.name {
                Some(n) => same(n.as_str(), name),
                None => false,
            },
            _ => false,
        };
        if hit {
            let ghost before = positions(out@);
            out.push(i);
            assert(positions(out@) == before.push(i as int));
        }
        i = i + 1;
    }
    out
}

/// The path that a fragment's own crate has at the compose site: what stands before its name, or
/// `crate`.
pub open spec fn owner_text(want: Seq<char>) -> Seq<char> {
    match before_last(want, "::"@) {
        Some(head) => if head.len() > 0 {
            head
        } else {
            "crate"@
        },
        None => "crate"@,
    }
}

/// The tokens of a crate path; `crate` where the text is none.
pub open spec fn owner_tokens(want: Seq<char>) -> Seq<TokV> {
    match lexed(owner_text(want)) {
        Ok(s) => s,
        Err(_) => seq![TokV::Ident { name: "crate"@, line: 0 }],
    }
}

fn read_owner(want: &str) -> (r: Vec<Tok>)
    ensures
        r.deep_view() == owner_tokens(want@),
{
    let owner = match head_before(want, "::") {
        Some(head) => if head.as_str().is_empty() {
            text("crate")
        } else {
            head
        },
        None => text("crate"),
    };
    match lex(owner.as_str()) {
        Ok(toks) => toks,
        Err(_) => {
            let mut v: Vec<Tok> = Vec::new();
            v.push(Tok::Ident { name: text("crate"), line: 0 });
            assert(v.deep_view() == seq![TokV::Ident { name: "crate"@, line: 0 }]);
            v
        },
    }
}

/// The item as part of the fragment `name`.
pub open spec fn in_fragment(item: ItemV, name: Seq<char>) -> ItemV {
    match item {
        ItemV::Node(n) => ItemV::Node(NodeItemV { fragment: Some(name), ..n }),
        ItemV::Pool(p) => ItemV::Pool(PoolItemV { fragment: Some(name), ..p }),
        ItemV::Executor(_) => item,
    }
}

/// The items of a fragment body, its own crate resolved to `owner`.
pub open spec fn spliced_with(
    frag: DeclV,
    owner: Seq<TokV>,
    tail: Seq<char>,
) -> Result<Seq<ItemV>, Fault> {
    match items_of(substituted(normalized(frag.body), owner), frag.kind) {
        Err(m) => Err(m),
        Ok(g) => Ok(Seq::new(g.items.len(), |i: int| in_fragment(g.items[i], tail))),
    }
}

/// The items that the fragment named `want` contributes to a compose site.
pub open spec fn spliced(frag: DeclV, want: Seq<char>, tail: Seq<char>) -> Result<Seq<ItemV>, Fault> {
    spliced_with(frag, owner_tokens(want), tail)
}

fn put_in_fragment(item: &Item, name: &String) -> (r: Item)
    ensures
        r.deep_view() == in_fragment(item.deep_view(), name@),
{
    match item {
        Item::Node(n) => {
            let mut n = n.dup();
            n.fragment = Some(name.clone());
            Item::Node(n)
        },
        Item::Pool(p) => {
            let mut p = p.dup();
            p.fragment = Some(name.clone());
            Item::Pool(p)
        },
        other => other.dup(),
    }
}

/// The items that a fragment contributes where its own crate is `owner`.
pub fn splice_with(frag: &Decl, owner: &Vec<Tok>, tail: &String) -> (r: Result<Vec<Item>, String>)
    ensures
        verdict(r) == spliced_with(frag.deep_view(), owner.deep_view(), tail@),
{
    let body = substitute_dollar_crate(&normalize_fragment_crate(&frag.body), owner);
    let g = parse_items(&body, frag.kind)?;
    let ghost all = Seq::new(
        g.deep_view().items.len(),
        |i: int| in_fragment(g.deep_view().items[i], tail@),
    );
    let mut out: Vec<Item> = Vec::new();
    let mut i: usize = 0;
    while i < g.items.len()
        invariant
            i <= g.items@.len(),
            all == Seq::new(
                g.deep_view().items.len(),
                |i: int| in_fragment(g.deep_view().items[i], tail@),
            ),
            out.deep_view() == all.take(i as int),
        decreases g.items@.len() - i,
    {
        put(&mut out, put_in_fragment(&g.items[i], tail));
        i = i + 1;
        assert(out.deep_view() == all.take(i as int));
    }
    assert(all.take(all.len() as int) == all);
    Ok(out)
}

/// What a compose site has gathered from its fragments.
#[derive(Debug)]
pub struct Splice {
    /// The items.
    pub items: Vec<Item>,
    /// Which file declared which fragment.
    pub origins: Vec<(String, String)>,
    /// The sites of the fragments it draws.
    pub consumed: Vec<(String, usize)>,
    /// What could not be drawn.
    pub warnings: Vec<String>,
}

/// What a [`Splice`] means.
pub struct SpliceV {
    pub items: Seq<ItemV>,
    pub origins: Seq<(Seq<char>, Seq<char>)>,
    pub consumed: Seq<(Seq<char>, usize)>,
    pub warnings: Seq<Seq<char>>,
}

impl DeepView for Splice {
    type V = SpliceV;

    open spec fn deep_view(&self) -> SpliceV {
        SpliceV {
            items: self.items.deep_view(),
            origins: self.origins.deep_view(),
            consumed: self.consumed.deep_view(),
            warnings: self.warnings.deep_view(),
        }
    }
}

impl Dup for Splice {
    fn dup(&self) -> (r: Self) {
        Splice {
            items: self.items.dup(),
            origins: self.origins.dup(),
            consumed: self.consumed.dup(),
            warnings: self.warnings.dup(),
        }
    }
}


pub const FRAGMENT_MISSING: &'static str = "` is not among the files given, so its nodes are drawn only where something depends on them; pass the file declaring it for the whole graph";

pub const FRAGMENT_AMBIGUOUS: &'static str = "); none is spliced, each is drawn on its own. Rescan with only the intended file, or rename";

/// A site: `file:line`.
pub open spec fn site(d: DeclV) -> Seq<char> {
    d.origin + ":"@ + decimal(d.line as nat)
}

fn site_text(d: &Decl) -> (r: String)
    ensures
        r@ == site(d.deep_view()),
{
    let line = decimal_usize(d.line);
    cat3(d.origin.as_str(), ":", line.as_str())
}

/// The sites at these positions.
pub open spec fn sites(decls: Seq<DeclV>, at: Seq<int>) -> Seq<Seq<char>> {
    Seq::new(at.len(), |i: int| site(decls[at[i]]))
}

fn site_texts(decls: &Vec<Decl>, at: &Vec<usize>) -> (r: Vec<String>)
    requires
        forall|k: int| 0 <= k < at@.len() ==> #[trigger] at@[k] < decls@.len(),
    ensures
        r.deep_view() == sites(decls.deep_view(), positions(at@)),
{
    let ghost all = sites(decls.deep_view(), positions(at@));
    let mut out: Vec<String> = Vec::new();
    let mut i: usize = 0;
    while i < at.len()
        invariant
            i <= at@.len(),
            all == sites(decls.deep_view(), positions(at@)),
            forall|k: int| 0 <= k < at@.len() ==> #[trigger] at@[k] < decls@.len(),
            out.deep_view() == all.take(i as int),
        decreases at@.len() - i,
    {
        let s = site_text(&decls[at[i]]);
        put(&mut out, s);
        i = i + 1;
        assert(out.deep_view() == all.take(i as int));
    }
    assert(all.take(all.len() as int) == all);
    out
}

pub open spec fn missing_warning(at: DeclV, want: Seq<char>) -> Seq<char> {
    site(at) + ": fragment `"@ + want + FRAGMENT_MISSING@
}

pub open spec fn ambiguous_warning(
    at: DeclV,
    want: Seq<char>,
    decls: Seq<DeclV>,
    many: Seq<int>,
) -> Seq<char> {
    site(at) + ": fragment `"@ + want + "` is ambiguous — "@ + decimal(many.len())
        + " declarations share the name ("@ + joined(sites(decls, many), ", "@) + FRAGMENT_AMBIGUOUS@
}

/// The fragment named `want`, gathered at the compose site `at` beside what `k` holds.
pub open spec fn splice_one(decls: Seq<DeclV>, at: DeclV, want: Seq<char>, k: SpliceV) -> SpliceV {
    let tail = after_last(want, "::"@);
    let found = candidates(decls, tail, 0, Seq::empty());
    if found.len() == 0 {
        SpliceV { warnings: k.warnings.push(missing_warning(at, want)), ..k }
    } else if found.len() > 1 {
        SpliceV { warnings: k.warnings.push(ambiguous_warning(at, want, decls, found)), ..k }
    } else {
        let frag = decls[found[0]];
        let consumed = k.consumed.push((frag.origin, frag.line));
        match spliced(frag, want, tail) {
            Ok(items) => SpliceV {
                items: k.items + items,
                origins: k.origins.push((tail, frag.origin)),
                consumed,
                warnings: k.warnings,
            },
            Err(message) => SpliceV {
                consumed,
                warnings: k.warnings.push(
                    site(frag) + ": "@ + error_text(
                        ErrorV { file: frag.origin, line: frag.line, message },
                    ),
                ),
                ..k
            },
        }
    }
}

/// The fragments that a compose site names from number `i` on, gathered into `k`.
pub open spec fn splice_all(decls: Seq<DeclV>, at: DeclV, i: int, k: SpliceV) -> SpliceV
    decreases at.fragments.len() - i,
{
    if i >= at.fragments.len() {
        k
    } else {
        splice_all(decls, at, i + 1, splice_one(decls, at, at.fragments[i], k))
    }
}

impl Splice {
    fn take_one(&mut self, decls: &Vec<Decl>, at: &Decl, want: &String)
        ensures
            final(self).deep_view() == splice_one(
                decls.deep_view(),
                at.deep_view(),
                want@,
                old(self).deep_view(),
            ),
    {
        let tail = tail_after(want.as_str(), "::");
        let found = find_candidates(decls, tail.as_str());
        if found.len() == 0 {
            let here = site_text(at);
            let w = cat4(here.as_str(), ": fragment `", want.as_str(), FRAGMENT_MISSING);
            put(&mut self.warnings, w);
        } else if found.len() > 1 {
            let here = site_text(at);
            let n = decimal_usize(found.len());
            let list = site_texts(decls, &found);
            let places = join(&list, ", ");
            let w = cat8(
                here.as_str(),
                ": fragment `",
                want.as_str(),
                "` is ambiguous — ",
                n.as_str(),
                " declarations share the name (",
                places.as_str(),
                FRAGMENT_AMBIGUOUS,
            );
            put(&mut self.warnings, w);
        } else {
            let frag = &decls[found[0]];
            assert(positions(found@)[0] == found@[0]);
            put(&mut self.consumed, (frag.origin.clone(), frag.line));
            let owner = read_owner(want.as_str());
            match splice_with(frag, &owner, &tail) {
                Ok(items) => {
                    put(&mut self.origins, (tail, frag.origin.clone()));
                    append(&mut self.items, &items);
                },
                Err(message) => {
                    let e = Error { file: frag.origin.clone(), line: frag.line, message };
                    let here = site_text(frag);
                    let said = e.to_text();
                    let w = cat3(here.as_str(), ": ", said.as_str());
                    put(&mut self.warnings, w);
                },
            }
        }
    }
}

/// The declarations resolved so far.
#[derive(Debug)]
pub struct Resolution {
    /// The declarations.
    pub decls: Vec<Decl>,
    /// The sites of the fragments drawn inside a compose site.
    pub consumed: Vec<(String, usize)>,
    /// What could not be drawn.
    pub warnings: Vec<String>,
}

/// What a [`Resolution`] means.
pub struct ResolutionV {
    pub decls: Seq<DeclV>,
    pub consumed: Seq<(Seq<char>, usize)>,
    pub warnings: Seq<Seq<char>>,
}

impl DeepView for Resolution {
    type V = ResolutionV;

    open spec fn deep_view(&self) -> ResolutionV {
        ResolutionV {
            decls: self.decls.deep_view(),
            consumed: self.consumed.deep_view(),
            warnings: self.warnings.deep_view(),
        }
    }
}

impl Dup for Resolution {
    fn dup(&self) -> (r: Self) {
        Resolution {
            decls: self.decls.dup(),
            consumed: self.consumed.dup(),
            warnings: self.warnings.dup(),
        }
    }
}


/// The compose site `at` with its fragments in it.
pub open spec fn merged(at: DeclV, k: SpliceV) -> DeclV {
    DeclV {
        spec: GraphSpecV { items: k.items + at.spec.items, ..at.spec },
        fragment_origins: k.origins,
        ..at
    }
}

/// The compose sites from number `i` on, resolved into `r`.
pub open spec fn compose_sites(decls: Seq<DeclV>, i: int, r: ResolutionV) -> ResolutionV
    decreases decls.len() - i,
{
    if i >= decls.len() {
        r
    } else if decls[i].kind != DeclKind::Compose {
        compose_sites(decls, i + 1, r)
    } else {
        let k = splice_all(
            decls,
            decls[i],
            0,
            SpliceV {
                items: Seq::empty(),
                origins: Seq::empty(),
                consumed: r.consumed,
                warnings: r.warnings,
            },
        );
        compose_sites(
            decls,
            i + 1,
            ResolutionV {
                decls: r.decls.push(merged(decls[i], k)),
                consumed: k.consumed,
                warnings: k.warnings,
            },
        )
    }
}

/// The declaration is drawn inside a compose site, or is one.
pub open spec fn drawn_inside(d: DeclV, consumed: Seq<(Seq<char>, usize)>) -> bool {
    d.kind == DeclKind::Compose || (d.kind == DeclKind::Fragment && consumed.contains(
        (d.origin, d.line),
    ))
}

/// The declarations from number `i` on that are drawn on their own, behind `acc`.
pub open spec fn drawn_alone(
    decls: Seq<DeclV>,
    consumed: Seq<(Seq<char>, usize)>,
    i: int,
    acc: Seq<DeclV>,
) -> Seq<DeclV>
    decreases decls.len() - i,
{
    if i >= decls.len() {
        acc
    } else {
        drawn_alone(
            decls,
            consumed,
            i + 1,
            if drawn_inside(decls[i], consumed) {
                acc
            } else {
                acc.push(decls[i])
            },
        )
    }
}

/// The site of `a` comes before the site of `b`: by file, then by line.
pub open spec fn sited_before(a: DeclV, b: DeclV) -> bool {
    precedes(a.origin, b.origin) || (a.origin == b.origin && a.line < b.line)
}

/// How many of the first `n` declarations of `s` stand where `d` goes behind them.
pub open spec fn slot_for(s: Seq<DeclV>, d: DeclV, n: int) -> int
    decreases n,
{
    if n <= 0 {
        0
    } else if sited_before(d, s[n - 1]) {
        slot_for(s, d, n - 1)
    } else {
        n
    }
}

/// `s` with `d` at its place by site, behind those of the same site.
pub open spec fn placed_in(s: Seq<DeclV>, d: DeclV) -> Seq<DeclV> {
    s.insert(slot_for(s, d, s.len() as int), d)
}

/// The first `n` declarations of `s`, sorted by site; those of one site keep their order.
pub open spec fn sited(s: Seq<DeclV>, n: int) -> Seq<DeclV>
    decreases n,
{
    if n <= 0 {
        Seq::empty()
    } else {
        placed_in(sited(s, n - 1), s[n - 1])
    }
}

/// The declarations to draw, and the warnings.
pub open spec fn resolved(decls: Seq<DeclV>) -> (Seq<DeclV>, Seq<Seq<char>>) {
    let r = compose_sites(
        decls,
        0,
        ResolutionV { decls: Seq::empty(), consumed: Seq::empty(), warnings: Seq::empty() },
    );
    let all = drawn_alone(decls, r.consumed, 0, r.decls);
    (sited(all, all.len() as int), r.warnings)
}

fn is_sited_before(a: &Decl, b: &Decl) -> (r: bool)
    ensures
        r == sited_before(a.deep_view(), b.deep_view()),
{
    comes_before(a.origin.as_str(), b.origin.as_str()) || (same(a.origin.as_str(), b.origin.as_str())
        && a.line < b.line)
}

fn place_in(s: &mut Vec<Decl>, d: Decl)
    ensures
        final(s).deep_view() == placed_in(old(s).deep_view(), d.deep_view()),
{
    let ghost v = s.deep_view();
    let mut n: usize = s.len();
    while n > 0 && is_sited_before(&d, &s[n - 1])
        invariant
            n <= s@.len(),
            v == s.deep_view(),
            slot_for(v, d.deep_view(), v.len() as int) == slot_for(v, d.deep_view(), n as int),
        decreases n,
    {
        n = n - 1;
    }
    let ghost dv = d.deep_view();
    s.insert(n, d);
    assert(s.deep_view() == v.insert(n as int, dv));
}

fn sort_by_site(decls: &Vec<Decl>) -> (r: Vec<Decl>)
    ensures
        r.deep_view() == sited(decls.deep_view(), decls@.len() as int),
{
    let mut out: Vec<Decl> = Vec::new();
    assert(out.deep_view() == Seq::<DeclV>::empty());
    let mut i: usize = 0;
    while i < decls.len()
        invariant
            i <= decls@.len(),
            out.deep_view() == sited(decls.deep_view(), i as int),
        decreases decls@.len() - i,
    {
        place_in(&mut out, decls[i].dup());
        i = i + 1;
    }
    out
}

fn is_consumed(consumed: &Vec<(String, usize)>, d: &Decl) -> (r: bool)
    ensures
        r == consumed.deep_view().contains((d.origin@, d.line)),
{
    let ghost c = consumed.deep_view();
    let mut i: usize = 0;
    while i < consumed.len()
        invariant
            i <= consumed@.len(),
            c == consumed.deep_view(),
            forall|k: int| 0 <= k < i ==> #[trigger] c[k] != (d.origin@, d.line),
        decreases consumed@.len() - i,
    {
        if same(consumed[i].0.as_str(), d.origin.as_str()) && consumed[i].1 == d.line {
            assert(c[i as int] == (d.origin@, d.line));
            return true;
        }
        i = i + 1;
    }
    false
}

impl Resolution {
    fn take_site(&mut self, decls: &Vec<Decl>, at: &Decl)
        ensures
            ({
                let r = old(self).deep_view();
                let k = splice_all(
                    decls.deep_view(),
                    at.deep_view(),
                    0,
                    SpliceV {
                        items: Seq::empty(),
                        origins: Seq::empty(),
                        consumed: r.consumed,
                        warnings: r.warnings,
                    },
                );
                final(self).deep_view() == (ResolutionV {
                    decls: r.decls.push(merged(at.deep_view(), k)),
                    consumed: k.consumed,
                    warnings: k.warnings,
                })
            }),
    {
        let mut k = Splice {
            items: Vec::new(),
            origins: Vec::new(),
            consumed: self.consumed.dup(),
            warnings: self.warnings.dup(),
        };
        proof {
            assert(k.items.deep_view() == Seq::<ItemV>::empty());
            assert(k.origins.deep_view() == Seq::<(Seq<char>, Seq<char>)>::empty());
        }
        let ghost k0 = k.deep_view();
        let mut i: usize = 0;
        while i < at.fragments.len()
            invariant
                i <= at.fragments@.len(),
                splice_all(decls.deep_view(), at.deep_view(), 0, k0) == splice_all(
                    decls.deep_view(),
                    at.deep_view(),
                    i as int,
                    k.deep_view(),
                ),
            decreases at.fragments@.len() - i,
        {
            k.take_one(decls, at, &at.fragments[i]);
            i = i + 1;
        }
        let mut d = at.dup();
        let mut items = k.items;
        append(&mut items, &at.spec.items);
        d.spec.items = items;
        d.fragment_origins = k.origins;
        put(&mut self.decls, d);
        self.consumed = k.consumed;
        self.warnings = k.warnings;
    }
}

/// Resolves every `compose_graph!` by splicing in its fragments.
///
/// Returns the declarations to draw, by file and line, and a warning for every fragment that is
/// missing, ambiguous or does not parse.
pub fn resolve(decls: &Vec<Decl>) -> (r: (Vec<Decl>, Vec<String>))
    ensures
        (r.0.deep_view(), r.1.deep_view()) == resolved(decls.deep_view()),
{
    let ghost d = decls.deep_view();
    let mut r = Resolution { decls: Vec::new(), consumed: Vec::new(), warnings: Vec::new() };
    proof {
        assert(r.decls.deep_view() == Seq::<DeclV>::empty());
        assert(r.consumed.deep_view() == Seq::<(Seq<char>, usize)>::empty());
        assert(r.warnings.deep_view() == Seq::<Seq<char>>::empty());
    }
    let ghost r0 = r.deep_view();
    let mut i: usize = 0;
    while i < decls.len()
        invariant
            i <= decls@.len(),
            d == decls.deep_view(),
            compose_sites(d, 0, r0) == compose_sites(d, i as int, r.deep_view()),
        decreases decls@.len() - i,
    {
        if decls[i].kind == DeclKind::Compose {
            r.take_site(decls, &decls[i]);
        }
        i = i + 1;
    }
    let mut all = r.decls;
    let consumed = r.consumed;
    let ghost start = all.deep_view();
    let mut j: usize = 0;
    while j < decls.len()
        invariant
            j <= decls@.len(),
            d == decls.deep_view(),
            drawn_alone(d, consumed.deep_view(), 0, start) == drawn_alone(
                d,
                consumed.deep_view(),
                j as int,
                all.deep_view(),
            ),
        decreases decls@.len() - j,
    {
        let inside = decls[j].kind == DeclKind::Compose || (decls[j].kind == DeclKind::Fragment
            && is_consumed(&consumed, &decls[j]));
        if !inside {
            put(&mut all, decls[j].dup());
        }
        j = j + 1;
    }
    (sort_by_site(&all), r.warnings)
}

/// The item has none of these names.
pub open spec fn stays(item: ItemV, names: Seq<Seq<char>>) -> bool {
    match boxed_name(item) {
        Some(n) => !names.contains(n),
        None => true,
    }
}

/// The deps from number `i` on that name none of these, behind `acc`.
pub open spec fn deps_left(deps: Seq<DepV>, names: Seq<Seq<char>>, i: int, acc: Seq<DepV>) -> Seq<DepV>
    decreases deps.len() - i,
{
    if i >= deps.len() {
        acc
    } else {
        deps_left(
            deps,
            names,
            i + 1,
            if names.contains(deps[i].ident) {
                acc
            } else {
                acc.push(deps[i])
            },
        )
    }
}

/// The item without its deps on these names.
pub open spec fn undepended(item: ItemV, names: Seq<Seq<char>>) -> ItemV {
    match item {
        ItemV::Node(n) => ItemV::Node(
            NodeItemV { deps: deps_left(n.deps, names, 0, Seq::empty()), ..n },
        ),
        ItemV::Pool(p) => ItemV::Pool(
            PoolItemV { deps: deps_left(p.deps, names, 0, Seq::empty()), ..p },
        ),
        ItemV::Executor(_) => item,
    }
}

/// The items from number `i` on without these names and without deps on them, behind `acc`.
pub open spec fn items_left(
    items: Seq<ItemV>,
    names: Seq<Seq<char>>,
    i: int,
    acc: Seq<ItemV>,
) -> Seq<ItemV>
    decreases items.len() - i,
{
    if i >= items.len() {
        acc
    } else {
        items_left(
            items,
            names,
            i + 1,
            if stays(items[i], names) {
                acc.push(undepended(items[i], names))
            } else {
                acc
            },
        )
    }
}

/// An item has this name.
pub open spec fn declares(items: Seq<ItemV>, name: Seq<char>) -> bool {
    exists|i: int| 0 <= i < items.len() && boxed_name(#[trigger] items[i]) == Some(name)
}

/// The names from number `i` on that no item has, behind `acc`.
pub open spec fn undeclared(
    items: Seq<ItemV>,
    names: Seq<Seq<char>>,
    i: int,
    acc: Seq<Seq<char>>,
) -> Seq<
    Seq<char>,
>
    decreases names.len() - i,
{
    if i >= names.len() {
        acc
    } else {
        undeclared(
            items,
            names,
            i + 1,
            if declares(items, names[i]) {
                acc
            } else {
                acc.push(names[i])
            },
        )
    }
}

/// The declaration without these names.
pub open spec fn excluded(d: DeclV, names: Seq<Seq<char>>) -> DeclV {
    DeclV {
        spec: GraphSpecV { items: items_left(d.spec.items, names, 0, Seq::empty()), ..d.spec },
        ..d
    }
}

pub fn item_name(item: &Item) -> (r: Option<String>)
    ensures
        r.deep_view() == boxed_name(item.deep_view()),
{
    match item {
        Item::Node(n) => Some(n.ident.clone()),
        Item::Pool(p) => Some(p.ident.clone()),
        Item::Executor(_) => None,
    }
}

fn does_declare(items: &Vec<Item>, name: &str) -> (r: bool)
    ensures
        r == declares(items.deep_view(), name@),
{
    let ghost v = items.deep_view();
    let mut i: usize = 0;
    while i < items.len()
        invariant
            i <= items@.len(),
            v == items.deep_view(),
            forall|k: int| 0 <= k < i ==> boxed_name(#[trigger] v[k]) != Some(name@),
        decreases items@.len() - i,
    {
        if let Some(n) = item_name(&items[i]) {
            if same(n.as_str(), name) {
                assert(boxed_name(v[i as int]) == Some(name@));
                return true;
            }
        }
        i = i + 1;
    }
    false
}

fn leave_deps(deps: &Vec<Dep>, names: &Vec<String>) -> (r: Vec<Dep>)
    ensures
        r.deep_view() == deps_left(deps.deep_view(), names.deep_view(), 0, Seq::empty()),
{
    let ghost d = deps.deep_view();
    let mut out: Vec<Dep> = Vec::new();
    assert(out.deep_view() == Seq::<DepV>::empty());
    let mut i: usize = 0;
    while i < deps.len()
        invariant
            i <= deps@.len(),
            d == deps.deep_view(),
            deps_left(d, names.deep_view(), 0, Seq::empty()) == deps_left(
                d,
                names.deep_view(),
                i as int,
                out.deep_view(),
            ),
        decreases deps@.len() - i,
    {
        if !holds(names, deps[i].ident.as_str()) {
            put(&mut out, deps[i].dup());
        }
        i = i + 1;
    }
    out
}

fn undepend(item: &Item, names: &Vec<String>) -> (r: Item)
    ensures
        r.deep_view() == undepended(item.deep_view(), names.deep_view()),
{
    match item {
        Item::Node(n) => {
            let mut m = n.dup();
            m.deps = leave_deps(&n.deps, names);
            Item::Node(m)
        },
        Item::Pool(p) => {
            let mut m = p.dup();
            m.deps = leave_deps(&p.deps, names);
            Item::Pool(m)
        },
        other => other.dup(),
    }
}

/// Removes the named nodes and pools from a declaration, with every dep on them.
///
/// Returns the names that the declaration does not have.
pub fn exclude(decl: &mut Decl, names: &Vec<String>) -> (r: Vec<String>)
    ensures
        final(decl).deep_view() == excluded(old(decl).deep_view(), names.deep_view()),
        r.deep_view() == undeclared(
            old(decl).deep_view().spec.items,
            names.deep_view(),
            0,
            Seq::empty(),
        ),
{
    let ghost items = decl.deep_view().spec.items;
    let ghost nv = names.deep_view();
    let mut missed: Vec<String> = Vec::new();
    assert(missed.deep_view() == Seq::<Seq<char>>::empty());
    let mut i: usize = 0;
    while i < names.len()
        invariant
            i <= names@.len(),
            items == decl.deep_view().spec.items,
            nv == names.deep_view(),
            undeclared(items, nv, 0, Seq::empty()) == undeclared(
                items,
                nv,
                i as int,
                missed.deep_view(),
            ),
        decreases names@.len() - i,
    {
        if !does_declare(&decl.spec.items, names[i].as_str()) {
            put(&mut missed, names[i].clone());
        }
        i = i + 1;
    }
    let mut left: Vec<Item> = Vec::new();
    assert(left.deep_view() == Seq::<ItemV>::empty());
    let mut j: usize = 0;
    while j < decl.spec.items.len()
        invariant
            j <= decl.spec.items@.len(),
            items == decl.deep_view().spec.items,
            nv == names.deep_view(),
            items_left(items, nv, 0, Seq::empty()) == items_left(
                items,
                nv,
                j as int,
                left.deep_view(),
            ),
        decreases decl.spec.items@.len() - j,
    {
        let keep = match item_name(&decl.spec.items[j]) {
            Some(n) => !holds(names, n.as_str()),
            None => true,
        };
        if keep {
            put(&mut left, undepend(&decl.spec.items[j], names));
        }
        j = j + 1;
    }
    decl.spec.items = left;
    missed
}

/// No declaration stands before one whose site comes first.
pub open spec fn in_site_order(s: Seq<DeclV>) -> bool {
    forall|i: int, j: int|
        #![trigger s[i], s[j]]
        0 <= i < j < s.len() ==> !sited_before(s[j], s[i])
}

proof fn lemma_sites_total(a: DeclV, b: DeclV, c: DeclV)
    ensures
        sited_before(a, b) ==> !sited_before(b, a),
        sited_before(a, b) && !sited_before(c, b) ==> sited_before(a, c),
{
    text_order_is_total(a.origin, b.origin);
    text_order_is_total(b.origin, c.origin);
    text_order_is_total(a.origin, c.origin);
    if precedes(a.origin, b.origin) && precedes(b.origin, c.origin) {
        text_order_is_transitive(a.origin, b.origin, c.origin);
    }
}

proof fn lemma_slot_for(s: Seq<DeclV>, d: DeclV, n: int)
    requires
        0 <= n <= s.len(),
    ensures
        0 <= slot_for(s, d, n) <= n,
        forall|k: int| slot_for(s, d, n) <= k < n ==> sited_before(d, #[trigger] s[k]),
        slot_for(s, d, n) > 0 ==> !sited_before(d, s[slot_for(s, d, n) - 1]),
    decreases n,
{
    if n > 0 {
        lemma_slot_for(s, d, n - 1);
    }
}

proof fn lemma_placed_in_order(s: Seq<DeclV>, d: DeclV)
    requires
        in_site_order(s),
    ensures
        in_site_order(placed_in(s, d)),
        placed_in(s, d).contains(d),
        forall|x: DeclV| #[trigger] s.contains(x) ==> placed_in(s, d).contains(x),
{
    let n = s.len() as int;
    let k = slot_for(s, d, n);
    lemma_slot_for(s, d, n);
    let p = placed_in(s, d);
    assert(p[k] == d);
    assert forall|i: int, j: int| #![trigger p[i], p[j]] 0 <= i < j < p.len() implies !sited_before(
        p[j],
        p[i],
    ) by {
        if i < k && j == k {
            lemma_sites_total(d, s[i], s[k - 1]);
            if sited_before(d, s[i]) && i < k - 1 {
                assert(!sited_before(s[k - 1], s[i]));
            }
        } else if i == k {
            lemma_sites_total(d, s[j - 1], d);
        } else if i < k && j > k {
            assert(p[i] == s[i] && p[j] == s[j - 1]);
        } else if i > k {
            assert(p[i] == s[i - 1] && p[j] == s[j - 1]);
        } else {
            assert(p[i] == s[i] && p[j] == s[j]);
        }
    }
    assert forall|x: DeclV| #[trigger] s.contains(x) implies p.contains(x) by {
        let i = choose|i: int| 0 <= i < s.len() && s[i] == x;
        if i < k {
            assert(p[i] == x);
        } else {
            assert(p[i + 1] == x);
        }
    }
}

pub(crate) proof fn lemma_sited(s: Seq<DeclV>, n: int)
    requires
        0 <= n <= s.len(),
    ensures
        in_site_order(sited(s, n)),
        sited(s, n).len() == n,
        forall|i: int| 0 <= i < n ==> sited(s, n).contains(#[trigger] s[i]),
    decreases n,
{
    if n > 0 {
        lemma_sited(s, n - 1);
        let before = sited(s, n - 1);
        lemma_slot_for(before, s[n - 1], before.len() as int);
        lemma_placed_in_order(before, s[n - 1]);
        assert forall|i: int| 0 <= i < n implies sited(s, n).contains(#[trigger] s[i]) by {
            if i < n - 1 {
                assert(before.contains(s[i]));
            }
        }
    }
}

/// What is drawn comes by file and line.
pub proof fn resolving_orders_by_site(decls: Seq<DeclV>)
    ensures
        in_site_order(resolved(decls).0),
{
    let r = compose_sites(
        decls,
        0,
        ResolutionV { decls: Seq::empty(), consumed: Seq::empty(), warnings: Seq::empty() },
    );
    let all = drawn_alone(decls, r.consumed, 0, r.decls);
    lemma_sited(all, all.len() as int);
}

pub(crate) proof fn lemma_drawn_alone(
    decls: Seq<DeclV>,
    consumed: Seq<(Seq<char>, usize)>,
    i: int,
    acc: Seq<DeclV>,
)
    requires
        0 <= i,
    ensures
        forall|x: DeclV| #[trigger] acc.contains(x) ==> drawn_alone(decls, consumed, i, acc).contains(x),
        forall|k: int|
            i <= k < decls.len() && !drawn_inside(#[trigger] decls[k], consumed) ==> drawn_alone(
                decls,
                consumed,
                i,
                acc,
            ).contains(decls[k]),
    decreases decls.len() - i,
{
    if i < decls.len() {
        let next = if drawn_inside(decls[i], consumed) {
            acc
        } else {
            acc.push(decls[i])
        };
        lemma_drawn_alone(decls, consumed, i + 1, next);
        if !drawn_inside(decls[i], consumed) {
            assert(next[acc.len() as int] == decls[i]);
            assert(next.contains(decls[i]));
            assert forall|x: DeclV| #[trigger] acc.contains(x) implies next.contains(x) by {
                let k = choose|k: int| 0 <= k < acc.len() && acc[k] == x;
                assert(next[k] == x);
            }
        }
    }
}

/// Every consumed site is that of a fragment which some compose site names and no other has the
/// name of.
spec fn rightly_consumed(decls: Seq<DeclV>, consumed: Seq<(Seq<char>, usize)>) -> bool {
    forall|k: int| 0 <= k < consumed.len() ==> claimed(decls, #[trigger] consumed[k])
}

/// A fragment at this site is the only one of a name that a compose site gives.
pub open spec fn claimed(decls: Seq<DeclV>, at: (Seq<char>, usize)) -> bool {
    exists|i: int, j: int|
        #![trigger decls[i].fragments[j]]
        0 <= i < decls.len() && decls[i].kind == DeclKind::Compose && 0 <= j
            < decls[i].fragments.len() && chosen_at(
            decls,
            after_last(decls[i].fragments[j], "::"@),
            at,
        )
}

/// The one fragment of this name stands at this site.
pub open spec fn chosen_at(decls: Seq<DeclV>, name: Seq<char>, at: (Seq<char>, usize)) -> bool {
    let found = candidates(decls, name, 0, Seq::empty());
    found.len() == 1 && (decls[found[0]].origin, decls[found[0]].line) == at
}

proof fn lemma_splice_claims(decls: Seq<DeclV>, site: int, i: int, k: SpliceV)
    requires
        0 <= site < decls.len(),
        decls[site].kind == DeclKind::Compose,
        0 <= i,
        rightly_consumed(decls, k.consumed),
    ensures
        rightly_consumed(decls, splice_all(decls, decls[site], i, k).consumed),
    decreases decls[site].fragments.len() - i,
{
    if i < decls[site].fragments.len() {
        let want = decls[site].fragments[i];
        let next = splice_one(decls, decls[site], want, k);
        let found = candidates(decls, after_last(want, "::"@), 0, Seq::empty());
        if found.len() == 1 {
            let at = (decls[found[0]].origin, decls[found[0]].line);
            assert(chosen_at(decls, after_last(decls[site].fragments[i], "::"@), at));
            assert(claimed(decls, at));
            assert(next.consumed == k.consumed.push(at));
        }
        assert(rightly_consumed(decls, next.consumed));
        lemma_splice_claims(decls, site, i + 1, next);
    }
}

proof fn lemma_compose_claims(decls: Seq<DeclV>, i: int, r: ResolutionV)
    requires
        0 <= i,
        rightly_consumed(decls, r.consumed),
    ensures
        rightly_consumed(decls, compose_sites(decls, i, r).consumed),
    decreases decls.len() - i,
{
    if i < decls.len() {
        if decls[i].kind != DeclKind::Compose {
            lemma_compose_claims(decls, i + 1, r);
        } else {
            let start = SpliceV {
                items: Seq::empty(),
                origins: Seq::empty(),
                consumed: r.consumed,
                warnings: r.warnings,
            };
            lemma_splice_claims(decls, i, 0, start);
            let k = splice_all(decls, decls[i], 0, start);
            lemma_compose_claims(
                decls,
                i + 1,
                ResolutionV {
                    decls: r.decls.push(merged(decls[i], k)),
                    consumed: k.consumed,
                    warnings: k.warnings,
                },
            );
        }
    }
}

/// A declaration that is no compose site, and no fragment that a compose site takes in, is drawn
/// as it is. So a fragment whose name is shared, or that nothing names, stays on its own.
pub proof fn what_nothing_takes_in_is_drawn_as_it_is(decls: Seq<DeclV>, i: int)
    requires
        0 <= i < decls.len(),
        decls[i].kind != DeclKind::Compose,
        decls[i].kind == DeclKind::Fragment ==> !claimed(decls, (decls[i].origin, decls[i].line)),
    ensures
        resolved(decls).0.contains(decls[i]),
{
    let start = ResolutionV { decls: Seq::empty(), consumed: Seq::empty(), warnings: Seq::empty() };
    lemma_compose_claims(decls, 0, start);
    let r = compose_sites(decls, 0, start);
    let all = drawn_alone(decls, r.consumed, 0, r.decls);
    lemma_drawn_alone(decls, r.consumed, 0, r.decls);
    if drawn_inside(decls[i], r.consumed) {
        let at = (decls[i].origin, decls[i].line);
        let k = choose|k: int| 0 <= k < r.consumed.len() && r.consumed[k] == at;
        assert(claimed(decls, r.consumed[k]));
    }
    assert(all.contains(decls[i]));
    let n = choose|n: int| 0 <= n < all.len() && all[n] == decls[i];
    lemma_sited(all, all.len() as int);
    assert(sited(all, all.len() as int).contains(all[n]));
}

proof fn lemma_no_sites(decls: Seq<DeclV>, i: int, r: ResolutionV)
    requires
        0 <= i,
        forall|k: int| 0 <= k < decls.len() ==> (#[trigger] decls[k]).kind != DeclKind::Compose,
    ensures
        compose_sites(decls, i, r) == r,
    decreases decls.len() - i,
{
    if i < decls.len() {
        lemma_no_sites(decls, i + 1, r);
    }
}

proof fn lemma_all_alone(decls: Seq<DeclV>, i: int)
    requires
        0 <= i <= decls.len(),
        forall|k: int| 0 <= k < decls.len() ==> (#[trigger] decls[k]).kind != DeclKind::Compose,
    ensures
        drawn_alone(decls, Seq::empty(), i, decls.take(i)) == decls,
    decreases decls.len() - i,
{
    if i < decls.len() {
        assert(decls.take(i).push(decls[i]) == decls.take(i + 1));
        lemma_all_alone(decls, i + 1);
    } else {
        assert(decls.take(i) == decls);
    }
}

/// Without a compose site, resolving sorts the declarations and warns of nothing.
pub proof fn without_compose_sites_resolving_only_sorts(decls: Seq<DeclV>)
    requires
        forall|k: int| 0 <= k < decls.len() ==> (#[trigger] decls[k]).kind != DeclKind::Compose,
    ensures
        resolved(decls) == (sited(decls, decls.len() as int), Seq::<Seq<char>>::empty()),
{
    let start = ResolutionV { decls: Seq::empty(), consumed: Seq::empty(), warnings: Seq::empty() };
    lemma_no_sites(decls, 0, start);
    lemma_all_alone(decls, 0);
    assert(decls.take(0) == Seq::<DeclV>::empty());
}

proof fn lemma_deps_left(deps: Seq<DepV>, names: Seq<Seq<char>>, i: int, acc: Seq<DepV>)
    requires
        0 <= i,
        forall|k: int| 0 <= k < acc.len() ==> !names.contains((#[trigger] acc[k]).ident),
    ensures
        forall|k: int|
            0 <= k < deps_left(deps, names, i, acc).len() ==> !names.contains(
                (#[trigger] deps_left(deps, names, i, acc)[k]).ident,
            ),
    decreases deps.len() - i,
{
    if i < deps.len() {
        let next = if names.contains(deps[i].ident) {
            acc
        } else {
            acc.push(deps[i])
        };
        lemma_deps_left(deps, names, i + 1, next);
        assert(deps_left(deps, names, i, acc) == deps_left(deps, names, i + 1, next));
    }
}

/// The item has none of these names and depends on none of them.
pub open spec fn free_of(item: ItemV, names: Seq<Seq<char>>) -> bool {
    stays(item, names) && forall|k: int|
        0 <= k < deps_of(item).len() ==> !names.contains((#[trigger] deps_of(item)[k]).ident)
}

proof fn lemma_items_left(items: Seq<ItemV>, names: Seq<Seq<char>>, i: int, acc: Seq<ItemV>)
    requires
        0 <= i,
        forall|k: int| 0 <= k < acc.len() ==> free_of(#[trigger] acc[k], names),
    ensures
        forall|k: int|
            0 <= k < items_left(items, names, i, acc).len() ==> free_of(
                #[trigger] items_left(items, names, i, acc)[k],
                names,
            ),
    decreases items.len() - i,
{
    if i < items.len() {
        let next = if stays(items[i], names) {
            acc.push(undepended(items[i], names))
        } else {
            acc
        };
        if stays(items[i], names) {
            lemma_deps_left(deps_of(items[i]), names, 0, Seq::empty());
            assert(free_of(undepended(items[i], names), names));
        }
        lemma_items_left(items, names, i + 1, next);
        assert(items_left(items, names, i, acc) == items_left(items, names, i + 1, next));
    }
}

/// What is excluded is gone: no item has an excluded name, and none depends on one.
pub proof fn excluding_leaves_no_trace(d: DeclV, names: Seq<Seq<char>>, k: int)
    requires
        0 <= k < excluded(d, names).spec.items.len(),
    ensures
        free_of(excluded(d, names).spec.items[k], names),
{
    lemma_items_left(d.spec.items, names, 0, Seq::empty());
}

proof fn lemma_deps_kept(deps: Seq<DepV>, names: Seq<Seq<char>>, i: int)
    requires
        0 <= i <= deps.len(),
        forall|k: int| 0 <= k < deps.len() ==> !names.contains((#[trigger] deps[k]).ident),
    ensures
        deps_left(deps, names, i, deps.take(i)) == deps,
    decreases deps.len() - i,
{
    if i < deps.len() {
        assert(deps.take(i).push(deps[i]) == deps.take(i + 1));
        lemma_deps_kept(deps, names, i + 1);
    } else {
        assert(deps.take(i) == deps);
    }
}

proof fn lemma_items_kept(items: Seq<ItemV>, names: Seq<Seq<char>>, i: int)
    requires
        0 <= i <= items.len(),
        forall|k: int| 0 <= k < items.len() ==> free_of(#[trigger] items[k], names),
    ensures
        items_left(items, names, i, items.take(i)) == items,
    decreases items.len() - i,
{
    if i < items.len() {
        assert(free_of(items[i], names));
        lemma_deps_kept(deps_of(items[i]), names, 0);
        assert(deps_of(items[i]).take(0) == Seq::<DepV>::empty());
        assert(items.take(i).push(items[i]) == items.take(i + 1));
        lemma_items_kept(items, names, i + 1);
    } else {
        assert(items.take(i) == items);
    }
}

/// Excluding what a declaration is free of changes nothing; so excluding twice is excluding once.
pub proof fn excluding_what_is_absent_changes_nothing(d: DeclV, names: Seq<Seq<char>>)
    requires
        forall|k: int| 0 <= k < d.spec.items.len() ==> free_of(#[trigger] d.spec.items[k], names),
    ensures
        excluded(d, names) == d,
{
    lemma_items_kept(d.spec.items, names, 0);
    assert(d.spec.items.take(0) == Seq::<ItemV>::empty());
}

proof fn lemma_undeclared(
    items: Seq<ItemV>,
    names: Seq<Seq<char>>,
    i: int,
    acc: Seq<Seq<char>>,
    x: Seq<char>,
)
    requires
        0 <= i,
    ensures
        undeclared(items, names, i, acc).contains(x) <==> acc.contains(x) || (!declares(items, x)
            && exists|k: int| i <= k < names.len() && #[trigger] names[k] == x),
    decreases names.len() - i,
{
    if i < names.len() {
        let next = if declares(items, names[i]) {
            acc
        } else {
            acc.push(names[i])
        };
        lemma_undeclared(items, names, i + 1, next, x);
        if acc.contains(x) {
            let k = choose|k: int| 0 <= k < acc.len() && acc[k] == x;
            assert(next[k] == x);
        }
        if names[i] == x && !declares(items, x) {
            assert(next[acc.len() as int] == x);
        }
    }
}

/// The names reported as unmatched are those asked for that no item has.
pub proof fn the_unmatched_names_are_those_not_declared(
    items: Seq<ItemV>,
    names: Seq<Seq<char>>,
    x: Seq<char>,
)
    ensures
        undeclared(items, names, 0, Seq::empty()).contains(x) <==> names.contains(x) && !declares(items, x),
{
    lemma_undeclared(items, names, 0, Seq::empty(), x);
    if names.contains(x) {
        let k = choose|k: int| 0 <= k < names.len() && names[k] == x;
        assert(names[k] == x);
    }
}

proof fn lemma_sites_kept(decls: Seq<DeclV>, i: int, r: ResolutionV)
    requires
        0 <= i,
    ensures
        compose_sites(decls, i, r).decls.len() >= r.decls.len(),
        (exists|k: int| i <= k < decls.len() && (#[trigger] decls[k]).kind == DeclKind::Compose)
            ==> compose_sites(decls, i, r).decls.len() > r.decls.len(),
    decreases decls.len() - i,
{
    if i < decls.len() {
        if decls[i].kind != DeclKind::Compose {
            lemma_sites_kept(decls, i + 1, r);
        } else {
            let k = splice_all(
                decls,
                decls[i],
                0,
                SpliceV {
                    items: Seq::empty(),
                    origins: Seq::empty(),
                    consumed: r.consumed,
                    warnings: r.warnings,
                },
            );
            lemma_sites_kept(
                decls,
                i + 1,
                ResolutionV {
                    decls: r.decls.push(merged(decls[i], k)),
                    consumed: k.consumed,
                    warnings: k.warnings,
                },
            );
        }
    }
}

proof fn lemma_alone_grows(
    decls: Seq<DeclV>,
    consumed: Seq<(Seq<char>, usize)>,
    i: int,
    acc: Seq<DeclV>,
)
    requires
        0 <= i,
    ensures
        drawn_alone(decls, consumed, i, acc).len() >= acc.len(),
    decreases decls.len() - i,
{
    if i < decls.len() {
        let next = if drawn_inside(decls[i], consumed) {
            acc
        } else {
            acc.push(decls[i])
        };
        lemma_alone_grows(decls, consumed, i + 1, next);
    }
}

/// Where there is a declaration, there is something to draw.
pub proof fn resolving_leaves_something_to_draw(decls: Seq<DeclV>)
    requires
        decls.len() > 0,
    ensures
        resolved(decls).0.len() > 0,
{
    let start = ResolutionV { decls: Seq::empty(), consumed: Seq::empty(), warnings: Seq::empty() };
    let r = compose_sites(decls, 0, start);
    let all = drawn_alone(decls, r.consumed, 0, r.decls);
    lemma_sited(all, all.len() as int);
    if forall|k: int| 0 <= k < decls.len() ==> (#[trigger] decls[k]).kind != DeclKind::Compose {
        without_compose_sites_resolving_only_sorts(decls);
        lemma_sited(decls, decls.len() as int);
    } else {
        lemma_sites_kept(decls, 0, start);
        lemma_alone_grows(decls, r.consumed, 0, r.decls);
    }
}

/// What becomes of a declaration: a compose site takes its fragments in, any other stays.
pub open spec fn becomes(d: DeclV, x: DeclV) -> bool {
    if d.kind == DeclKind::Compose {
        exists|k: SpliceV| x == #[trigger] merged(d, k)
    } else {
        x == d
    }
}

/// `from` says which declaration each of `out` has become of, none twice.
pub open spec fn stems_from(decls: Seq<DeclV>, out: Seq<DeclV>, from: Seq<int>) -> bool {
    &&& from.len() == out.len()
    &&& from.no_duplicates()
    &&& forall|k: int|
        0 <= k < out.len() ==> 0 <= #[trigger] from[k] < decls.len() && becomes(
            decls[from[k]],
            out[k],
        )
}

proof fn lemma_pushed<T>(list: Seq<T>, x: T)
    ensures
        list.push(x).contains(x),
        forall|y: T| #[trigger] list.contains(y) ==> list.push(x).contains(y),
{
    let more = list.push(x);
    assert(more[list.len() as int] == x);
    assert forall|y: T| #[trigger] list.contains(y) implies more.contains(y) by {
        let m = choose|m: int| 0 <= m < list.len() && list[m] == y;
        assert(more[m] == y);
    }
}

proof fn lemma_composed_once(decls: Seq<DeclV>, i: int, r: ResolutionV, from: Seq<int>) -> (all: Seq<
    int,
>)
    requires
        0 <= i,
        stems_from(decls, r.decls, from),
        forall|k: int|
            0 <= k < from.len() ==> #[trigger] from[k] < i && decls[from[k]].kind
                == DeclKind::Compose,
        forall|d: int|
            0 <= d < i && d < decls.len() && (#[trigger] decls[d]).kind == DeclKind::Compose
                ==> from.contains(d),
    ensures
        stems_from(decls, compose_sites(decls, i, r).decls, all),
        forall|k: int|
            0 <= k < all.len() ==> decls[#[trigger] all[k]].kind == DeclKind::Compose,
        forall|d: int|
            0 <= d < decls.len() && (#[trigger] decls[d]).kind == DeclKind::Compose
                ==> all.contains(d),
    decreases decls.len() - i,
{
    if i >= decls.len() {
        from
    } else if decls[i].kind != DeclKind::Compose {
        lemma_composed_once(decls, i + 1, r, from)
    } else {
        let k = splice_all(
            decls,
            decls[i],
            0,
            SpliceV {
                items: Seq::empty(),
                origins: Seq::empty(),
                consumed: r.consumed,
                warnings: r.warnings,
            },
        );
        let next = ResolutionV {
            decls: r.decls.push(merged(decls[i], k)),
            consumed: k.consumed,
            warnings: k.warnings,
        };
        lemma_pushed(from, i);
        assert(becomes(decls[i], merged(decls[i], k)));
        assert(stems_from(decls, next.decls, from.push(i)));
        lemma_composed_once(decls, i + 1, next, from.push(i))
    }
}

proof fn lemma_alone_once(
    decls: Seq<DeclV>,
    consumed: Seq<(Seq<char>, usize)>,
    i: int,
    acc: Seq<DeclV>,
    from: Seq<int>,
) -> (all: Seq<int>)
    requires
        0 <= i,
        stems_from(decls, acc, from),
        forall|k: int|
            0 <= k < from.len() ==> #[trigger] from[k] < i || decls[from[k]].kind
                == DeclKind::Compose,
    ensures
        stems_from(decls, drawn_alone(decls, consumed, i, acc), all),
        forall|d: int| #[trigger] from.contains(d) ==> all.contains(d),
        forall|d: int|
            i <= d < decls.len() && !drawn_inside(#[trigger] decls[d], consumed) ==> all.contains(d),
        forall|d: int| #[trigger]
            all.contains(d) ==> from.contains(d) || !drawn_inside(decls[d], consumed),
    decreases decls.len() - i,
{
    if i >= decls.len() {
        from
    } else if drawn_inside(decls[i], consumed) {
        lemma_alone_once(decls, consumed, i + 1, acc, from)
    } else {
        lemma_pushed(from, i);
        assert(stems_from(decls, acc.push(decls[i]), from.push(i)));
        let all = lemma_alone_once(decls, consumed, i + 1, acc.push(decls[i]), from.push(i));
        assert forall|d: int| #[trigger] all.contains(d) implies from.contains(d) || !drawn_inside(
            decls[d],
            consumed,
        ) by {
            if from.push(i).contains(d) && !from.contains(d) {
                let m = choose|m: int| 0 <= m < from.push(i).len() && from.push(i)[m] == d;
                if m < from.len() {
                    assert(from[m] == d);
                }
            }
        }
        all
    }
}

proof fn lemma_sorted_once(decls: Seq<DeclV>, out: Seq<DeclV>, from: Seq<int>, n: int) -> (all: Seq<
    int,
>)
    requires
        0 <= n <= out.len(),
        stems_from(decls, out, from),
    ensures
        stems_from(decls, sited(out, n), all),
        forall|d: int| #[trigger] all.contains(d) <==> from.take(n).contains(d),
    decreases n,
{
    if n <= 0 {
        Seq::empty()
    } else {
        let before = sited(out, n - 1);
        let some = lemma_sorted_once(decls, out, from, n - 1);
        let at = slot_for(before, out[n - 1], before.len() as int);
        lemma_slot_for(before, out[n - 1], before.len() as int);
        let x = from[n - 1];
        let all = some.insert(at, x);
        let head = from.take(n - 1);
        if head.contains(x) {
            let m = choose|m: int| 0 <= m < head.len() && head[m] == x;
            assert(from[m] == from[n - 1]);
        }
        assert(!some.contains(x));
        assert(all.no_duplicates()) by {
            assert forall|a: int, b: int|
                0 <= a < all.len() && 0 <= b < all.len() && a != b implies all[a] != all[b] by {
                if a != at {
                    assert(some.contains(all[a]));
                }
                if b != at {
                    assert(some.contains(all[b]));
                }
            }
        }
        assert forall|k: int| 0 <= k < all.len() implies 0 <= #[trigger] all[k] < decls.len()
            && becomes(decls[all[k]], sited(out, n)[k]) by {
            if k < at {
                assert(all[k] == some[k]);
            } else if k > at {
                assert(all[k] == some[k - 1]);
            }
        }
        assert forall|d: int| #[trigger] all.contains(d) <==> from.take(n).contains(d) by {
            if all.contains(d) {
                let m = choose|m: int| 0 <= m < all.len() && all[m] == d;
                if m == at {
                    assert(from.take(n)[n - 1] == d);
                } else {
                    assert(some.contains(d));
                    let q = choose|q: int| 0 <= q < head.len() && head[q] == d;
                    assert(from.take(n)[q] == d);
                }
            }
            if from.take(n).contains(d) {
                let part = from.take(n);
                let q = choose|q: int| 0 <= q < part.len() && part[q] == d;
                if q == n - 1 {
                    assert(all[at] == d);
                } else {
                    assert(head[q] == d);
                    assert(some.contains(d));
                    let m = choose|m: int| 0 <= m < some.len() && some[m] == d;
                    if m < at {
                        assert(all[m] == d);
                    } else {
                        assert(all[m + 1] == d);
                    }
                }
            }
        }
        all
    }
}

/// The sites of the fragments that compose sites take in.
pub open spec fn taken_in(decls: Seq<DeclV>) -> Seq<(Seq<char>, usize)> {
    compose_sites(
        decls,
        0,
        ResolutionV { decls: Seq::empty(), consumed: Seq::empty(), warnings: Seq::empty() },
    ).consumed
}

/// Resolving draws every compose site, with its fragments in it, and every other declaration that
/// no compose site takes in, each exactly once, and nothing else.
pub proof fn resolving_draws_each_declaration_once(decls: Seq<DeclV>) -> (from: Seq<int>)
    ensures
        stems_from(decls, resolved(decls).0, from),
        forall|d: int|
            #![trigger decls[d]]
            0 <= d < decls.len() ==> (from.contains(d) <==> decls[d].kind == DeclKind::Compose
                || !drawn_inside(decls[d], taken_in(decls))),
{
    let start = ResolutionV {
        decls: Seq::empty(),
        consumed: Seq::empty(),
        warnings: Seq::empty(),
    };
    let r = compose_sites(decls, 0, start);
    let composed = lemma_composed_once(decls, 0, start, Seq::empty());
    let some = lemma_alone_once(decls, r.consumed, 0, r.decls, composed);
    let all = drawn_alone(decls, r.consumed, 0, r.decls);
    let from = lemma_sorted_once(decls, all, some, all.len() as int);
    assert(some.take(all.len() as int) == some);
    assert forall|d: int| #![trigger decls[d]] 0 <= d < decls.len() implies (from.contains(d)
        <==> decls[d].kind == DeclKind::Compose || !drawn_inside(decls[d], taken_in(decls))) by {
        if composed.contains(d) {
            let m = choose|m: int| 0 <= m < composed.len() && composed[m] == d;
            assert(decls[composed[m]].kind == DeclKind::Compose);
        }
    }
    from
}

} // verus!
