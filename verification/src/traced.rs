//! Where the accesses of a graph come from: calls of verbs in the functions that its items name.

use vstd::prelude::*;

use crate::ast::{AdoptedFnV, ItemV, TaskSourceV};
use crate::bindings::{
    access_of, adopted_fns, all_expanded, bundle_named, expanded, fn_named, fn_sources, FnRef,
};
use crate::coupling::{aliases, aliases_from, discovered_key, flow_fns, paths_alias};
use crate::discover::{BundleV, DiscoveredV};
use crate::lists::ident_entries;
use crate::parse::{name_of, Fault};
use crate::rust::{call_path, signal_argument, ExprTextV};
use crate::scan::{
    accessed, body_calls, call_accesses, first_mark, fn_accesses, fn_gates, mark_of, node_name,
    verbs_of, AccessV, SrcFnV,
};
use crate::ast::stripped;
use crate::text::starts_with;
use crate::token::{close_of, is_punct, is_word, lexed, past_group, source_text, Delim, TokV};
use crate::verbs::{
    builtin_read, builtin_write, custom_direction, entered, first_comma, fn_end, rewritten,
    take_registration, verb_at, verb_direction, walk_of, with_verb, with_verbs, ReplyV, RewriteV,
    VerbCallV, VerbTableV, WalkV,
};

verus! {

/// Whatever a function registers, the built-in verbs point their own way.
pub proof fn the_built_in_verbs_point_their_way(t: VerbTableV)
    ensures
        verb_direction(t, "put"@) == Some(true),
        verb_direction(t, "writer"@) == Some(true),
        verb_direction(t, "beat_put"@) == Some(true),
        verb_direction(t, "beat_writer"@) == Some(true),
        verb_direction(t, "get"@) == Some(false),
        verb_direction(t, "reader"@) == Some(false),
        verb_direction(t, "open"@) == Some(false),
        verb_direction(t, "lease"@) == Some(false),
{
    reveal_strlit("put");
    reveal_strlit("writer");
    reveal_strlit("beat_put");
    reveal_strlit("beat_writer");
    reveal_strlit("get");
    reveal_strlit("reader");
    reveal_strlit("open");
    reveal_strlit("lease");
    assert("put"@.len() == 3 && "put"@[0] == 'p');
    assert("get"@.len() == 3 && "get"@[0] == 'g');
    assert("writer"@.len() == 6 && "writer"@[0] == 'w');
    assert("reader"@.len() == 6 && "reader"@[0] == 'r');
    assert("beat_put"@.len() == 8);
    assert("beat_writer"@.len() == 11);
    assert("open"@.len() == 4);
    assert("lease"@.len() == 5);
}

/// A verb that a table knows is built in, or one of those registered.
pub proof fn a_verb_is_built_in_or_registered(t: VerbTableV, name: Seq<char>)
    requires
        verb_direction(t, name) is Some,
    ensures
        name == "put"@ || name == "writer"@ || name == "beat_put"@ || name == "beat_writer"@ || name
            == "get"@ || name == "reader"@ || name == "open"@ || name == "lease"@ || exists|i: int|
            0 <= i < t.custom.len() && (#[trigger] t.custom[i]).0 == name && verb_direction(t, name)
                == Some(t.custom[i].1),
{
    if !builtin_write(name) && !builtin_read(name) {
        lemma_custom(t.custom, name, 0);
    }
}

proof fn lemma_custom(custom: Seq<(Seq<char>, bool)>, name: Seq<char>, i: int)
    requires
        0 <= i,
        custom_direction(custom, name, i) is Some,
    ensures
        exists|k: int|
            0 <= k < custom.len() && (#[trigger] custom[k]).0 == name && custom_direction(
                custom,
                name,
                i,
            ) == Some(custom[k].1),
    decreases custom.len() - i,
{
    if custom[i].0 != name {
        lemma_custom(custom, name, i + 1);
    }
}

proof fn lemma_custom_push(custom: Seq<(Seq<char>, bool)>, x: (Seq<char>, bool), name: Seq<char>, i: int)
    requires
        0 <= i <= custom.len(),
    ensures
        custom_direction(custom.push(x), name, i) == (match custom_direction(custom, name, i) {
            Some(w) => Some(w),
            None => if x.0 == name {
                Some(x.1)
            } else {
                None
            },
        }),
    decreases custom.len() - i,
{
    let more = custom.push(x);
    if i < custom.len() {
        assert(more[i] == custom[i]);
        lemma_custom_push(custom, x, name, i + 1);
    } else {
        assert(more[i] == x);
        assert(custom_direction(more, name, i + 1) is None);
    }
}

proof fn lemma_with_verbs(
    t: VerbTableV,
    names: Seq<Seq<char>>,
    write: bool,
    i: int,
    u: VerbTableV,
    name: Seq<char>,
)
    requires
        0 <= i <= names.len(),
        with_verbs(t, names, write, i) == Ok::<VerbTableV, Fault>(u),
    ensures
        verb_direction(t, name) is Some ==> verb_direction(u, name) == verb_direction(t, name),
        (exists|k: int| i <= k < names.len() && names[k] == name) ==> verb_direction(u, name)
            == Some(write) && verb_direction(t, name) is None,
        verb_direction(u, name) is Some && verb_direction(t, name) is None ==> exists|k: int|
            i <= k < names.len() && names[k] == name,
    decreases names.len() - i,
{
    if i < names.len() {
        let v = with_verb(t, names[i], write)->Ok_0;
        lemma_custom_push(t.custom, (names[i], write), name, 0);
        lemma_with_verbs(v, names, write, i + 1, u, name);
        if names[i] == name {
            assert(verb_direction(v, name) == Some(write));
        }
    }
}

/// `read(a, b)` registers verbs that read, `write(a, b)` verbs that write: those named, no others,
/// and all verbs known before stay as they were.
pub proof fn a_registration_points_as_it_says(
    t: VerbTableV,
    s: Seq<TokV>,
    p: int,
    e: int,
    u: VerbTableV,
    q: int,
    name: Seq<char>,
) -> (names: Seq<Seq<char>>)
    requires
        take_registration(t, s, p, e) == Ok::<(VerbTableV, int), Fault>((u, q)),
    ensures
        name_of(s[p]) == "read"@ || name_of(s[p]) == "write"@,
        names.contains(name) ==> verb_direction(u, name) == Some(name_of(s[p]) == "write"@),
        !names.contains(name) ==> verb_direction(u, name) == verb_direction(t, name),
        s[p + 1] == TokV::Open(Delim::Paren),
        ident_entries(s, p + 2, close_of(s, p + 1, e), Seq::empty()) == Ok::<Seq<Seq<char>>, Fault>(
            names,
        ),
{
    let names = ident_entries(s, p + 2, close_of(s, p + 1, e), Seq::empty())->Ok_0;
    lemma_with_verbs(t, names, name_of(s[p]) == "write"@, 0, u, name);
    if names.contains(name) {
        let k = choose|k: int| 0 <= k < names.len() && names[k] == name;
        assert(names[k] == name);
    }
    names
}

/// The call stands in the text: a verb called on the node, whose first argument names the signal.
pub open spec fn call_stands(c: VerbCallV, s: Seq<TokV>, i: int, node: Seq<char>, verbs: VerbTableV) -> bool {
    &&& 0 <= i
    &&& i + 3 < s.len()
    &&& is_word(s[i], node)
    &&& is_punct(s[i + 1], '.')
    &&& s[i + 2] is Ident && s[i + 2]->Ident_name == c.verb
    &&& s[i + 3] == TokV::Open(Delim::Paren)
    &&& verb_direction(verbs, c.verb) == Some(c.write)
    &&& exists|m: int| i + 4 <= m && signal_argument(#[trigger] source_text(s, i + 4, m)) == Some(c.target)
    &&& c.path == stripped(c.target)
}

spec fn stands(c: VerbCallV, s: Seq<TokV>, node: Seq<char>, verbs: VerbTableV) -> bool {
    exists|i: int| call_stands(c, s, i, node, verbs)
}

spec fn all_stand(calls: Seq<VerbCallV>, s: Seq<TokV>, node: Seq<char>, verbs: VerbTableV) -> bool {
    forall|k: int| 0 <= k < calls.len() ==> stands(#[trigger] calls[k], s, node, verbs)
}

proof fn lemma_entered_stands(
    x: WalkV,
    s: Seq<TokV>,
    i: int,
    e: int,
    lo: int,
    cfgs: Seq<Seq<char>>,
    w: RewriteV,
)
    requires
        0 <= i < e <= s.len(),
        verb_at(x, s, lo, i, e) is Some,
        all_stand(w.calls, s, x.node, x.verbs),
    ensures
        all_stand(
            entered(x, s, i + 3, e, verb_at(x, s, lo, i, e)->0, cfgs, w).calls,
            s,
            x.node,
            x.verbs,
        ),
{
    let write = verb_at(x, s, lo, i, e)->0;
    let r = entered(x, s, i + 3, e, write, cfgs, w);
    let c = close_of(s, i + 3, e);
    let m = first_comma(s, i + 4, c, 0);
    crate::lists::lemma_close_from(s, i + 4, e, 0);
    crate::verbs::lemma_first_comma(s, i + 4, c, 0);
    if let Some(target) = signal_argument(source_text(s, i + 4, m)) {
        let call = VerbCallV {
            verb: s[i + 2]->Ident_name,
            cfgs,
            write,
            target,
            path: stripped(target),
        };
        assert(call_stands(call, s, i, x.node, x.verbs));
        assert(stands(call, s, x.node, x.verbs));
        let calls = w.calls.push(call);
        assert forall|k: int| 0 <= k < calls.len() implies stands(
            #[trigger] calls[k],
            s,
            x.node,
            x.verbs,
        ) by {
            if k < w.calls.len() {
                assert(calls[k] == w.calls[k]);
            }
        }
    }
}

proof fn lemma_all_stand(
    x: WalkV,
    s: Seq<TokV>,
    lo: int,
    i: int,
    e: int,
    inherited: Seq<Seq<char>>,
    pending: Seq<Seq<char>>,
    current: Seq<Seq<char>>,
    w: RewriteV,
)
    requires
        0 <= i,
        e <= s.len(),
        all_stand(w.calls, s, x.node, x.verbs),
    ensures
        all_stand(
            rewritten(x, s, lo, i, e, inherited, pending, current, w).calls,
            s,
            x.node,
            x.verbs,
        ),
    decreases e - i,
{
    let now = current + pending;
    let none = Seq::<Seq<char>>::empty();
    if i >= e {
    } else if crate::parse::punct_at(s, i, e, '#') && crate::parse::open_at(
        s,
        i + 1,
        e,
        Delim::Bracket,
    ) {
        crate::lists::lemma_close_from(s, i + 2, e, 0);
        lemma_all_stand(
            x,
            s,
            lo,
            past_group(s, i + 1, e),
            e,
            inherited,
            if crate::verbs::cfg_group(s, i + 1, e) {
                pending.push(crate::verbs::cfg_predicate(s, i + 1, e))
            } else {
                pending
            },
            current,
            crate::verbs::copied(w, s, i, past_group(s, i + 1, e)),
        );
    } else if crate::parse::word_at(s, i, e, "fn"@) && i + 1 < e && s[i + 1] is Ident {
        crate::verbs::lemma_fn_end(s, i, e);
        lemma_all_stand(
            x,
            s,
            lo,
            fn_end(s, i, e),
            e,
            inherited,
            none,
            none,
            crate::verbs::copied(w, s, i, fn_end(s, i, e)),
        );
    } else if verb_at(x, s, lo, i, e) is Some {
        let write = verb_at(x, s, lo, i, e)->0;
        let c = close_of(s, i + 3, e);
        crate::lists::lemma_close_from(s, i + 4, e, 0);
        crate::verbs::lemma_first_comma(s, i + 4, c, 0);
        let w0 = crate::verbs::copied(w, s, i, i + 4);
        let w1 = entered(x, s, i + 3, e, write, inherited + now, w0);
        lemma_entered_stands(x, s, i, e, lo, inherited + now, w0);
        if w1.fault is None {
            let m = first_comma(s, i + 4, c, 0);
            let w2 = rewritten(x, s, m, m, c, inherited + now, none, none, w1);
            lemma_all_stand(x, s, m, m, c, inherited + now, none, none, w1);
            if w2.fault is None {
                lemma_all_stand(
                    x,
                    s,
                    lo,
                    past_group(s, i + 3, e),
                    e,
                    inherited,
                    none,
                    now,
                    crate::verbs::copied(w2, s, c, past_group(s, i + 3, e)),
                );
            }
        }
    } else {
        match s[i] {
            TokV::Open(d) => {
                let c = close_of(s, i, e);
                let q = past_group(s, i, e);
                crate::lists::lemma_close_from(s, i + 1, e, 0);
                let w0 = crate::verbs::copied(w, s, i, i + 1);
                let w2 = rewritten(x, s, i + 1, i + 1, c, inherited + now, none, none, w0);
                lemma_all_stand(x, s, i + 1, i + 1, c, inherited + now, none, none, w0);
                if w2.fault is None {
                    lemma_all_stand(
                        x,
                        s,
                        lo,
                        q,
                        e,
                        inherited,
                        none,
                        if d == Delim::Brace && !crate::verbs::goes_on(s, q, e) {
                            none
                        } else {
                            now
                        },
                        crate::verbs::copied(w2, s, c, q),
                    );
                }
            },
            _ => {
                lemma_all_stand(
                    x,
                    s,
                    lo,
                    i + 1,
                    e,
                    inherited,
                    none,
                    if is_punct(s[i], ';') || is_punct(s[i], ',') {
                        none
                    } else {
                        now
                    },
                    crate::verbs::copied(w, s, i, i + 1),
                );
            },
        }
    }
}

/// Every call that a walk finds stands in the text, with the verb's own direction and the signal
/// that its first argument names.
pub proof fn every_call_found_stands_in_the_text(
    s: Seq<TokV>,
    node: Seq<char>,
    verbs: VerbTableV,
    replies: Seq<ReplyV>,
    k: int,
) -> (i: int)
    requires
        0 <= k < walk_of(s, node, verbs, replies).calls.len(),
    ensures
        call_stands(walk_of(s, node, verbs, replies).calls[k], s, i, node, verbs),
{
    let none = Seq::<Seq<char>>::empty();
    lemma_all_stand(
        WalkV { node, verbs, replies },
        s,
        0,
        0,
        s.len() as int,
        none,
        none,
        none,
        RewriteV { out: Seq::empty(), calls: Seq::empty(), fault: None },
    );
    let c = walk_of(s, node, verbs, replies).calls[k];
    assert(stands(c, s, node, verbs));
    choose|i: int| call_stands(c, s, i, node, verbs)
}

/// The call at `j` stands in `s[i..e]`, part of the tokens `s[lo..e]` of one group, outside
/// attributes and nested functions, and outside the first argument of another verb's call.
pub open spec fn call_in_reach(
    s: Seq<TokV>,
    node: Seq<char>,
    verbs: VerbTableV,
    lo: int,
    i: int,
    e: int,
    j: int,
) -> bool
    decreases e - i,
{
    let x = WalkV { node, verbs, replies: Seq::empty() };
    if i < 0 || i >= e {
        false
    } else if crate::parse::punct_at(s, i, e, '#') && crate::parse::open_at(
        s,
        i + 1,
        e,
        Delim::Bracket,
    ) {
        proof {
            crate::lists::lemma_close_from(s, i + 2, e, 0);
        }
        call_in_reach(s, node, verbs, lo, past_group(s, i + 1, e), e, j)
    } else if crate::parse::word_at(s, i, e, "fn"@) && i + 1 < e && s[i + 1] is Ident {
        proof {
            crate::verbs::lemma_fn_end(s, i, e);
        }
        call_in_reach(s, node, verbs, lo, fn_end(s, i, e), e, j)
    } else if verb_at(x, s, lo, i, e) is Some {
        let c = close_of(s, i + 3, e);
        let m = first_comma(s, i + 4, c, 0);
        proof {
            crate::lists::lemma_close_from(s, i + 4, e, 0);
            crate::verbs::lemma_first_comma(s, i + 4, c, 0);
        }
        j == i || call_in_reach(s, node, verbs, m, m, c, j) || call_in_reach(
            s,
            node,
            verbs,
            lo,
            past_group(s, i + 3, e),
            e,
            j,
        )
    } else if s[i] is Open {
        proof {
            crate::lists::lemma_close_from(s, i + 1, e, 0);
        }
        call_in_reach(s, node, verbs, i + 1, i + 1, close_of(s, i, e), j) || call_in_reach(
            s,
            node,
            verbs,
            lo,
            past_group(s, i, e),
            e,
            j,
        )
    } else {
        call_in_reach(s, node, verbs, lo, i + 1, e, j)
    }
}

/// One of the calls is the one that stands at `j`.
pub open spec fn call_listed(calls: Seq<VerbCallV>, s: Seq<TokV>, node: Seq<char>, verbs: VerbTableV, j: int) -> bool {
    exists|k: int| 0 <= k < calls.len() && call_stands(#[trigger] calls[k], s, j, node, verbs)
}

proof fn lemma_listed_on(
    a: Seq<VerbCallV>,
    b: Seq<VerbCallV>,
    s: Seq<TokV>,
    node: Seq<char>,
    verbs: VerbTableV,
    j: int,
)
    requires
        call_listed(a, s, node, verbs, j),
        a.is_prefix_of(b),
    ensures
        call_listed(b, s, node, verbs, j),
{
    let k = choose|k: int| 0 <= k < a.len() && call_stands(#[trigger] a[k], s, j, node, verbs);
    assert(b.subrange(0, a.len() as int)[k] == a[k]);
    assert(b[k] == a[k]);
}

proof fn lemma_prefix_on(a: Seq<VerbCallV>, b: Seq<VerbCallV>, c: Seq<VerbCallV>)
    requires
        a.is_prefix_of(b),
        b.is_prefix_of(c),
    ensures
        a.is_prefix_of(c),
{
    assert(c.subrange(0, b.len() as int).subrange(0, a.len() as int) == c.subrange(
        0,
        a.len() as int,
    ));
}

proof fn lemma_entered_listed(
    x: WalkV,
    s: Seq<TokV>,
    i: int,
    e: int,
    lo: int,
    cfgs: Seq<Seq<char>>,
    w: RewriteV,
)
    requires
        0 <= i < e <= s.len(),
        verb_at(x, s, lo, i, e) is Some,
    ensures
        ({
            let r = entered(x, s, i + 3, e, verb_at(x, s, lo, i, e)->0, cfgs, w);
            &&& w.calls.is_prefix_of(r.calls)
            &&& r.fault is None ==> call_listed(r.calls, s, x.node, x.verbs, i)
        }),
{
    let write = verb_at(x, s, lo, i, e)->0;
    let r = entered(x, s, i + 3, e, write, cfgs, w);
    let c = close_of(s, i + 3, e);
    let m = first_comma(s, i + 4, c, 0);
    crate::lists::lemma_close_from(s, i + 4, e, 0);
    crate::verbs::lemma_first_comma(s, i + 4, c, 0);
    assert(w.calls.subrange(0, w.calls.len() as int) == w.calls);
    if let Some(target) = signal_argument(source_text(s, i + 4, m)) {
        let call = VerbCallV {
            verb: s[i + 2]->Ident_name,
            cfgs,
            write,
            target,
            path: stripped(target),
        };
        assert(call_stands(call, s, i, x.node, x.verbs));
        let calls = w.calls.push(call);
        assert(calls.subrange(0, w.calls.len() as int) == w.calls);
        assert(calls[w.calls.len() as int] == call);
        assert(call_listed(calls, s, x.node, x.verbs, i));
    }
}

proof fn lemma_in_reach_listed(
    x: WalkV,
    s: Seq<TokV>,
    lo: int,
    i: int,
    e: int,
    inherited: Seq<Seq<char>>,
    pending: Seq<Seq<char>>,
    current: Seq<Seq<char>>,
    w: RewriteV,
    j: int,
)
    requires
        0 <= i,
        e <= s.len(),
    ensures
        ({
            let r = rewritten(x, s, lo, i, e, inherited, pending, current, w);
            &&& w.calls.is_prefix_of(r.calls)
            &&& r.fault is None && call_in_reach(s, x.node, x.verbs, lo, i, e, j) ==> call_listed(
                r.calls,
                s,
                x.node,
                x.verbs,
                j,
            )
        }),
    decreases e - i,
{
    let r = rewritten(x, s, lo, i, e, inherited, pending, current, w);
    let now = current + pending;
    let none = Seq::<Seq<char>>::empty();
    assert(w.calls.subrange(0, w.calls.len() as int) == w.calls);
    assert(verb_at(x, s, lo, i, e) == verb_at(
        WalkV { node: x.node, verbs: x.verbs, replies: Seq::empty() },
        s,
        lo,
        i,
        e,
    ));
    if i >= e {
    } else if crate::parse::punct_at(s, i, e, '#') && crate::parse::open_at(
        s,
        i + 1,
        e,
        Delim::Bracket,
    ) {
        crate::lists::lemma_close_from(s, i + 2, e, 0);
        lemma_in_reach_listed(
            x,
            s,
            lo,
            past_group(s, i + 1, e),
            e,
            inherited,
            if crate::verbs::cfg_group(s, i + 1, e) {
                pending.push(crate::verbs::cfg_predicate(s, i + 1, e))
            } else {
                pending
            },
            current,
            crate::verbs::copied(w, s, i, past_group(s, i + 1, e)),
            j,
        );
    } else if crate::parse::word_at(s, i, e, "fn"@) && i + 1 < e && s[i + 1] is Ident {
        crate::verbs::lemma_fn_end(s, i, e);
        lemma_in_reach_listed(
            x,
            s,
            lo,
            fn_end(s, i, e),
            e,
            inherited,
            none,
            none,
            crate::verbs::copied(w, s, i, fn_end(s, i, e)),
            j,
        );
    } else if verb_at(x, s, lo, i, e) is Some {
        let write = verb_at(x, s, lo, i, e)->0;
        let c = close_of(s, i + 3, e);
        crate::lists::lemma_close_from(s, i + 4, e, 0);
        crate::verbs::lemma_first_comma(s, i + 4, c, 0);
        let w0 = crate::verbs::copied(w, s, i, i + 4);
        let w1 = entered(x, s, i + 3, e, write, inherited + now, w0);
        lemma_entered_listed(x, s, i, e, lo, inherited + now, w0);
        if w1.fault is None {
            let m = first_comma(s, i + 4, c, 0);
            let w2 = rewritten(x, s, m, m, c, inherited + now, none, none, w1);
            lemma_in_reach_listed(x, s, m, m, c, inherited + now, none, none, w1, j);
            lemma_prefix_on(w.calls, w1.calls, w2.calls);
            if w2.fault is None {
                let w3 = crate::verbs::copied(w2, s, c, past_group(s, i + 3, e));
                lemma_in_reach_listed(
                    x,
                    s,
                    lo,
                    past_group(s, i + 3, e),
                    e,
                    inherited,
                    none,
                    now,
                    w3,
                    j,
                );
                lemma_prefix_on(w.calls, w2.calls, r.calls);
                if r.fault is None {
                    if j == i {
                        lemma_prefix_on(w1.calls, w2.calls, r.calls);
                        lemma_listed_on(w1.calls, r.calls, s, x.node, x.verbs, j);
                    } else if call_in_reach(s, x.node, x.verbs, m, m, c, j) {
                        lemma_listed_on(w2.calls, r.calls, s, x.node, x.verbs, j);
                    }
                }
            }
        }
    } else {
        match s[i] {
            TokV::Open(d) => {
                let c = close_of(s, i, e);
                let q = past_group(s, i, e);
                crate::lists::lemma_close_from(s, i + 1, e, 0);
                let w0 = crate::verbs::copied(w, s, i, i + 1);
                let w2 = rewritten(x, s, i + 1, i + 1, c, inherited + now, none, none, w0);
                lemma_in_reach_listed(x, s, i + 1, i + 1, c, inherited + now, none, none, w0, j);
                if w2.fault is None {
                    lemma_in_reach_listed(
                        x,
                        s,
                        lo,
                        q,
                        e,
                        inherited,
                        none,
                        if d == Delim::Brace && !crate::verbs::goes_on(s, q, e) {
                            none
                        } else {
                            now
                        },
                        crate::verbs::copied(w2, s, c, q),
                        j,
                    );
                    lemma_prefix_on(w.calls, w2.calls, r.calls);
                    if r.fault is None && call_in_reach(s, x.node, x.verbs, i + 1, i + 1, c, j) {
                        lemma_listed_on(w2.calls, r.calls, s, x.node, x.verbs, j);
                    }
                }
            },
            _ => {
                lemma_in_reach_listed(
                    x,
                    s,
                    lo,
                    i + 1,
                    e,
                    inherited,
                    none,
                    if is_punct(s[i], ';') || is_punct(s[i], ',') {
                        none
                    } else {
                        now
                    },
                    crate::verbs::copied(w, s, i, i + 1),
                    j,
                );
            },
        }
    }
}

/// A walk that comes to its end finds every call of a verb on the node that stands in the body,
/// outside attributes, nested functions and the first argument of another such call.
pub proof fn every_call_in_reach_is_found(
    s: Seq<TokV>,
    node: Seq<char>,
    verbs: VerbTableV,
    replies: Seq<ReplyV>,
    j: int,
)
    requires
        walk_of(s, node, verbs, replies).fault is None,
        call_in_reach(s, node, verbs, 0, 0, s.len() as int, j),
    ensures
        call_listed(walk_of(s, node, verbs, replies).calls, s, node, verbs, j),
{
    let none = Seq::<Seq<char>>::empty();
    lemma_in_reach_listed(
        WalkV { node, verbs, replies },
        s,
        0,
        0,
        s.len() as int,
        none,
        none,
        none,
        RewriteV { out: Seq::empty(), calls: Seq::empty(), fault: None },
        j,
    );
}

/// The text is the predicate of a `cfg` attribute that stands in the body.
pub open spec fn is_gate(x: Seq<char>, s: Seq<TokV>) -> bool {
    exists|q: int, e: int| #[trigger]
        crate::verbs::cfg_group(s, q, e) && crate::verbs::cfg_predicate(s, q, e) == x
}

spec fn all_gates(list: Seq<Seq<char>>, s: Seq<TokV>) -> bool {
    forall|k: int| 0 <= k < list.len() ==> is_gate(#[trigger] list[k], s)
}

spec fn all_gated(calls: Seq<VerbCallV>, s: Seq<TokV>) -> bool {
    forall|k: int| 0 <= k < calls.len() ==> all_gates((#[trigger] calls[k]).cfgs, s)
}

proof fn lemma_gates_sum(a: Seq<Seq<char>>, b: Seq<Seq<char>>, s: Seq<TokV>)
    ensures
        all_gates(a, s) && all_gates(b, s) ==> all_gates(a + b, s),
{
    let all = a + b;
    if all_gates(a, s) && all_gates(b, s) {
        assert forall|k: int| 0 <= k < all.len() implies is_gate(#[trigger] all[k], s) by {
            if k < a.len() {
                assert(all[k] == a[k]);
            } else {
                assert(all[k] == b[k - a.len()]);
            }
        }
    }
}

proof fn lemma_gates_push(a: Seq<Seq<char>>, x: Seq<char>, s: Seq<TokV>)
    requires
        all_gates(a, s),
        is_gate(x, s),
    ensures
        all_gates(a.push(x), s),
{
    let all = a.push(x);
    assert forall|k: int| 0 <= k < all.len() implies is_gate(#[trigger] all[k], s) by {
        if k < a.len() {
            assert(all[k] == a[k]);
        }
    }
}

proof fn lemma_entered_gated(
    x: WalkV,
    s: Seq<TokV>,
    i: int,
    e: int,
    write: bool,
    cfgs: Seq<Seq<char>>,
    w: RewriteV,
)
    requires
        all_gated(w.calls, s),
        all_gates(cfgs, s),
    ensures
        all_gated(entered(x, s, i + 3, e, write, cfgs, w).calls, s),
{
    let r = entered(x, s, i + 3, e, write, cfgs, w);
    assert forall|k: int| 0 <= k < r.calls.len() implies all_gates((#[trigger] r.calls[k]).cfgs, s) by {
        if k < w.calls.len() {
            assert(r.calls[k] == w.calls[k]);
        }
    }
}

proof fn lemma_all_gated(
    x: WalkV,
    s: Seq<TokV>,
    lo: int,
    i: int,
    e: int,
    inherited: Seq<Seq<char>>,
    pending: Seq<Seq<char>>,
    current: Seq<Seq<char>>,
    w: RewriteV,
)
    requires
        0 <= i,
        e <= s.len(),
        all_gated(w.calls, s),
        all_gates(inherited, s),
        all_gates(pending, s),
        all_gates(current, s),
    ensures
        all_gated(rewritten(x, s, lo, i, e, inherited, pending, current, w).calls, s),
    decreases e - i,
{
    let now = current + pending;
    let none = Seq::<Seq<char>>::empty();
    lemma_gates_sum(current, pending, s);
    lemma_gates_sum(inherited, now, s);
    if i >= e {
    } else if crate::parse::punct_at(s, i, e, '#') && crate::parse::open_at(
        s,
        i + 1,
        e,
        Delim::Bracket,
    ) {
        crate::lists::lemma_close_from(s, i + 2, e, 0);
        if crate::verbs::cfg_group(s, i + 1, e) {
            assert(is_gate(crate::verbs::cfg_predicate(s, i + 1, e), s));
            lemma_gates_push(pending, crate::verbs::cfg_predicate(s, i + 1, e), s);
        }
        lemma_all_gated(
            x,
            s,
            lo,
            past_group(s, i + 1, e),
            e,
            inherited,
            if crate::verbs::cfg_group(s, i + 1, e) {
                pending.push(crate::verbs::cfg_predicate(s, i + 1, e))
            } else {
                pending
            },
            current,
            crate::verbs::copied(w, s, i, past_group(s, i + 1, e)),
        );
    } else if crate::parse::word_at(s, i, e, "fn"@) && i + 1 < e && s[i + 1] is Ident {
        crate::verbs::lemma_fn_end(s, i, e);
        lemma_all_gated(
            x,
            s,
            lo,
            fn_end(s, i, e),
            e,
            inherited,
            none,
            none,
            crate::verbs::copied(w, s, i, fn_end(s, i, e)),
        );
    } else if verb_at(x, s, lo, i, e) is Some {
        let write = verb_at(x, s, lo, i, e)->0;
        let c = close_of(s, i + 3, e);
        crate::lists::lemma_close_from(s, i + 4, e, 0);
        crate::verbs::lemma_first_comma(s, i + 4, c, 0);
        let w0 = crate::verbs::copied(w, s, i, i + 4);
        let w1 = entered(x, s, i + 3, e, write, inherited + now, w0);
        lemma_entered_gated(x, s, i, e, write, inherited + now, w0);
        if w1.fault is None {
            let m = first_comma(s, i + 4, c, 0);
            let w2 = rewritten(x, s, m, m, c, inherited + now, none, none, w1);
            lemma_all_gated(x, s, m, m, c, inherited + now, none, none, w1);
            if w2.fault is None {
                lemma_all_gated(
                    x,
                    s,
                    lo,
                    past_group(s, i + 3, e),
                    e,
                    inherited,
                    none,
                    now,
                    crate::verbs::copied(w2, s, c, past_group(s, i + 3, e)),
                );
            }
        }
    } else {
        match s[i] {
            TokV::Open(d) => {
                let c = close_of(s, i, e);
                let q = past_group(s, i, e);
                crate::lists::lemma_close_from(s, i + 1, e, 0);
                let w0 = crate::verbs::copied(w, s, i, i + 1);
                let w2 = rewritten(x, s, i + 1, i + 1, c, inherited + now, none, none, w0);
                lemma_all_gated(x, s, i + 1, i + 1, c, inherited + now, none, none, w0);
                if w2.fault is None {
                    lemma_all_gated(
                        x,
                        s,
                        lo,
                        q,
                        e,
                        inherited,
                        none,
                        if d == Delim::Brace && !crate::verbs::goes_on(s, q, e) {
                            none
                        } else {
                            now
                        },
                        crate::verbs::copied(w2, s, c, q),
                    );
                }
            },
            _ => {
                lemma_all_gated(
                    x,
                    s,
                    lo,
                    i + 1,
                    e,
                    inherited,
                    none,
                    if is_punct(s[i], ';') || is_punct(s[i], ',') {
                        none
                    } else {
                        now
                    },
                    crate::verbs::copied(w, s, i, i + 1),
                );
            },
        }
    }
}

/// Every predicate that a call is found behind is that of a `cfg` attribute of the body.
pub proof fn every_gate_of_a_call_stands_in_the_text(
    s: Seq<TokV>,
    node: Seq<char>,
    verbs: VerbTableV,
    replies: Seq<ReplyV>,
    k: int,
    m: int,
)
    requires
        0 <= k < walk_of(s, node, verbs, replies).calls.len(),
        0 <= m < walk_of(s, node, verbs, replies).calls[k].cfgs.len(),
    ensures
        is_gate(walk_of(s, node, verbs, replies).calls[k].cfgs[m], s),
{
    let none = Seq::<Seq<char>>::empty();
    lemma_all_gated(
        WalkV { node, verbs, replies },
        s,
        0,
        0,
        s.len() as int,
        none,
        none,
        none,
        RewriteV { out: Seq::empty(), calls: Seq::empty(), fault: None },
    );
    assert(all_gates(walk_of(s, node, verbs, replies).calls[k].cfgs, s));
}

/// The call that a walk comes to stands behind every predicate in force there: those around its
/// group, those of its statement and those just in front of it.
pub proof fn a_call_stands_behind_the_predicates_in_force(
    x: WalkV,
    s: Seq<TokV>,
    lo: int,
    i: int,
    e: int,
    inherited: Seq<Seq<char>>,
    pending: Seq<Seq<char>>,
    current: Seq<Seq<char>>,
    w: RewriteV,
    gate: Seq<char>,
)
    requires
        0 <= i < e <= s.len(),
        verb_at(x, s, lo, i, e) is Some,
        !(crate::parse::word_at(s, i, e, "fn"@) && s[i + 1] is Ident),
        inherited.contains(gate) || current.contains(gate) || pending.contains(gate),
        rewritten(x, s, lo, i, e, inherited, pending, current, w).calls.len() > w.calls.len(),
    ensures
        rewritten(
            x,
            s,
            lo,
            i,
            e,
            inherited,
            pending,
            current,
            w,
        ).calls[w.calls.len() as int].cfgs.contains(gate),
{
    let r = rewritten(x, s, lo, i, e, inherited, pending, current, w);
    let now = current + pending;
    let none = Seq::<Seq<char>>::empty();
    let write = verb_at(x, s, lo, i, e)->0;
    let c = close_of(s, i + 3, e);
    crate::lists::lemma_close_from(s, i + 4, e, 0);
    crate::verbs::lemma_first_comma(s, i + 4, c, 0);
    crate::entries::lemma_sum(current, pending, gate);
    crate::entries::lemma_sum(inherited, now, gate);
    let w0 = crate::verbs::copied(w, s, i, i + 4);
    let w1 = entered(x, s, i + 3, e, write, inherited + now, w0);
    let n = w.calls.len() as int;
    if w1.calls.len() > w.calls.len() {
        assert(w1.calls[n].cfgs == inherited + now);
    }
    if w1.fault is None {
        let m = first_comma(s, i + 4, c, 0);
        let w2 = rewritten(x, s, m, m, c, inherited + now, none, none, w1);
        lemma_in_reach_listed(x, s, m, m, c, inherited + now, none, none, w1, -1);
        if w2.fault is None {
            let w3 = crate::verbs::copied(w2, s, c, past_group(s, i + 3, e));
            lemma_in_reach_listed(
                x,
                s,
                lo,
                past_group(s, i + 3, e),
                e,
                inherited,
                none,
                now,
                w3,
                -1,
            );
            lemma_prefix_on(w1.calls, w2.calls, r.calls);
        }
        assert(r.calls.subrange(0, w1.calls.len() as int)[n] == w1.calls[n]);
    }
}

proof fn lemma_accesses(
    calls: Seq<VerbCallV>,
    i: int,
    func: Seq<char>,
    gates: Seq<Seq<char>>,
    acc: Seq<AccessV>,
)
    requires
        0 <= i,
        forall|j: int| 0 <= j < acc.len() ==> #[trigger] from_call(acc[j], calls, func, gates),
    ensures
        ({
            let r = call_accesses(calls, i, func, gates, acc);
            &&& acc.is_prefix_of(r)
            &&& forall|j: int| 0 <= j < r.len() ==> #[trigger] from_call(r[j], calls, func, gates)
            &&& forall|k: int|
                i <= k < calls.len() ==> #[trigger] has_access_of(r, calls[k])
        }),
    decreases calls.len() - i,
{
    let r = call_accesses(calls, i, func, gates, acc);
    if i < calls.len() {
        let c = calls[i];
        let x = AccessV { func, verb: c.verb, write: c.write, path: c.path, cfgs: gates + c.cfgs };
        let next = if accessed(acc, c.write, c.path) {
            acc
        } else {
            acc.push(x)
        };
        assert(stems_from(x, calls[i], func, gates));
        assert(from_call(x, calls, func, gates));
        assert forall|j: int| 0 <= j < next.len() implies #[trigger] from_call(
            next[j],
            calls,
            func,
            gates,
        ) by {
            if j < acc.len() {
                assert(next[j] == acc[j]);
            }
        }
        lemma_accesses(calls, i + 1, func, gates, next);
        assert(acc.is_prefix_of(next));
        assert(r.subrange(0, next.len() as int).subrange(0, acc.len() as int) == r.subrange(
            0,
            acc.len() as int,
        ));
        assert(has_access_of(r, c)) by {
            let j = if accessed(acc, c.write, c.path) {
                choose|j: int|
                    0 <= j < acc.len() && (#[trigger] acc[j]).write == c.write && acc[j].path
                        == c.path
            } else {
                acc.len() as int
            };
            assert(next[j].write == c.write && next[j].path == c.path);
            assert(r.subrange(0, next.len() as int)[j] == next[j]);
            assert(r[j] == next[j]);
        }
    } else {
        assert(acc.subrange(0, acc.len() as int) == acc);
    }
}

/// The access is what the call does, in function `func` behind `gates`.
pub open spec fn stems_from(
    a: AccessV,
    c: VerbCallV,
    func: Seq<char>,
    gates: Seq<Seq<char>>,
) -> bool {
    a.func == func && a.verb == c.verb && a.write == c.write && a.path == c.path && a.cfgs == gates
        + c.cfgs
}

/// The access is what one of the calls does.
pub open spec fn from_call(
    a: AccessV,
    calls: Seq<VerbCallV>,
    func: Seq<char>,
    gates: Seq<Seq<char>>,
) -> bool {
    exists|k: int| 0 <= k < calls.len() && stems_from(a, #[trigger] calls[k], func, gates)
}

/// Some access has the direction and the signal of the call.
pub open spec fn has_access_of(list: Seq<AccessV>, c: VerbCallV) -> bool {
    exists|j: int|
        0 <= j < list.len() && (#[trigger] list[j]).write == c.write && list[j].path == c.path
}

/// The calls in a marked function that takes a task node are its accesses: each call is one, by
/// direction and signal, and each access is one of the calls.
pub proof fn the_calls_of_a_function_are_its_accesses(f: SrcFnV, k: int, node: Seq<char>, s: Seq<TokV>)
    requires
        first_mark(f.attrs, 0) == Some(k),
        node_name(f.params, 0) == Some(node),
        lexed(f.body) matches Ok(t) && t == s,
    ensures
        ({
            let calls = walk_of(
                s,
                node,
                verbs_of((mark_of(f.attrs[k])->0).args),
                Seq::empty(),
            ).calls;
            let gates = fn_gates(f.attrs, k, 0, Seq::empty());
            &&& forall|j: int|
                0 <= j < calls.len() ==> #[trigger] has_access_of(fn_accesses(f), calls[j])
            &&& forall|j: int|
                0 <= j < fn_accesses(f).len() ==> #[trigger] from_call(
                    fn_accesses(f)[j],
                    calls,
                    f.name,
                    gates,
                )
        }),
{
    let calls = body_calls(f.body, node, verbs_of((mark_of(f.attrs[k])->0).args));
    lemma_accesses(calls, 0, f.name, fn_gates(f.attrs, k, 0, Seq::empty()), Seq::empty());
}

/// A function without the mark, or without a task node, has no accesses.
pub proof fn an_unmarked_function_has_no_accesses(f: SrcFnV)
    requires
        (forall|i: int| 0 <= i < f.attrs.len() ==> mark_of(#[trigger] f.attrs[i]) is None)
            || node_name(f.params, 0) is None,
    ensures
        fn_accesses(f).len() == 0,
{
    lemma_no_mark(f.attrs, 0);
}

proof fn lemma_no_mark(attrs: Seq<crate::rust::AttrV>, i: int)
    requires
        0 <= i,
    ensures
        first_mark(attrs, i) matches Some(k) ==> 0 <= k < attrs.len() && mark_of(attrs[k]) is Some,
    decreases attrs.len() - i,
{
    if i < attrs.len() {
        lemma_no_mark(attrs, i + 1);
    }
}

/// The function reference `f` is what the path names: its last segment, and the segment before it
/// where that is a module's name.
pub open spec fn refers(path: Seq<Seq<char>>, f: FnRef) -> bool {
    let n = path.len();
    &&& n >= 1
    &&& f.0 == path[n - 1]
    &&& f.1 == (if n >= 2 && path[n - 2] != "crate"@ && path[n - 2] != "self"@ && path[n - 2]
        != "super"@ {
        Some(path[n - 2])
    } else {
        None
    })
}

/// The item names the function: as its task, or among those that it adopts.
pub open spec fn item_names(item: ItemV, f: FnRef) -> bool {
    match item {
        ItemV::Node(n) => {
            ||| n.source matches Some(TaskSourceV::Spawn(e)) && calls_fn(e, f)
            ||| n.source matches Some(TaskSourceV::Shell(e)) && calls_fn(e, f)
            ||| adopts_fn(n.dataflow, f)
        },
        ItemV::Pool(p) => {
            ||| p.source matches TaskSourceV::Spawn(e) && calls_fn(e, f)
            ||| p.source matches TaskSourceV::Shell(e) && calls_fn(e, f)
            ||| adopts_fn(p.dataflow, f)
        },
        ItemV::Executor(_) => false,
    }
}

/// The expression is a call of the function.
pub open spec fn calls_fn(e: ExprTextV, f: FnRef) -> bool {
    call_path(e.callee) matches Some(path) && refers(path, f)
}

/// The list of adopted functions has the function.
pub open spec fn adopts_fn(list: Seq<AdoptedFnV>, f: FnRef) -> bool {
    exists|i: int| 0 <= i < list.len() && refers((#[trigger] list[i]).path.segments, f)
}

pub(crate) proof fn lemma_adopted(list: Seq<AdoptedFnV>, i: int, acc: Seq<FnRef>, f: FnRef)
    requires
        0 <= i,
    ensures
        adopted_fns(list, i, acc).contains(f) <==> acc.contains(f) || exists|k: int|
            i <= k < list.len() && refers((#[trigger] list[k]).path.segments, f),
    decreases list.len() - i,
{
    if i < list.len() {
        let next = match fn_named(list[i].path.segments) {
            Some(g) => acc.push(g),
            None => acc,
        };
        lemma_adopted(list, i + 1, next, f);
        assert(fn_named(list[i].path.segments) == Some(f) <==> refers(list[i].path.segments, f));
        if acc.contains(f) {
            let m = choose|m: int| 0 <= m < acc.len() && acc[m] == f;
            assert(next[m] == f);
        }
        if refers(list[i].path.segments, f) {
            assert(next[acc.len() as int] == f);
        }
        if next.contains(f) && !acc.contains(f) {
            let m = choose|m: int| 0 <= m < next.len() && next[m] == f;
            if m < acc.len() {
                assert(acc[m] == f);
            }
            assert(refers(list[i].path.segments, f));
        }
    }
}

/// The functions whose accesses an item has are the one that its task calls and those it adopts.
pub proof fn the_functions_of_an_item_are_those_it_names(item: ItemV, f: FnRef)
    ensures
        fn_sources(item).contains(f) <==> item_names(item, f),
{
    let first = crate::bindings::some_fn(
        crate::bindings::task_fn(crate::bindings::source_of_item(item)),
    );
    lemma_adopted(crate::bindings::adopted_of(item), 0, first, f);
    if first.contains(f) {
        assert(first[0] == f);
    }
    if let Some(g) = crate::bindings::task_fn(crate::bindings::source_of_item(item)) {
        assert(first[0] == g);
    }
}

/// The function is one that the item names, or one of a bundle that the item names.
pub open spec fn item_reaches(item: ItemV, bundles: Seq<BundleV>, f: FnRef) -> bool {
    exists|g: FnRef| #[trigger] item_names(item, g) && stands_for(g, bundles, f)
}

/// A name stands for the functions of the first bundle of that name, else for itself.
pub open spec fn stands_for(g: FnRef, bundles: Seq<BundleV>, f: FnRef) -> bool {
    if exists|k: int| 0 <= k < bundles.len() && is_bundle(#[trigger] bundles[k], g) {
        exists|k: int, j: int|
            0 <= k < bundles.len() && is_bundle(bundles[k], g) && (forall|i: int|
                0 <= i < k ==> !is_bundle(#[trigger] bundles[i], g)) && 0 <= j
                < bundles[k].fns.len() && f == (
                #[trigger] bundles[k].fns[j],
                Some(bundles[k].module),
            )
    } else {
        f == g
    }
}

/// The bundle has this name, and this module or file where one is given.
pub open spec fn is_bundle(b: BundleV, g: FnRef) -> bool {
    &&& b.name == g.0
    &&& g.1 matches Some(h) ==> h == b.mod_name || h == b.module
}

proof fn lemma_bundle(bundles: Seq<BundleV>, g: FnRef, i: int) -> (k: int)
    requires
        0 <= i,
        forall|j: int| 0 <= j < i && j < bundles.len() ==> !is_bundle(#[trigger] bundles[j], g),
    ensures
        match bundle_named(bundles, g, i) {
            Some(b) => 0 <= k < bundles.len() && bundles[k] == b && is_bundle(b, g) && (forall|j: int|
                0 <= j < k ==> !is_bundle(#[trigger] bundles[j], g)),
            None => forall|j: int| 0 <= j < bundles.len() ==> !is_bundle(#[trigger] bundles[j], g),
        },
    decreases bundles.len() - i,
{
    if i < bundles.len() && !is_bundle(bundles[i], g) {
        lemma_bundle(bundles, g, i + 1)
    } else {
        i
    }
}

proof fn lemma_expanded(g: FnRef, bundles: Seq<BundleV>, f: FnRef)
    ensures
        expanded(g, bundles).contains(f) <==> stands_for(g, bundles, f),
{
    let k = lemma_bundle(bundles, g, 0);
    let list = expanded(g, bundles);
    match bundle_named(bundles, g, 0) {
        Some(b) => {
            if list.contains(f) {
                let j = choose|j: int| 0 <= j < list.len() && list[j] == f;
                assert(f == (bundles[k].fns[j], Some(bundles[k].module)));
            }
            if stands_for(g, bundles, f) {
                let (n, j) = choose|n: int, j: int|
                    0 <= n < bundles.len() && is_bundle(bundles[n], g) && (forall|i: int|
                        0 <= i < n ==> !is_bundle(#[trigger] bundles[i], g)) && 0 <= j
                        < bundles[n].fns.len() && f == (
                        #[trigger] bundles[n].fns[j],
                        Some(bundles[n].module),
                    );
                assert(n == k);
                assert(list[j] == f);
            }
        },
        None => {
            assert(list[0] == g);
        },
    }
}

pub(crate) proof fn lemma_all_expanded(
    pairs: Seq<FnRef>,
    bundles: Seq<BundleV>,
    i: int,
    acc: Seq<FnRef>,
    f: FnRef,
)
    requires
        0 <= i,
    ensures
        all_expanded(pairs, bundles, i, acc).contains(f) <==> acc.contains(f) || exists|k: int|
            i <= k < pairs.len() && stands_for(#[trigger] pairs[k], bundles, f),
    decreases pairs.len() - i,
{
    if i < pairs.len() {
        let more = expanded(pairs[i], bundles);
        lemma_expanded(pairs[i], bundles, f);
        crate::entries::lemma_sum(acc, more, f);
        lemma_all_expanded(pairs, bundles, i + 1, acc + more, f);
    }
}

/// A discovered access is an item's exactly where it stands in a function that the item names,
/// itself or through a bundle: one of that name, in the module given or in the graph's own.
pub proof fn an_access_is_of_the_items_that_name_its_function(
    item: ItemV,
    bundles: Seq<BundleV>,
    d: DiscoveredV,
    module: Seq<char>,
)
    ensures
        access_of(flow_fns(item, bundles), d, module) <==> exists|f: FnRef| #[trigger]
            item_reaches(item, bundles, f) && f.0 == d.access.func && (f.1 matches Some(h) ==> h
                == d.module || d.module == module),
{
    let fns = flow_fns(item, bundles);
    let sources = fn_sources(item);
    if access_of(fns, d, module) {
        let i = choose|i: int|
            0 <= i < fns.len() && crate::bindings::is_fn(
                (d.module, d.access.func),
                #[trigger] fns[i],
                module,
            );
        let f = fns[i];
        lemma_all_expanded(sources, bundles, 0, Seq::empty(), f);
        assert(fns.contains(f));
        let k = choose|k: int|
            0 <= k < sources.len() && stands_for(#[trigger] sources[k], bundles, f);
        assert(sources.contains(sources[k]));
        the_functions_of_an_item_are_those_it_names(item, sources[k]);
        assert(item_names(item, sources[k]) && stands_for(sources[k], bundles, f));
        assert(item_reaches(item, bundles, f));
    }
    if exists|f: FnRef| #[trigger]
        item_reaches(item, bundles, f) && f.0 == d.access.func && (f.1 matches Some(h) ==> h
            == d.module || d.module == module) {
        let f = choose|f: FnRef| #[trigger]
            item_reaches(item, bundles, f) && f.0 == d.access.func && (f.1 matches Some(h) ==> h
                == d.module || d.module == module);
        let g = choose|g: FnRef| #[trigger] item_names(item, g) && stands_for(g, bundles, f);
        the_functions_of_an_item_are_those_it_names(item, g);
        let k = choose|k: int| 0 <= k < sources.len() && sources[k] == g;
        assert(stands_for(sources[k], bundles, f));
        lemma_all_expanded(sources, bundles, 0, Seq::empty(), f);
        let i = choose|i: int| 0 <= i < fns.len() && fns[i] == f;
        assert(crate::bindings::is_fn((d.module, d.access.func), fns[i], module));
    }
}

/// No name of the list is another spelling of the path.
pub open spec fn none_alias(list: Seq<Seq<char>>, path: Seq<char>) -> bool {
    forall|k: int| 0 <= k < list.len() ==> !paths_alias(#[trigger] list[k], path)
}

/// `name` is the first of the list that is another spelling of the path.
pub open spec fn first_alias(list: Seq<Seq<char>>, path: Seq<char>, name: Seq<char>) -> bool {
    exists|k: int|
        0 <= k < list.len() && #[trigger] list[k] == name && paths_alias(name, path) && forall|j: int|
            0 <= j < k ==> !paths_alias(#[trigger] list[j], path)
}

/// `name` is the only one of the list that is another spelling of the path.
pub open spec fn only_alias(list: Seq<Seq<char>>, path: Seq<char>, name: Seq<char>) -> bool {
    exists|k: int|
        0 <= k < list.len() && #[trigger] list[k] == name && paths_alias(name, path) && forall|j: int|
            0 <= j < list.len() && j != k ==> !paths_alias(#[trigger] list[j], path)
}

proof fn lemma_no_alias(list: Seq<Seq<char>>, path: Seq<char>, i: int, acc: Seq<Seq<char>>)
    requires
        0 <= i,
        forall|k: int| i <= k < list.len() ==> !paths_alias(#[trigger] list[k], path),
    ensures
        aliases_from(list, path, i, acc) == acc,
    decreases list.len() - i,
{
    if i < list.len() {
        lemma_no_alias(list, path, i + 1, acc);
    }
}

proof fn lemma_alias_grows(list: Seq<Seq<char>>, path: Seq<char>, i: int, acc: Seq<Seq<char>>)
    requires
        0 <= i,
    ensures
        acc.len() <= aliases_from(list, path, i, acc).len(),
        forall|k: int|
            0 <= k < acc.len() ==> #[trigger] aliases_from(list, path, i, acc)[k] == acc[k],
    decreases list.len() - i,
{
    if i < list.len() {
        let next = if paths_alias(list[i], path) {
            acc.push(list[i])
        } else {
            acc
        };
        lemma_alias_grows(list, path, i + 1, next);
        let r = aliases_from(list, path, i, acc);
        assert forall|k: int| 0 <= k < acc.len() implies #[trigger] r[k] == acc[k] by {
            assert(r[k] == next[k]);
        }
    }
}

proof fn lemma_skip_alias(list: Seq<Seq<char>>, path: Seq<char>, i: int, k: int)
    requires
        0 <= i <= k < list.len(),
        paths_alias(list[k], path),
        forall|j: int| i <= j < k ==> !paths_alias(#[trigger] list[j], path),
    ensures
        aliases_from(list, path, i, Seq::empty()) == aliases_from(
            list,
            path,
            k + 1,
            seq![list[k]],
        ),
    decreases k - i,
{
    if i < k {
        lemma_skip_alias(list, path, i + 1, k);
    } else {
        assert(Seq::<Seq<char>>::empty().push(list[k]) =~= seq![list[k]]);
    }
}

proof fn lemma_first_alias(list: Seq<Seq<char>>, path: Seq<char>, name: Seq<char>)
    requires
        first_alias(list, path, name),
    ensures
        aliases(list, path).len() > 0,
        aliases(list, path)[0] == name,
{
    let k = choose|k: int|
        0 <= k < list.len() && #[trigger] list[k] == name && paths_alias(name, path) && forall|j: int|
            0 <= j < k ==> !paths_alias(#[trigger] list[j], path);
    lemma_skip_alias(list, path, 0, k);
    lemma_alias_grows(list, path, k + 1, seq![list[k]]);
    assert(aliases_from(list, path, k + 1, seq![list[k]])[0] == seq![list[k]][0]);
}

proof fn lemma_only_alias(list: Seq<Seq<char>>, path: Seq<char>, name: Seq<char>)
    requires
        only_alias(list, path, name),
    ensures
        aliases(list, path) == seq![name],
{
    let k = choose|k: int|
        0 <= k < list.len() && #[trigger] list[k] == name && paths_alias(name, path) && forall|j: int|
            0 <= j < list.len() && j != k ==> !paths_alias(#[trigger] list[j], path);
    lemma_skip_alias(list, path, 0, k);
    lemma_no_alias(list, path, k + 1, seq![list[k]]);
}

/// The signal that an access is of: a path that an import settles is the first known signal that it
/// spells, else itself; a relative one is the first known signal that it spells under its module,
/// else the one declared signal that it spells, else its path under its module.
pub proof fn an_access_is_of_the_signal_that_it_spells(
    d: DiscoveredV,
    emitted: Seq<Seq<char>>,
    declared: Seq<Seq<char>>,
    name: Seq<char>,
)
    ensures
        !d.relative && first_alias(emitted, d.access.path, name) ==> discovered_key(
            d,
            emitted,
            declared,
        ) == name,
        !d.relative && none_alias(emitted, d.access.path) ==> discovered_key(d, emitted, declared)
            == d.access.path,
        d.relative && first_alias(emitted, d.module + "::"@ + d.access.path, name)
            ==> discovered_key(d, emitted, declared) == name,
        d.relative && none_alias(emitted, d.module + "::"@ + d.access.path) && only_alias(
            declared,
            d.access.path,
            name,
        ) ==> discovered_key(d, emitted, declared) == name,
        d.relative && none_alias(emitted, d.module + "::"@ + d.access.path) && none_alias(
            declared,
            d.access.path,
        ) ==> discovered_key(d, emitted, declared) == d.module + "::"@ + d.access.path,
{
    let raw = d.access.path;
    let qualified = d.module + "::"@ + raw;
    if none_alias(emitted, raw) {
        lemma_no_alias(emitted, raw, 0, Seq::empty());
    }
    if none_alias(emitted, qualified) {
        lemma_no_alias(emitted, qualified, 0, Seq::empty());
    }
    if none_alias(declared, raw) {
        lemma_no_alias(declared, raw, 0, Seq::empty());
    }
    if first_alias(emitted, raw, name) {
        lemma_first_alias(emitted, raw, name);
    }
    if first_alias(emitted, qualified, name) {
        lemma_first_alias(emitted, qualified, name);
    }
    if only_alias(declared, raw, name) {
        lemma_only_alias(declared, raw, name);
    }
}

/// Two spellings of a path are of one signal where they are equal, or one ends with the other at a
/// `::`; a leading `crate::` does not count.
pub proof fn a_path_is_spelled_by_its_tails(head: Seq<char>, tail: Seq<char>)
    requires
        !starts_with(tail, "crate::"@),
        !starts_with(head + "::"@ + tail, "crate::"@),
    ensures
        paths_alias(head + "::"@ + tail, tail),
        paths_alias(tail, head + "::"@ + tail),
        paths_alias(tail, tail),
{
    let full = head + "::"@ + tail;
    assert(full.subrange(full.len() - ("::"@ + tail).len(), full.len() as int) =~= "::"@ + tail);
}

/// The predicates of the `cfg` attributes that a function stands behind are those of its accesses.
pub proof fn the_gates_of_a_function_have_every_predicate(
    attrs: Seq<crate::rust::AttrV>,
    k: int,
    i: int,
    acc: Seq<Seq<char>>,
    j: int,
)
    requires
        0 <= i,
    ensures
        forall|x: Seq<char>| #[trigger] acc.contains(x) ==> fn_gates(attrs, k, i, acc).contains(x),
        i <= j < attrs.len() && crate::lists::is_cfg(attrs[j]) ==> fn_gates(
            attrs,
            k,
            i,
            acc,
        ).contains(stripped(attrs[j].list->0)),
        i <= k < attrs.len() && !crate::lists::is_cfg(attrs[k]) && (mark_of(attrs[k])->0).gate is Some
            ==> fn_gates(attrs, k, i, acc).contains((mark_of(attrs[k])->0).gate->0),
        fn_gates(attrs, k, i, acc).len() <= acc.len() + attrs.len() - i || i > attrs.len(),
    decreases attrs.len() - i,
{
    if i < attrs.len() {
        let next = if crate::lists::is_cfg(attrs[i]) {
            acc.push(stripped(attrs[i].list->0))
        } else if i == k && (mark_of(attrs[i])->0).gate is Some {
            acc.push((mark_of(attrs[i])->0).gate->0)
        } else {
            acc
        };
        the_gates_of_a_function_have_every_predicate(attrs, k, i + 1, next, j);
        assert forall|x: Seq<char>| #[trigger] acc.contains(x) implies next.contains(x) by {
            let m = choose|m: int| 0 <= m < acc.len() && acc[m] == x;
            assert(next[m] == x);
        }
        if next.len() > acc.len() {
            assert(next.contains(next[acc.len() as int]));
        }
    }
}

} // verus!
