//! What a state diagram shows: the lifecycle of every node and pool member.

use vstd::prelude::*;

use crate::ast::{deps_of, signal_name, DepV, GatedV, ItemV, NodeItemV, PoolItemV};
use crate::find::DeclV;
use crate::label::{escaped, prefixed, with_if, with_some};
use crate::options::OptionsV;
use crate::order::{ordered, ordering_sorts_and_keeps};
use crate::rust::IntLitV;
use crate::states::{
    any_waits, arrow, beat_part, bound_part, composite_text, composite_title, composites_from,
    entries_from, gates_dependents, groups_of, head_text, item_entries, legend_text, listed,
    moves_part, names_text, node_gates, node_shape, off_part, places_from, pool_entries_from,
    pool_entry, running_part, shape_facts, shown_down, shown_up, start_text, state_diagram,
    state_direction, waits_for, waits_from, what_shares_a_lifecycle_shares_a_group, GatesV, GroupV,
    ShapeV, GROWS, PAUSED, RESUMED,
};
use crate::text::{after_last, contains, decimal, joined, stands_at, starts_with};

verus! {

/// A transition.
pub struct Move {
    pub from: Seq<char>,
    pub to: Seq<char>,
    pub label: Seq<char>,
}

/// The line of a transition.
pub open spec fn move_line(m: Move) -> Seq<char> {
    "    "@ + m.from + " --> "@ + m.to + ": "@ + m.label + "\n"@
}

/// The lines of the first `n` transitions.
pub open spec fn move_lines(v: Seq<Move>, n: int) -> Seq<char>
    decreases n,
{
    if n <= 0 || n > v.len() {
        Seq::empty()
    } else {
        move_lines(v, n - 1) + move_line(v[n - 1])
    }
}

/// The state where a node runs.
pub open spec fn running(i: nat) -> Seq<char> {
    "g"@ + decimal(i) + "_run"@
}

/// The state where a node is down.
pub open spec fn down(i: nat) -> Seq<char> {
    "g"@ + decimal(i) + "_down"@
}

/// The state of a node that is stopped: parked where its mode is `Pause`, else down.
pub open spec fn stopped(i: nat, mode: Seq<char>) -> Seq<char> {
    if after_last(mode, "::"@) == "Pause"@ {
        "g"@ + decimal(i) + "_parked"@
    } else {
        down(i)
    }
}

/// How a start is labelled.
pub open spec fn start_label(s: ShapeV) -> Seq<char> {
    if after_last(s.mode, "::"@) == "OnDemand"@ {
        "start_node · the pool grows under load, start() skips it"@
    } else if s.parked {
        "start · only marked running, the application spawns the task"@
    } else if s.pool {
        "the pool policy brings the member up"@
    } else {
        "start · spawned in dep order"@
    }
}

/// How a stop is labelled.
pub open spec fn stop_label(s: ShapeV) -> Seq<char> {
    if after_last(s.mode, "::"@) == "Pause"@ {
        "teardown or stop_node · acks, then parks on wait_resume()"@
    } else if after_last(s.mode, "::"@) == "OnDemand"@ {
        if s.cancel {
            "stop_node · the pool shrinks"@ + ", its future dropped in place"@
        } else {
            "stop_node · the pool shrinks"@ + ", acks and exits"@
        }
    } else if s.cancel {
        "teardown or stop_node · "@ + "future dropped in place, the shell still runs its tail"@
    } else {
        "teardown or stop_node · "@ + "acks, exits its loop"@
    }
}

/// A list of transitions has this one.
pub open spec fn moves(v: Seq<Move>, from: Seq<char>, to: Seq<char>, label: Seq<char>) -> bool {
    exists|k: int|
        0 <= k < v.len() && (#[trigger] v[k]).from == from && v[k].to == to && v[k].label == label
}

/// A label is that of a stop.
pub open spec fn is_stop(label: Seq<char>) -> bool {
    starts_with(label, "teardown"@) || starts_with(label, "stop_node"@) || starts_with(
        label,
        "a bound dep called clear_ready()"@,
    )
}

/// A label is that of a start or a resume.
pub open spec fn is_start(label: Seq<char>) -> bool {
    starts_with(label, "start"@) || starts_with(label, "the pool policy"@) || starts_with(
        label,
        "resume"@,
    ) || starts_with(label, "respawn"@) || starts_with(label, "that dep is ready again"@)
}

proof fn lemma_prefix(pat: Seq<char>, s: Seq<char>, more: Seq<char>)
    requires
        starts_with(s, pat),
    ensures
        starts_with(s + more, pat),
{
    assert((s + more).subrange(0, pat.len() as int) == s.subrange(0, pat.len() as int));
}

proof fn lemma_other(pat: Seq<char>, s: Seq<char>)
    requires
        pat.len() > 0,
        s.len() > 0,
        s[0] != pat[0],
    ensures
        !starts_with(s, pat),
{
    if starts_with(s, pat) {
        assert(s.subrange(0, pat.len() as int)[0] == s[0]);
    }
}

proof fn lemma_other_at(pat: Seq<char>, s: Seq<char>, k: int)
    requires
        0 <= k < pat.len(),
        k < s.len(),
        s[k] != pat[k],
    ensures
        !starts_with(s, pat),
{
    if starts_with(s, pat) {
        assert(s.subrange(0, pat.len() as int)[k] == s[k]);
    }
}

/// What the labels start with.
proof fn lemma_words(s: ShapeV, more: Seq<char>)
    ensures
        !is_stop(start_label(s) + more),
        !is_start(stop_label(s) + more),
        !is_stop("resume_node or resume_pausable · resumed in place, keeps its resources"@),
        !is_stop("respawn_terminate"@),
        !is_start("a bound dep called clear_ready()"@),
        !is_stop("that dep is ready again · resumed in place"@),
        !is_stop("that dep is ready again · brought back through the gates"@),
        !is_stop("no beat for "@ + more),
        !is_start("no beat for "@ + more),
{
    reveal_strlit("teardown");
    reveal_strlit("stop_node");
    reveal_strlit("a bound dep called clear_ready()");
    reveal_strlit("start");
    reveal_strlit("the pool policy");
    reveal_strlit("resume");
    reveal_strlit("respawn");
    reveal_strlit("that dep is ready again");
    reveal_strlit("start_node · the pool grows under load, start() skips it");
    reveal_strlit("start · only marked running, the application spawns the task");
    reveal_strlit("the pool policy brings the member up");
    reveal_strlit("start · spawned in dep order");
    reveal_strlit("teardown or stop_node · acks, then parks on wait_resume()");
    reveal_strlit("stop_node · the pool shrinks");
    reveal_strlit("teardown or stop_node · ");
    reveal_strlit("resume_node or resume_pausable · resumed in place, keeps its resources");
    reveal_strlit("respawn_terminate");
    reveal_strlit("that dep is ready again · resumed in place");
    reveal_strlit("that dep is ready again · brought back through the gates");
    reveal_strlit("no beat for ");
    let a = start_label(s) + more;
    if a[0] == 's' {
        lemma_other("teardown"@, a);
        lemma_other("a bound dep called clear_ready()"@, a);
        lemma_other_at("stop_node"@, a, 2);
    } else {
        lemma_other_at("teardown"@, a, 1);
        lemma_other("a bound dep called clear_ready()"@, a);
        lemma_other("stop_node"@, a);
    }
    let b = stop_label(s) + more;
    if b[0] == 's' {
        lemma_other_at("start"@, b, 2);
        lemma_other("the pool policy"@, b);
        lemma_other("resume"@, b);
        lemma_other("respawn"@, b);
        lemma_other("that dep is ready again"@, b);
    } else {
        lemma_other("start"@, b);
        lemma_other_at("the pool policy"@, b, 1);
        lemma_other("resume"@, b);
        lemma_other("respawn"@, b);
        lemma_other_at("that dep is ready again"@, b, 1);
    }
    let c = "resume_node or resume_pausable · resumed in place, keeps its resources"@;
    lemma_other("teardown"@, c);
    lemma_other("a bound dep called clear_ready()"@, c);
    lemma_other("stop_node"@, c);
    let d = "respawn_terminate"@;
    lemma_other("teardown"@, d);
    lemma_other("a bound dep called clear_ready()"@, d);
    lemma_other("stop_node"@, d);
    let e = "a bound dep called clear_ready()"@;
    lemma_other("start"@, e);
    lemma_other("the pool policy"@, e);
    lemma_other("resume"@, e);
    lemma_other("respawn"@, e);
    lemma_other("that dep is ready again"@, e);
    let f = "that dep is ready again · resumed in place"@;
    lemma_other_at("teardown"@, f, 1);
    lemma_other("a bound dep called clear_ready()"@, f);
    lemma_other("stop_node"@, f);
    let g = "that dep is ready again · brought back through the gates"@;
    lemma_other_at("teardown"@, g, 1);
    lemma_other("a bound dep called clear_ready()"@, g);
    lemma_other("stop_node"@, g);
    let h = "no beat for "@ + more;
    lemma_other("teardown"@, h);
    lemma_other("a bound dep called clear_ready()"@, h);
    lemma_other("stop_node"@, h);
    lemma_other("start"@, h);
    lemma_other("the pool policy"@, h);
    lemma_other("resume"@, h);
    lemma_other("respawn"@, h);
    lemma_other("that dep is ready again"@, h);
}

proof fn lemma_lines(v: Seq<Move>, w: Seq<Move>, n: int)
    requires
        0 <= n <= w.len(),
    ensures
        move_lines(v + w, v.len() + n) == move_lines(v, v.len() as int) + move_lines(w, n),
    decreases n,
{
    let all = v + w;
    if n == 0 {
        lemma_same_lines(v, all, v.len() as int);
        assert(move_lines(v, v.len() as int) + move_lines(w, 0) == move_lines(v, v.len() as int));
    } else {
        lemma_lines(v, w, n - 1);
        assert(all[v.len() + n - 1] == w[n - 1]);
        let a = move_lines(v, v.len() as int);
        let b = move_lines(w, n - 1);
        assert(a + b + move_line(w[n - 1]) == a + (b + move_line(w[n - 1])));
    }
}

proof fn lemma_same_lines(v: Seq<Move>, all: Seq<Move>, n: int)
    requires
        0 <= n <= v.len() <= all.len(),
        forall|k: int| 0 <= k < v.len() ==> v[k] == #[trigger] all[k],
    ensures
        move_lines(v, n) == move_lines(all, n),
    decreases n,
{
    if n > 0 {
        lemma_same_lines(v, all, n - 1);
        assert(v[n - 1] == all[n - 1]);
    }
}

proof fn lemma_one_line(m: Move)
    ensures
        move_lines(seq![m], 1) == move_line(m),
{
    assert(move_lines(seq![m], 0) == Seq::<char>::empty());
    assert(Seq::<char>::empty() + move_line(m) == move_line(m));
}

proof fn lemma_two_lines(a: Move, b: Move)
    ensures
        move_lines(seq![a, b], 2) == move_line(a) + move_line(b),
{
    let v = seq![a, b];
    assert(move_lines(v, 0) == Seq::<char>::empty());
    assert(Seq::<char>::empty() + move_line(v[0]) == move_line(a));
    assert(move_lines(v, 1) == move_line(a));
}

/// What holds of the transitions of a composite: each enters or leaves the running state; a stop
/// leaves it, for where a stopped node is; a start or a resume enters it from elsewhere. There is a
/// start out of the down state and a stop, each with its label; a parked node is resumed, and a node
/// that is no pool member can be respawned where its mode is no other. A bound dep stops and starts
/// it, and a missed heartbeat leaves it running.
pub open spec fn lives(i: nat, s: ShapeV, up: Seq<char>, clear: Seq<char>, v: Seq<Move>) -> bool {
    let run = running(i);
    let low = down(i);
    let rest = stopped(i, s.mode);
    let mode = after_last(s.mode, "::"@);
    &&& forall|k: int| 0 <= k < v.len() ==> (#[trigger] v[k]).from == run || v[k].to == run
    &&& forall|k: int|
        0 <= k < v.len() && is_stop((#[trigger] v[k]).label) ==> v[k].from == run && v[k].to == rest
    &&& forall|k: int|
        0 <= k < v.len() && is_start((#[trigger] v[k]).label) ==> v[k].to == run && (v[k].from == low
            || v[k].from == rest)
    &&& moves(v, low, run, start_label(s) + up)
    &&& moves(v, run, rest, stop_label(s) + clear)
    &&& mode == "Pause"@ ==> moves(
        v,
        rest,
        run,
        "resume_node or resume_pausable · resumed in place, keeps its resources"@,
    )
    &&& mode != "Pause"@ && mode != "OnDemand"@ && !s.pool ==> moves(v, low, run, "respawn_terminate"@)
    &&& s.bound ==> moves(v, run, rest, "a bound dep called clear_ready()"@) && moves(
        v,
        rest,
        run,
        if mode == "Pause"@ {
            "that dep is ready again · resumed in place"@
        } else {
            "that dep is ready again · brought back through the gates"@
        },
    )
    &&& (s.beat matches Some(ms) ==> moves(
        v,
        run,
        run,
        "no beat for "@ + ms + " ms · reported stale, still running"@,
    ))
    &&& v.len() == (if mode == "Pause"@ {
        3int
    } else if mode == "OnDemand"@ || s.pool {
        2
    } else {
        3
    }) + (if s.bound {
        2int
    } else {
        0
    }) + (if s.beat is Some {
        1int
    } else {
        0
    })
}

spec fn first_moves(i: nat, s: ShapeV, up: Seq<char>, clear: Seq<char>) -> Seq<Move> {
    let run = running(i);
    let low = down(i);
    let rest = stopped(i, s.mode);
    let mode = after_last(s.mode, "::"@);
    let a = Move { from: low, to: run, label: start_label(s) + up };
    let b = Move { from: run, to: rest, label: stop_label(s) + clear };
    if mode == "Pause"@ {
        seq![a, b] + seq![
            Move {
                from: rest,
                to: run,
                label: "resume_node or resume_pausable · resumed in place, keeps its resources"@,
            },
        ]
    } else if mode == "OnDemand"@ || s.pool {
        seq![a, b]
    } else {
        seq![a, b] + seq![Move { from: low, to: run, label: "respawn_terminate"@ }]
    }
}

spec fn bound_moves(i: nat, s: ShapeV) -> Seq<Move> {
    let run = running(i);
    let rest = stopped(i, s.mode);
    if s.bound {
        seq![
            Move { from: run, to: rest, label: "a bound dep called clear_ready()"@ },
            Move {
                from: rest,
                to: run,
                label: if after_last(s.mode, "::"@) == "Pause"@ {
                    "that dep is ready again · resumed in place"@
                } else {
                    "that dep is ready again · brought back through the gates"@
                },
            },
        ]
    } else {
        Seq::empty()
    }
}

spec fn beat_moves(i: nat, s: ShapeV) -> Seq<Move> {
    match s.beat {
        Some(ms) => seq![
            Move {
                from: running(i),
                to: running(i),
                label: "no beat for "@ + ms + " ms · reported stale, still running"@,
            },
        ],
        None => Seq::empty(),
    }
}

proof fn lemma_first_moves(i: nat, s: ShapeV, up: Seq<char>, clear: Seq<char>)
    ensures
        ({
            let g = "g"@ + decimal(i);
            let v = first_moves(i, s, up, clear);
            moves_part(s, g, up, clear) == (if after_last(s.mode, "::"@) == "Pause"@ {
                "    state \"parked\" as "@ + g + "_parked\n"@
            } else {
                Seq::empty()
            }) + move_lines(v, v.len() as int)
        }),
{
    reveal_strlit("Pause");
    reveal_strlit("OnDemand");
    reveal_strlit("");
    let g = "g"@ + decimal(i);
    let run = running(i);
    let low = down(i);
    let rest = stopped(i, s.mode);
    let mode = after_last(s.mode, "::"@);
    let v = first_moves(i, s, up, clear);
    let a = Move { from: low, to: run, label: start_label(s) + up };
    let b = Move { from: run, to: rest, label: stop_label(s) + clear };
    lemma_two_lines(a, b);
    let two = seq![a, b];
    assert("Pause"@.len() != "OnDemand"@.len());
    if mode == "Pause"@ {
        let c = Move {
            from: rest,
            to: run,
            label: "resume_node or resume_pausable · resumed in place, keeps its resources"@,
        };
        lemma_one_line(c);
        lemma_lines(two, seq![c], 1);
        let head = "    state \"parked\" as "@ + g + "_parked\n"@;
        assert(move_line(a) == arrow(low, run, start_text(s) + up));
        assert(move_line(b) == arrow(run, rest, PAUSED@ + clear));
        assert(move_line(c) == arrow(rest, run, RESUMED@));
        assert(head + move_line(a) + move_line(b) + move_line(c) == head + (move_line(a) + move_line(b)
            + move_line(c)));
    } else if mode == "OnDemand"@ {
        assert(move_line(a) == arrow(low, run, GROWS@ + up));
        assert(Seq::<char>::empty() + move_lines(v, v.len() as int) == move_lines(v, v.len() as int));
    } else {
        assert(move_line(a) == arrow(low, run, start_text(s) + up));
        if !s.pool {
            let c = Move { from: low, to: run, label: "respawn_terminate"@ };
            lemma_one_line(c);
            lemma_lines(two, seq![c], 1);
        }
        assert(move_line(a) + move_line(b) + ""@ == move_line(a) + move_line(b));
        assert(Seq::<char>::empty() + move_lines(v, v.len() as int) == move_lines(v, v.len() as int));
    }
}

proof fn lemma_bound_moves(i: nat, s: ShapeV)
    ensures
        bound_part(s, "g"@ + decimal(i)) == move_lines(
            bound_moves(i, s),
            bound_moves(i, s).len() as int,
        ),
{
    let b = bound_moves(i, s);
    if s.bound {
        lemma_two_lines(b[0], b[1]);
        assert(b == seq![b[0], b[1]]);
    } else {
        reveal_strlit("");
        assert(""@ == Seq::<char>::empty());
    }
}

proof fn lemma_beat_moves(i: nat, s: ShapeV)
    ensures
        beat_part(s, "g"@ + decimal(i)) == move_lines(
            beat_moves(i, s),
            beat_moves(i, s).len() as int,
        ),
{
    let c = beat_moves(i, s);
    if s.beat is Some {
        lemma_one_line(c[0]);
        assert(c == seq![c[0]]);
    } else {
        reveal_strlit("");
        assert(""@ == Seq::<char>::empty());
    }
}

proof fn lemma_regroup(
    front: Seq<char>,
    parked: Seq<char>,
    x: Seq<char>,
    y: Seq<char>,
    z: Seq<char>,
    end: Seq<char>,
)
    ensures
        front + (parked + x) + y + z + end == (front + parked) + (x + y + z) + end,
{
}

/// The composite of any shape ends in its transitions, and they are those of a life: see [`lives`].
pub proof fn a_composite_has_the_transitions_of_a_life(
    i: nat,
    s: ShapeV,
    members: Seq<Seq<char>>,
    dir: Seq<char>,
    gates: Option<GatesV>,
) -> (r: (Seq<char>, Seq<Move>))
    ensures
        composite_text(i, s, members, dir, gates) == r.0 + move_lines(r.1, r.1.len() as int) + "  }\n"@,
        lives(i, s, shown_up(gates), shown_down(gates), r.1),
{
    reveal_strlit("Pause");
    reveal_strlit("OnDemand");
    let g = "g"@ + decimal(i);
    let up = shown_up(gates);
    let clear = shown_down(gates);
    let a = first_moves(i, s, up, clear);
    let b = bound_moves(i, s);
    let c = beat_moves(i, s);
    let v = a + b + c;
    let front = "  state \""@ + escaped(composite_title(s, members, gates)) + "\" as "@ + g
        + " {\n    direction "@ + dir + "\n"@ + off_part(s, g) + "    state \"down\" as "@ + g
        + "_down\n"@ + running_part(s, g, dir) + (if s.disabled {
        ""@
    } else {
        "    [*] --> "@ + g + "_down\n"@
    });
    let parked = if after_last(s.mode, "::"@) == "Pause"@ {
        "    state \"parked\" as "@ + g + "_parked\n"@
    } else {
        Seq::empty()
    };
    lemma_first_moves(i, s, up, clear);
    lemma_bound_moves(i, s);
    lemma_beat_moves(i, s);
    lemma_lines(a, b, b.len() as int);
    lemma_lines(a + b, c, c.len() as int);
    let x = move_lines(a, a.len() as int);
    let y = move_lines(b, b.len() as int);
    let z = move_lines(c, c.len() as int);
    assert(move_lines(v, v.len() as int) == x + y + z);
    lemma_moves_live(i, s, up, clear);
    lemma_regroup(front, parked, x, y, z, "  }\n"@);
    (front + parked, v)
}

proof fn lemma_moves_live(i: nat, s: ShapeV, up: Seq<char>, clear: Seq<char>)
    ensures
        lives(
            i,
            s,
            up,
            clear,
            first_moves(i, s, up, clear) + bound_moves(i, s) + beat_moves(i, s),
        ),
{
    reveal_strlit("Pause");
    reveal_strlit("OnDemand");
    let a = first_moves(i, s, up, clear);
    let b = bound_moves(i, s);
    let c = beat_moves(i, s);
    let v = a + b + c;
    lemma_words(s, up);
    lemma_words(s, clear);
    assert(v[0] == a[0] && v[1] == a[1]);
    if a.len() == 3 {
        assert(v[2] == a[2]);
    }
    if s.bound {
        assert(v[a.len() as int] == b[0]);
        assert(v[a.len() as int + 1] == b[1]);
    }
    if let Some(ms) = s.beat {
        assert(v[(a.len() + b.len()) as int] == c[0]);
        lemma_words(s, ms + " ms · reported stale, still running"@);
        assert("no beat for "@ + ms + " ms · reported stale, still running"@ == "no beat for "@ + (ms
            + " ms · reported stale, still running"@));
    }
    assert forall|k: int| 0 <= k < v.len() implies (#[trigger] v[k]).from == running(i) || v[k].to == running(
        i,
    ) by {}
}

pub(crate) proof fn lemma_within(a: Seq<char>, x: Seq<char>, b: Seq<char>)
    ensures
        contains(a + x + b, x),
{
    let t = a + x + b;
    assert(t.subrange(a.len() as int, (a.len() + x.len()) as int) == x);
    assert(stands_at(t, a.len() as int, x));
}

pub(crate) proof fn lemma_within_on(s: Seq<char>, a: Seq<char>, b: Seq<char>, x: Seq<char>)
    requires
        contains(s, x),
    ensures
        contains(a + s + b, x),
{
    let i = choose|i: int| stands_at(s, i, x);
    let t = a + s + b;
    assert(t.subrange(a.len() + i, a.len() + i + x.len()) == s.subrange(i, i + x.len()));
    assert(stands_at(t, a.len() + i, x));
}

pub(crate) proof fn lemma_left(a: Seq<char>, b: Seq<char>, x: Seq<char>)
    requires
        contains(a, x),
    ensures
        contains(a + b, x),
{
    let none = Seq::<char>::empty();
    assert(none + a + b == a + b);
    lemma_within_on(a, none, b, x);
}

proof fn lemma_right(a: Seq<char>, x: Seq<char>)
    ensures
        contains(a + x, x),
{
    let none = Seq::<char>::empty();
    assert(a + x + none == a + x);
    lemma_within(a, x, none);
}

proof fn lemma_regroup_three(t: Seq<char>, a: Seq<char>, g: Seq<char>, b: Seq<char>)
    ensures
        t + a + g + b == t + (a + g + b),
{
}

proof fn lemma_starts(a: Seq<char>, b: Seq<char>)
    ensures
        a.is_prefix_of(a + b),
{
    assert((a + b).subrange(0, a.len() as int) == a);
}

proof fn lemma_starts_on(a: Seq<char>, b: Seq<char>, c: Seq<char>)
    requires
        a.is_prefix_of(b),
        b.is_prefix_of(c),
    ensures
        a.is_prefix_of(c),
{
    assert(c.subrange(0, b.len() as int).subrange(0, a.len() as int) == c.subrange(0, a.len() as int));
}

/// A composite is named by its number and has its title in quotes. A disabled node begins disabled
/// and comes down by its activation; any other begins down.
pub proof fn a_composite_begins_where_its_nodes_do(
    i: nat,
    s: ShapeV,
    members: Seq<Seq<char>>,
    dir: Seq<char>,
    gates: Option<GatesV>,
)
    ensures
        ({
            let g = "g"@ + decimal(i);
            let t = composite_text(i, s, members, dir, gates);
            &&& starts_with(
                t,
                "  state \""@ + escaped(composite_title(s, members, gates)) + "\" as "@ + g
                    + " {\n    direction "@ + dir + "\n"@,
            )
            &&& contains(t, "    state \"down\" as "@ + g + "_down\n"@)
            &&& s.disabled ==> contains(
                t,
                "    state \"disabled\" as "@ + g + "_off\n    [*] --> "@ + g + "_off\n"@,
            ) && contains(
                t,
                move_line(
                    Move {
                        from: g + "_off"@,
                        to: down(i),
                        label: "activate · the one path that clears the latch"@,
                    },
                ),
            )
            &&& !s.disabled ==> contains(t, "    [*] --> "@ + g + "_down\n"@)
            &&& !s.asserts_ready ==> contains(t, "    state \"running\" as "@ + g + "_run\n"@)
        }),
{
    let g = "g"@ + decimal(i);
    let t = composite_text(i, s, members, dir, gates);
    let off = off_part(s, g);
    let run = running_part(s, g, dir);
    let begin = if s.disabled {
        ""@
    } else {
        "    [*] --> "@ + g + "_down\n"@
    };
    let t1 = "  state \""@ + escaped(composite_title(s, members, gates)) + "\" as "@ + g
        + " {\n    direction "@ + dir + "\n"@;
    let t2 = t1 + off;
    let low = "    state \"down\" as "@ + g + "_down\n"@;
    let t3 = t2 + low;
    lemma_right(t2, low);
    lemma_regroup_three(t2, "    state \"down\" as "@, g, "_down\n"@);
    let t4 = t3 + run;
    let t5 = t4 + begin;
    assert(t == climb(t5, s, g, gates));
    lemma_left(t3, run, low);
    lemma_left(t4, begin, low);
    lemma_climb(t5, s, g, gates, low, t1);
    lemma_starts(t1, off);
    lemma_starts(t2, low);
    lemma_starts(t3, run);
    lemma_starts(t4, begin);
    lemma_starts_on(t1, t2, t3);
    lemma_starts_on(t1, t3, t4);
    lemma_starts_on(t1, t4, t5);
    lemma_climb(t5, s, g, gates, low, t1);
    if s.disabled {
        let x = "    state \"disabled\" as "@ + g + "_off\n    [*] --> "@ + g + "_off\n"@;
        let y = move_line(
            Move {
                from: g + "_off"@,
                to: down(i),
                label: "activate · the one path that clears the latch"@,
            },
        );
        assert(off == x + y);
        let none = Seq::<char>::empty();
        assert(none + x == x);
        lemma_right(none, x);
        lemma_left(x, y, x);
        lemma_right(x, y);
        lemma_up(t1, off, x);
        lemma_up(t1, off, y);
        lemma_left(t2, low, x);
        lemma_left(t2, low, y);
        lemma_left(t3, run, x);
        lemma_left(t3, run, y);
        lemma_left(t4, begin, x);
        lemma_left(t4, begin, y);
        lemma_climb(t5, s, g, gates, x, t1);
        lemma_climb(t5, s, g, gates, y, t1);
    } else {
        lemma_right(t4, begin);
        lemma_climb(t5, s, g, gates, begin, t1);
    }
    if !s.asserts_ready {
        lemma_right(t3, run);
        lemma_left(t4, begin, run);
        lemma_climb(t5, s, g, gates, run, t1);
    }
}

spec fn climb(t: Seq<char>, s: ShapeV, g: Seq<char>, gates: Option<GatesV>) -> Seq<char> {
    t + moves_part(s, g, shown_up(gates), shown_down(gates)) + bound_part(s, g) + beat_part(s, g)
        + "  }\n"@
}

proof fn lemma_up(a: Seq<char>, b: Seq<char>, x: Seq<char>)
    requires
        contains(b, x),
    ensures
        contains(a + b, x),
{
    let none = Seq::<char>::empty();
    assert(a + b + none == a + b);
    lemma_within_on(b, a, none, x);
}

proof fn lemma_climb(
    t: Seq<char>,
    s: ShapeV,
    g: Seq<char>,
    gates: Option<GatesV>,
    x: Seq<char>,
    front: Seq<char>,
)
    ensures
        contains(t, x) ==> contains(climb(t, s, g, gates), x),
        front.is_prefix_of(t) ==> starts_with(climb(t, s, g, gates), front),
{
    let a = moves_part(s, g, shown_up(gates), shown_down(gates));
    let b = bound_part(s, g);
    let c = beat_part(s, g);
    let e = "  }\n"@;
    if contains(t, x) {
        lemma_left(t, a, x);
        lemma_left(t + a, b, x);
        lemma_left(t + a + b, c, x);
        lemma_left(t + a + b + c, e, x);
    }
    if front.is_prefix_of(t) {
        let all = t + a + b + c + e;
        assert(all.subrange(0, front.len() as int) == t.subrange(0, front.len() as int));
    }
}

/// Where a dependent waits for a node's readiness, its running state has a starting and a ready
/// one: it begins starting, becomes ready as it asserts it, and goes back as it clears it.
pub proof fn a_composite_shows_readiness(
    i: nat,
    s: ShapeV,
    members: Seq<Seq<char>>,
    dir: Seq<char>,
    gates: Option<GatesV>,
)
    requires
        s.asserts_ready,
    ensures
        ({
            let g = "g"@ + decimal(i);
            contains(
                composite_text(i, s, members, dir, gates),
                "    state \"running\" as "@ + g + "_run {\n      direction "@ + dir
                    + "\n      state \"starting\" as "@ + g + "_starting\n      state \"ready\" as "@
                    + g + "_ready\n      [*] --> "@ + g + "_starting\n      "@ + g
                    + "_starting --> "@ + g + "_ready: "@ + (if s.ready_on_write {
                    "the sweep sees a declared write advance"@
                } else {
                    "the task calls set_ready()"@
                }) + "\n      "@ + g + "_ready --> "@ + g
                    + "_starting: clear_ready() · dependents wait again\n    }\n"@,
            )
        }),
{
    let g = "g"@ + decimal(i);
    let run = running_part(s, g, dir);
    let begin = if s.disabled {
        ""@
    } else {
        "    [*] --> "@ + g + "_down\n"@
    };
    let t = "  state \""@ + escaped(composite_title(s, members, gates)) + "\" as "@ + g
        + " {\n    direction "@ + dir + "\n"@ + off_part(s, g) + "    state \"down\" as "@ + g
        + "_down\n"@;
    lemma_right(t, run);
    lemma_left(t + run, begin, run);
    lemma_climb(t + run + begin, s, g, gates, run, t);
}

/// The title of a composite: the facts of its shape, then its members, and with gates what they read
/// and write.
pub proof fn a_title_tells_the_shape_and_the_members(
    s: ShapeV,
    members: Seq<Seq<char>>,
    gates: Option<GatesV>,
)
    ensures
        ({
            let f = shape_facts(s);
            &&& f[0] == s.mode
            &&& s.pool ==> f.contains("pool member"@)
            &&& s.parked ==> f.contains("parked"@)
            &&& s.disabled ==> f.contains("disabled"@)
            &&& s.cancel ==> f.contains("cancel"@)
            &&& s.ready_on_write ==> f.contains("ready_on_write"@)
            &&& s.asserts_ready && !s.ready_on_write ==> f.contains("gates dependents"@)
            &&& s.bound ==> f.contains("bound"@)
            &&& (s.beat matches Some(ms) ==> f.contains("beat "@ + ms))
            &&& f.len() == 1 + (if s.pool {
                1int
            } else {
                0
            }) + (if s.parked {
                1int
            } else {
                0
            }) + (if s.disabled {
                1int
            } else {
                0
            }) + (if s.cancel {
                1int
            } else {
                0
            }) + (if s.ready_on_write || s.asserts_ready {
                1int
            } else {
                0
            }) + (if s.bound {
                1int
            } else {
                0
            }) + (if s.beat is Some {
                1int
            } else {
                0
            })
            &&& starts_with(composite_title(s, members, gates), joined(f, " · "@) + " — "@)
        }),
        members.len() <= 4 ==> contains(composite_title(s, members, gates), joined(members, ", "@)),
        members.len() > 4 ==> contains(
            composite_title(s, members, gates),
            joined(members.take(4), ", "@) + ", +"@ + decimal((members.len() - 4) as nat) + " more"@,
        ),
        gates matches Some(g) ==> (g.reads.len() > 0 ==> contains(
            composite_title(s, members, gates),
            " · reads "@ + joined(g.reads, ", "@),
        )) && (g.writes.len() > 0 ==> contains(
            composite_title(s, members, gates),
            " · writes "@ + joined(g.writes, ", "@),
        )),
{
    reveal_strlit("");
    let a0 = Seq::<Seq<char>>::empty().push(s.mode);
    let a = with_if(a0, s.pool, "pool member"@);
    let b = with_if(a, s.parked, "parked"@);
    let c = with_if(b, s.disabled, "disabled"@);
    let d = with_if(c, s.cancel, "cancel"@);
    let e = with_if(d, s.ready_on_write, "ready_on_write"@);
    let h = with_if(e, !s.ready_on_write && s.asserts_ready, "gates dependents"@);
    let k = with_if(h, s.bound, "bound"@);
    let f = with_some(k, prefixed("beat "@, s.beat));
    assert(f == shape_facts(s));
    assert(f[0] == s.mode);
    if s.pool {
        assert(f[1] == "pool member"@);
    }
    if s.parked {
        assert(f[a.len() as int] == "parked"@);
    }
    if s.disabled {
        assert(f[b.len() as int] == "disabled"@);
    }
    if s.cancel {
        assert(f[c.len() as int] == "cancel"@);
    }
    if s.ready_on_write {
        assert(f[d.len() as int] == "ready_on_write"@);
    }
    if !s.ready_on_write && s.asserts_ready {
        assert(f[e.len() as int] == "gates dependents"@);
    }
    if s.bound {
        assert(f[h.len() as int] == "bound"@);
    }
    if let Some(ms) = s.beat {
        assert(f[k.len() as int] == "beat "@ + ms);
    }
    let head = joined(f, " · "@) + " — "@;
    let names = names_text(members);
    let t = composite_title(s, members, gates);
    match gates {
        Some(g) => {
            let r = listed(" · reads "@, g.reads);
            let w = listed(" · writes "@, g.writes);
            assert(t == head + names + (r + w));
            lemma_within(head, names, r + w);
            assert(t == (head + names) + r + w);
            lemma_within(head + names, r, w);
            let none = Seq::<char>::empty();
            assert(t == (head + names + r) + w + none);
            lemma_within(head + names + r, w, none);
        },
        None => {
            let none = Seq::<char>::empty();
            assert(t == head + names + none);
            lemma_within(head, names, none);
        },
    }
    assert(t.subrange(0, head.len() as int) == head);
}

proof fn lemma_composites(
    groups: Seq<GroupV>,
    dir: Seq<char>,
    show: bool,
    i: int,
    acc: Seq<char>,
    k: int,
)
    requires
        0 <= i,
    ensures
        acc.is_prefix_of(composites_from(groups, dir, show, i, acc)),
        i <= k < groups.len() ==> contains(
            composites_from(groups, dir, show, i, acc),
            composite_text(
                k as nat,
                groups[k].shape,
                groups[k].members,
                dir,
                if show {
                    Some(groups[k].gates)
                } else {
                    None
                },
            ),
        ),
    decreases groups.len() - i,
{
    assert(acc.subrange(0, acc.len() as int) == acc);
    if i < groups.len() {
        let x = composite_text(
            i as nat,
            groups[i].shape,
            groups[i].members,
            dir,
            if show {
                Some(groups[i].gates)
            } else {
                None
            },
        );
        let next = acc + "\n"@ + x;
        lemma_composites(groups, dir, show, i + 1, next, k);
        let all = composites_from(groups, dir, show, i + 1, next);
        assert(all.subrange(0, next.len() as int).subrange(0, acc.len() as int) == all.subrange(
            0,
            acc.len() as int,
        ));
        assert(next.subrange(0, acc.len() as int) == acc);
        if k == i {
            let at = (acc + "\n"@).len() as int;
            assert(all.subrange(0, next.len() as int).subrange(at, at + x.len()) == all.subrange(
                at,
                at + x.len(),
            ));
            assert(next.subrange(at, at + x.len()) == x);
            assert(stands_at(all, at, x));
        }
    }
}

/// Every group stands in the diagram as a composite of its own, under its own number; its gates are
/// shown where signals are.
pub proof fn every_group_is_drawn(d: DeclV, o: OptionsV, k: int)
    requires
        0 <= k < groups_of(d.spec.items, o.signals).len(),
    ensures
        contains(
            state_diagram(d, o),
            composite_text(
                k as nat,
                groups_of(d.spec.items, o.signals)[k].shape,
                groups_of(d.spec.items, o.signals)[k].members,
                state_direction(o.direction),
                if o.signals {
                    Some(groups_of(d.spec.items, o.signals)[k].gates)
                } else {
                    None
                },
            ),
        ),
{
    let groups = groups_of(d.spec.items, o.signals);
    let dir = state_direction(o.direction);
    lemma_composites(groups, dir, o.signals, 0, head_text(d, o), k);
    let body = composites_from(groups, dir, o.signals, 0, head_text(d, o));
    let x = composite_text(
        k as nat,
        groups[k].shape,
        groups[k].members,
        dir,
        if o.signals {
            Some(groups[k].gates)
        } else {
            None
        },
    );
    let tail = if o.legend {
        "\n"@ + legend_text(dir)
    } else {
        ""@
    };
    let none = Seq::<char>::empty();
    assert(none + body + tail == body + tail);
    lemma_within_on(body, none, tail, x);
}

/// The text of a timeout clause.
pub open spec fn clause_text(t: Option<GatedV<IntLitV>>, x: Option<Seq<char>>) -> bool {
    match (t, x) {
        (Some(g), Some(ms)) => ms == g.value.text,
        (None, None) => true,
        _ => false,
    }
}

/// Some node or pool has a dep on `name` that is marked `ready` or `bound`.
pub open spec fn awaited(items: Seq<ItemV>, name: Seq<char>) -> bool {
    exists|i: int, m: int| #[trigger] waits_at(items, name, i, m)
}

/// Dep number `m` of item number `i` waits for `name`.
pub open spec fn waits_at(items: Seq<ItemV>, name: Seq<char>, i: int, m: int) -> bool {
    0 <= i < items.len() && (match items[i] {
        ItemV::Node(n) => 0 <= m < n.deps.len() && n.deps[m].ident == name && (n.deps[m].ready
            || n.deps[m].bound),
        ItemV::Pool(p) => 0 <= m < p.deps.len() && p.deps[m].ident == name && (p.deps[m].ready
            || p.deps[m].bound),
        ItemV::Executor(_) => false,
    })
}

proof fn lemma_awaited(items: Seq<ItemV>, name: Seq<char>)
    ensures
        gates_dependents(items, name) == awaited(items, name),
{
    if gates_dependents(items, name) {
        let i = choose|i: int| 0 <= i < items.len() && any_waits(deps_of(#[trigger] items[i]), name);
        let deps = deps_of(items[i]);
        let m = choose|m: int| 0 <= m < deps.len() && waits_for(#[trigger] deps[m], name);
        assert(waits_at(items, name, i, m));
    }
    if awaited(items, name) {
        let (i, m) = choose|i: int, m: int| #[trigger] waits_at(items, name, i, m);
        let deps = deps_of(items[i]);
        assert(waits_for(deps[m], name));
        assert(any_waits(deps_of(items[i]), name));
    }
}

/// Some dep is marked `bound`.
pub open spec fn some_bound(deps: Seq<DepV>) -> bool {
    exists|m: int| 0 <= m < deps.len() && (#[trigger] deps[m]).bound
}

proof fn lemma_waits(deps: Seq<DepV>, i: int, acc: Seq<Seq<char>>, x: Seq<char>)
    requires
        0 <= i,
    ensures
        waits_from(deps, i, acc).contains(x) <==> acc.contains(x) || exists|m: int|
            i <= m < deps.len() && (#[trigger] deps[m]).ident == x && (deps[m].ready || deps[m].bound),
    decreases deps.len() - i,
{
    if i < deps.len() {
        let hit = deps[i].ready || deps[i].bound;
        let next = with_if(acc, hit, deps[i].ident);
        lemma_waits(deps, i + 1, next, x);
        if hit {
            assert(next[acc.len() as int] == deps[i].ident);
            if acc.contains(x) {
                let m = choose|m: int| 0 <= m < acc.len() && acc[m] == x;
                assert(next[m] == x);
            }
            if next.contains(x) && !acc.contains(x) {
                let m = choose|m: int| 0 <= m < next.len() && next[m] == x;
                if m < acc.len() {
                    assert(acc[m] == x);
                }
            }
        }
    }
}

/// The group is that of the node: its lifecycle and its gates are those of the node's clauses.
pub open spec fn is_node_group(g: GroupV, n: NodeItemV, items: Seq<ItemV>) -> bool {
    &&& g.members == seq![n.ident]
    &&& g.shape.mode == n.mode
    &&& !g.shape.pool
    &&& g.shape.parked == (n.source is None)
    &&& g.shape.disabled == (n.disabled is Some)
    &&& g.shape.cancel == n.cancel
    &&& g.shape.asserts_ready == awaited(items, n.ident)
    &&& g.shape.ready_on_write == (n.ready_on_write is Some)
    &&& g.shape.bound == some_bound(n.deps)
    &&& clause_text(n.beat_timeout, g.shape.beat)
    &&& clause_text(n.slot_timeout, g.gates.within)
    &&& g.gates.takes.len() == n.resources.len()
    &&& forall|k: int|
        0 <= k < n.resources.len() ==> g.gates.takes[k] == (#[trigger] n.resources[k]).ident + (
        if n.resources[k].shared {
            " (shared)"@
        } else if n.resources[k].local {
            " (local)"@
        } else if n.resources[k].consume {
            " (consume)"@
        } else {
            ""@
        })
    &&& forall|x: Seq<char>| #[trigger]
        g.gates.waits.contains(x) <==> exists|m: int|
            0 <= m < n.deps.len() && (#[trigger] n.deps[m]).ident == x && (n.deps[m].ready
                || n.deps[m].bound)
    &&& g.gates.clears.len() == n.provides.len()
    &&& forall|k: int| 0 <= k < n.provides.len() ==> g.gates.clears[k] == (#[trigger] n.provides[k]).ident
    &&& g.gates.reads.len() == n.reads.len()
    &&& forall|k: int|
        0 <= k < n.reads.len() ==> g.gates.reads[k] == after_last(
            signal_name(#[trigger] n.reads[k]),
            "::"@,
        )
    &&& g.gates.writes.len() == n.writes.len()
    &&& forall|k: int|
        0 <= k < n.writes.len() ==> g.gates.writes[k] == after_last(
            signal_name(#[trigger] n.writes[k]),
            "::"@,
        )
}

/// The group is that of the members of the pool that have the mode.
pub open spec fn is_pool_group(g: GroupV, p: PoolItemV, mode: Seq<char>, items: Seq<ItemV>) -> bool {
    &&& g.members.len() == 1
    &&& g.shape.mode == mode
    &&& g.shape.pool
    &&& !g.shape.parked
    &&& !g.shape.disabled
    &&& g.shape.cancel == p.cancel
    &&& g.shape.asserts_ready == awaited(items, p.ident)
    &&& !g.shape.ready_on_write
    &&& g.shape.bound == some_bound(p.deps)
    &&& g.shape.beat is None
    &&& clause_text(p.slot_timeout, g.gates.within)
    &&& g.gates.takes.len() == p.resources.len()
    &&& forall|k: int|
        0 <= k < p.resources.len() ==> g.gates.takes[k] == (#[trigger] p.resources[k]).ident + (
        if p.resources[k].shared {
            " (shared)"@
        } else if p.resources[k].local {
            " (local)"@
        } else if p.resources[k].consume {
            " (consume)"@
        } else {
            ""@
        })
    &&& forall|x: Seq<char>| #[trigger]
        g.gates.waits.contains(x) <==> exists|m: int|
            0 <= m < p.deps.len() && (#[trigger] p.deps[m]).ident == x && (p.deps[m].ready
                || p.deps[m].bound)
    &&& g.gates.clears.len() == 0
    &&& g.gates.reads.len() == p.reads.len()
    &&& forall|k: int|
        0 <= k < p.reads.len() ==> g.gates.reads[k] == after_last(
            signal_name(#[trigger] p.reads[k]),
            "::"@,
        )
    &&& g.gates.writes.len() == p.writes.len()
    &&& forall|k: int|
        0 <= k < p.writes.len() ==> g.gates.writes[k] == after_last(
            signal_name(#[trigger] p.writes[k]),
            "::"@,
        )
    &&& names_places(g.members[0], p, mode)
}

/// The members of a pool that have a mode, in words: one by its number, several by the first and
/// the last of theirs.
pub open spec fn names_places(t: Seq<char>, p: PoolItemV, mode: Seq<char>) -> bool {
    exists|first: int, last: int|
        #![trigger p.modes[first], p.modes[last]]
        0 <= first <= last < p.modes.len() && p.modes[first] == mode && p.modes[last] == mode && (forall|
            k: int,
        |
            0 <= k < p.modes.len() && #[trigger] p.modes[k] == mode ==> first <= k <= last) && t == p.ident
            + " "@ + (if first == last {
            "member "@ + decimal(first as nat)
        } else {
            "members "@ + decimal(first as nat) + ".."@ + decimal(last as nat)
        })
}

proof fn lemma_node_group(n: NodeItemV, items: Seq<ItemV>)
    ensures
        is_node_group(
            GroupV { shape: node_shape(n, items), members: seq![n.ident], gates: node_gates(n) },
            n,
            items,
        ),
{
    lemma_awaited(items, n.ident);
    let g = node_gates(n);
    assert forall|x: Seq<char>| #[trigger] g.waits.contains(x) <==> exists|m: int|
        0 <= m < n.deps.len() && (#[trigger] n.deps[m]).ident == x && (n.deps[m].ready || n.deps[m].bound) by {
        lemma_waits(n.deps, 0, Seq::empty(), x);
    }
}

/// The places where a mode stands in a list, in order.
pub open spec fn are_places(modes: Seq<Seq<char>>, mode: Seq<char>, all: Seq<usize>) -> bool {
    &&& forall|a: int, b: int|
        #![trigger all[a], all[b]]
        0 <= a < b < all.len() ==> all[a] < all[b]
    &&& forall|a: int|
        0 <= a < all.len() ==> (#[trigger] all[a]) < modes.len() && modes[all[a] as int] == mode
    &&& forall|k: int| 0 <= k < modes.len() && #[trigger] modes[k] == mode ==> all.contains(k as usize)
}

proof fn lemma_places(modes: Seq<Seq<char>>, mode: Seq<char>, i: int, acc: Seq<usize>)
    requires
        0 <= i <= modes.len(),
        modes.len() <= usize::MAX,
        forall|a: int, b: int|
            #![trigger acc[a], acc[b]]
            0 <= a < b < acc.len() ==> acc[a] < acc[b],
        forall|a: int| 0 <= a < acc.len() ==> (#[trigger] acc[a]) < i && modes[acc[a] as int] == mode,
        forall|k: int| 0 <= k < i && #[trigger] modes[k] == mode ==> acc.contains(k as usize),
    ensures
        are_places(modes, mode, places_from(modes, mode, i, acc)),
    decreases modes.len() - i,
{
    if i < modes.len() {
        let next = if modes[i] == mode {
            acc.push(i as usize)
        } else {
            acc
        };
        if modes[i] == mode {
            assert(next[acc.len() as int] == i as usize);
            assert forall|k: int| 0 <= k < i + 1 && #[trigger] modes[k] == mode implies next.contains(
                k as usize,
            ) by {
                if k < i {
                    let m = choose|m: int| 0 <= m < acc.len() && acc[m] == k as usize;
                    assert(next[m] == k as usize);
                }
            }
        }
        lemma_places(modes, mode, i + 1, next);
    } else {
        let all = places_from(modes, mode, i, acc);
        assert(all == acc);
        assert(i == modes.len());
        assert forall|a: int| 0 <= a < all.len() implies (#[trigger] all[a]) < modes.len()
            && modes[all[a] as int] == mode by {
            assert(acc[a] < i);
        }
    }
}

proof fn lemma_pool_group(p: PoolItemV, items: Seq<ItemV>, mode: Seq<char>)
    requires
        p.modes.contains(mode),
        p.modes.len() <= usize::MAX,
    ensures
        is_pool_group(pool_entry(p, items, mode), p, mode, items),
{
    lemma_awaited(items, p.ident);
    let e = pool_entry(p, items, mode);
    let g = e.gates;
    assert forall|x: Seq<char>| #[trigger] g.waits.contains(x) <==> exists|m: int|
        0 <= m < p.deps.len() && (#[trigger] p.deps[m]).ident == x && (p.deps[m].ready || p.deps[m].bound) by {
        lemma_waits(p.deps, 0, Seq::empty(), x);
    }
    lemma_places(p.modes, mode, 0, Seq::empty());
    let all = places_from(p.modes, mode, 0, Seq::empty());
    let z = choose|z: int| 0 <= z < p.modes.len() && p.modes[z] == mode;
    assert(all.contains(z as usize));
    let first = all[0] as int;
    let last = all.last() as int;
    assert(p.modes[first] == mode && p.modes[last] == mode);
    assert forall|k: int| 0 <= k < p.modes.len() && #[trigger] p.modes[k] == mode implies first <= k <= last by {
        let m = choose|m: int| 0 <= m < all.len() && all[m] == k as usize;
        if m > 0 {
            assert(all[0] < all[m]);
        }
        if m < all.len() - 1 {
            assert(all[m] < all[all.len() - 1]);
        }
    }
    if all.len() > 1 {
        assert(all[0] < all[all.len() - 1]);
    }
    assert(names_places(e.members[0], p, mode));
}

proof fn lemma_pool_entries(
    p: PoolItemV,
    items: Seq<ItemV>,
    modes: Seq<Seq<char>>,
    i: int,
    acc: Seq<GroupV>,
    k: int,
)
    requires
        0 <= i,
    ensures
        acc.is_prefix_of(pool_entries_from(p, items, modes, i, acc)),
        i <= k < modes.len() ==> pool_entries_from(p, items, modes, i, acc).contains(
            pool_entry(p, items, modes[k]),
        ),
    decreases modes.len() - i,
{
    assert(acc.subrange(0, acc.len() as int) == acc);
    if i < modes.len() {
        let next = acc.push(pool_entry(p, items, modes[i]));
        lemma_pool_entries(p, items, modes, i + 1, next, k);
        let all = pool_entries_from(p, items, modes, i + 1, next);
        assert(all.subrange(0, next.len() as int).subrange(0, acc.len() as int) == all.subrange(
            0,
            acc.len() as int,
        ));
        assert(next.subrange(0, acc.len() as int) == acc);
        if k == i {
            assert(all.subrange(0, next.len() as int)[acc.len() as int] == all[acc.len() as int]);
        }
    }
}

proof fn lemma_entries(items: Seq<ItemV>, i: int, acc: Seq<GroupV>, k: int, x: GroupV)
    requires
        0 <= i,
    ensures
        acc.contains(x) ==> entries_from(items, i, acc).contains(x),
        i <= k < items.len() && item_entries(items[k], items, Seq::empty()).contains(x)
            ==> entries_from(items, i, acc).contains(x),
    decreases items.len() - i,
{
    if i < items.len() {
        let next = item_entries(items[i], items, acc);
        lemma_entries(items, i + 1, next, k, x);
        lemma_item_entries(items[i], items, acc, x);
    }
}

proof fn lemma_item_entries(item: ItemV, items: Seq<ItemV>, acc: Seq<GroupV>, x: GroupV)
    ensures
        item_entries(item, items, acc) == acc + item_entries(item, items, Seq::empty()),
        acc.contains(x) ==> item_entries(item, items, acc).contains(x),
        item_entries(item, items, Seq::empty()).contains(x) ==> item_entries(item, items, acc).contains(x),
{
    let none = Seq::<GroupV>::empty();
    let own = item_entries(item, items, none);
    match item {
        ItemV::Node(n) => {
            let g = GroupV { shape: node_shape(n, items), members: seq![n.ident], gates: node_gates(n) };
            assert(acc.push(g) == acc + none.push(g));
        },
        ItemV::Pool(p) => {
            lemma_pool_behind(p, items, ordered(p.modes), 0, acc);
        },
        ItemV::Executor(_) => {
            assert(acc + none == acc);
        },
    }
    let all = acc + own;
    if acc.contains(x) {
        let m = choose|m: int| 0 <= m < acc.len() && acc[m] == x;
        assert(all[m] == x);
    }
    if own.contains(x) {
        let m = choose|m: int| 0 <= m < own.len() && own[m] == x;
        assert(all[acc.len() + m] == x);
    }
}

proof fn lemma_pool_behind(
    p: PoolItemV,
    items: Seq<ItemV>,
    modes: Seq<Seq<char>>,
    i: int,
    acc: Seq<GroupV>,
)
    requires
        0 <= i,
    ensures
        pool_entries_from(p, items, modes, i, acc) == acc + pool_entries_from(
            p,
            items,
            modes,
            i,
            Seq::empty(),
        ),
    decreases modes.len() - i,
{
    let none = Seq::<GroupV>::empty();
    assert(acc + none == acc);
    if i < modes.len() {
        let e = pool_entry(p, items, modes[i]);
        lemma_pool_behind(p, items, modes, i + 1, acc.push(e));
        lemma_pool_behind(p, items, modes, i + 1, none.push(e));
        let rest = pool_entries_from(p, items, modes, i + 1, none);
        assert(acc.push(e) + rest == acc + (none.push(e) + rest));
    }
}

/// Every node has the lifecycle and the gates that its own clauses give it.
pub proof fn every_node_has_a_group_of_its_clauses(items: Seq<ItemV>, k: int, n: NodeItemV)
    requires
        0 <= k < items.len(),
        items[k] == ItemV::Node(n),
    ensures
        exists|g: GroupV| #[trigger]
            entries_from(items, 0, Seq::empty()).contains(g) && is_node_group(g, n, items),
{
    let g = GroupV { shape: node_shape(n, items), members: seq![n.ident], gates: node_gates(n) };
    let own = item_entries(items[k], items, Seq::empty());
    assert(own[0] == g);
    lemma_entries(items, 0, Seq::empty(), k, g);
    lemma_node_group(n, items);
}

/// The members of a pool have, for each mode among them, the lifecycle and the gates that the pool's
/// own clauses give them.
pub proof fn every_pool_has_a_group_for_each_mode(
    items: Seq<ItemV>,
    k: int,
    p: PoolItemV,
    mode: Seq<char>,
)
    requires
        0 <= k < items.len(),
        items[k] == ItemV::Pool(p),
        p.modes.contains(mode),
        p.modes.len() <= usize::MAX,
    ensures
        exists|g: GroupV| #[trigger]
            entries_from(items, 0, Seq::empty()).contains(g) && is_pool_group(g, p, mode, items),
{
    let modes = ordered(p.modes);
    ordering_sorts_and_keeps(p.modes, mode);
    let m = choose|m: int| 0 <= m < modes.len() && modes[m] == mode;
    lemma_pool_entries(p, items, modes, 0, Seq::empty(), m);
    let g = pool_entry(p, items, mode);
    lemma_entries(items, 0, Seq::empty(), k, g);
    lemma_pool_group(p, items, mode);
}

/// Every node stands in its state diagram: in a composite that names it, of a shape that its own
/// clauses give it; with signals, in one of its own that shows its gates.
pub proof fn every_node_is_drawn_with_its_lifecycle(d: DeclV, o: OptionsV, k: int, n: NodeItemV)
    requires
        0 <= k < d.spec.items.len(),
        d.spec.items[k] == ItemV::Node(n),
    ensures
        exists|i: nat, g: GroupV|
            #[trigger] drawn_as(d, o, i, g) && g.members.contains(n.ident) && (exists|own: GroupV|
                #[trigger] is_node_group(own, n, d.spec.items) && own.shape == g.shape && (o.signals
                    ==> own == g)),
{
    let items = d.spec.items;
    let groups = groups_of(items, o.signals);
    every_node_has_a_group_of_its_clauses(items, k, n);
    let own = choose|g: GroupV| #[trigger]
        entries_from(items, 0, Seq::empty()).contains(g) && is_node_group(g, n, items);
    assert(own.members[0] == n.ident);
    let entries = entries_from(items, 0, Seq::empty());
    let m = choose|m: int| 0 <= m < entries.len() && entries[m] == own;
    if o.signals {
        every_group_is_drawn(d, o, m);
        assert(drawn_as(d, o, m as nat, groups[m]));
    } else {
        assert(entries[m].shape == own.shape && entries[m].members.contains(n.ident));
        what_shares_a_lifecycle_shares_a_group(items, own.shape, n.ident);
        let j = choose|j: int|
            0 <= j < groups.len() && (#[trigger] groups[j]).shape == own.shape && groups[j].members.contains(
                n.ident,
            );
        every_group_is_drawn(d, o, j);
        assert(drawn_as(d, o, j as nat, groups[j]));
    }
}

/// The group stands in the diagram as composite number `i`.
pub open spec fn drawn_as(d: DeclV, o: OptionsV, i: nat, g: GroupV) -> bool {
    contains(
        state_diagram(d, o),
        composite_text(
            i,
            g.shape,
            g.members,
            state_direction(o.direction),
            if o.signals {
                Some(g.gates)
            } else {
                None
            },
        ),
    )
}

/// What a start waits for: the resources it takes, the deps whose readiness it waits for, and how
/// long it may, where it waits for anything. What a stop clears: the slots it fills.
pub proof fn the_gates_of_a_move_are_those_of_its_node(g: GatesV)
    ensures
        g.takes.len() > 0 ==> contains(shown_up(Some(g)), "takes "@ + joined(g.takes, ", "@)),
        g.waits.len() > 0 ==> contains(
            shown_up(Some(g)),
            "waits "@ + joined(g.waits, ", "@) + " ready"@,
        ),
        (g.takes.len() > 0 || g.waits.len() > 0) && g.within is Some ==> contains(
            shown_up(Some(g)),
            "within "@ + g.within->0 + " ms"@,
        ),
        g.takes.len() == 0 && g.waits.len() == 0 ==> shown_up(Some(g)).len() == 0,
        g.clears.len() > 0 ==> shown_down(Some(g)) == " · clears "@ + joined(g.clears, ", "@),
        g.clears.len() == 0 ==> shown_down(Some(g)).len() == 0,
        shown_up(None).len() == 0,
        shown_down(None).len() == 0,
{
    reveal_strlit("");
    let a = with_if(Seq::empty(), g.takes.len() > 0, "takes "@ + joined(g.takes, ", "@));
    let b = with_if(a, g.waits.len() > 0, "waits "@ + joined(g.waits, ", "@) + " ready"@);
    let c = match g.within {
        Some(ms) => with_if(b, b.len() > 0, "within "@ + ms + " ms"@),
        None => b,
    };
    let t = " · "@ + joined(c, " · "@);
    assert forall|k: int| 0 <= k < c.len() implies contains(t, #[trigger] c[k]) by {
        lemma_part(c, " · "@, k);
        let none = Seq::<char>::empty();
        assert(" · "@ + joined(c, " · "@) + none == t);
        lemma_within_on(joined(c, " · "@), " · "@, none, c[k]);
    }
    if g.takes.len() > 0 {
        assert(c[0] == "takes "@ + joined(g.takes, ", "@));
    }
    if g.waits.len() > 0 {
        assert(c[a.len() as int] == "waits "@ + joined(g.waits, ", "@) + " ready"@);
    }
    if b.len() > 0 && g.within is Some {
        assert(c[b.len() as int] == "within "@ + g.within->0 + " ms"@);
    }
}

pub(crate) proof fn lemma_part(parts: Seq<Seq<char>>, sep: Seq<char>, k: int)
    requires
        0 <= k < parts.len(),
    ensures
        contains(joined(parts, sep), parts[k]),
    decreases parts.len(),
{
    let none = Seq::<char>::empty();
    if parts.len() == 1 {
        assert(none + parts[0] + none == parts[0]);
        lemma_within(none, parts[0], none);
    } else {
        let front = parts.drop_last();
        let a = joined(front, sep);
        if k < parts.len() - 1 {
            lemma_part(front, sep, k);
            assert(front[k] == parts[k]);
            assert(none + a + (sep + parts.last()) == a + sep + parts.last());
            lemma_within_on(a, none, sep + parts.last(), parts[k]);
        } else {
            assert((a + sep) + parts.last() + none == a + sep + parts.last());
            lemma_within(a + sep, parts.last(), none);
        }
    }
}

} // verus!
