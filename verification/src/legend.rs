//! The legend of a flowchart.

use vstd::prelude::*;
use vstd::string::*;

use crate::list::put;
use crate::options::{runtime_dep_edges, runtime_deps, Options, OptionsV, RuntimeDeps};
use crate::text::{
    cat3, cat5, contains, count, decimal, decimal_u128, decimal_usize, has, join, joined,
    occurrences, replace, replaced, text,
};

verus! {

/// The subgraph that holds the diagram where a legend stands beside it.
pub const MAIN: &'static str = "__sv_graph";

/// How many arrows a diagram text holds.
pub open spec fn arrows(s: Seq<char>) -> nat {
    occurrences(s, "-->"@) + occurrences(s, "==>"@) + occurrences(s, ".->"@)
}

pub fn count_links(s: &str) -> (r: u128)
    ensures
        r == arrows(s@),
        r <= 3 * s@.len(),
        r <= 0x2_ffff_ffff_ffff_fffd,
{
    proof {
        reveal_strlit("-->");
        reveal_strlit("==>");
        reveal_strlit(".->");
    }
    let a: usize = count(s, "-->");
    let b: usize = count(s, "==>");
    let c: usize = count(s, ".->");
    a as u128 + b as u128 + c as u128
}

/// The rows of the runtime legend before those on bring-up deps.
pub open spec fn runtime_rows() -> Seq<Seq<char>> {
    Seq::<Seq<char>>::empty()
        .push("{a}[\"writer\"] --> {b}[/\"signal\"/] --> {c}[\"reader\"]"@)
        .push("{a}[\"writer\"] -- \"observed\" --> {b}[/\"polled by the supervisor\"/]"@)
        .push("{a}[\"writer\"] -- \"reported\" --> {b}[/\"reported by the task body\"/]"@)
        .push("{a}[\"node\"] -- \"discovered\" --> {b}[/\"seen in the body, not declared\"/]"@)
        .push("{a}[/\"signal\"/] -- \"gated\" --> {b}[\"reader that cannot start without it\"]"@)
        .push("{a}[\"writer\"] -- \"beat\" --> {b}[/\"and drives its heartbeat\"/]"@)
        .push("{a}[/\"signal\"/] -- \"lease\" --> {b}[\"holds its producer's stop\"]"@)
        .push("{a}[/\"ARR#lsqb;0#rsqb;\"/] -. \"element of\" .- {b}[/\"the whole array's coupling\"/]"@)
        .push("{a}@{ shape: notch-rect, label: \"resources: slot\" } --> {b}[\"the node that takes it\"]"@)
        .push("{a}[\"provider\"] -- \"provides\" --> {b}@{ shape: notch-rect, label: \"slot it fills\" }"@)
}

/// The rows of the bring-up legend.
pub open spec fn bring_up_rows() -> Seq<Seq<char>> {
    Seq::<Seq<char>>::empty()
        .push("{a}[\"dep\"] --> {b}[\"spawns after it\"]"@)
        .push("{a}[\"node\"] -- \"ready\" --> {b}[\"awaits set_ready\"]"@)
        .push("{a}[\"node\"] == \"ready bound\" ==> {b}[\"readiness propagates\"]"@)
        .push("{a}[\"writer\"] -.-> {b}[/\"signal\"/] -.-> {c}[\"reader\"]"@)
        .push("{a}[\"node\"] -. \"discovered\" .-> {b}[/\"signal found in the body\"/]"@)
        .push("{a}@{ shape: notch-rect, label: \"resources: slot\" } --> {b}[\"gates its spawn\"]"@)
        .push("{a}[\"provider\"] -- \"provides\" --> {b}@{ shape: notch-rect, label: \"slot it fills\" }"@)
}

/// The rows of a legend: what each kind of edge in the view means.
pub open spec fn legend_rows(o: OptionsV) -> Seq<Seq<char>> {
    if !o.runtime {
        bring_up_rows()
    } else {
        match runtime_deps(o) {
            RuntimeDeps::All => runtime_rows().push("{a}[\"node\"] -. \"spawn\" .-> {b}[\"bring-up order shown as context\"]"@),
            RuntimeDeps::Anchors => runtime_rows().push("{a}[\"node\"] -. \"spawn\" .-> {b}[\"pinned by bring-up order\"]"@),
            RuntimeDeps::Nothing => runtime_rows(),
        }
    }
}

fn make_rows(o: &Options) -> (r: Vec<String>)
    ensures
        r.deep_view() == legend_rows(o.deep_view()),
{
    let mut rows: Vec<String> = Vec::new();
    assert(rows.deep_view() == Seq::<Seq<char>>::empty());
    if o.runtime {
        put(&mut rows, text("{a}[\"writer\"] --> {b}[/\"signal\"/] --> {c}[\"reader\"]"));
        put(&mut rows, text("{a}[\"writer\"] -- \"observed\" --> {b}[/\"polled by the supervisor\"/]"));
        put(&mut rows, text("{a}[\"writer\"] -- \"reported\" --> {b}[/\"reported by the task body\"/]"));
        put(&mut rows, text("{a}[\"node\"] -- \"discovered\" --> {b}[/\"seen in the body, not declared\"/]"));
        put(&mut rows, text("{a}[/\"signal\"/] -- \"gated\" --> {b}[\"reader that cannot start without it\"]"));
        put(&mut rows, text("{a}[\"writer\"] -- \"beat\" --> {b}[/\"and drives its heartbeat\"/]"));
        put(&mut rows, text("{a}[/\"signal\"/] -- \"lease\" --> {b}[\"holds its producer's stop\"]"));
        put(&mut rows, text("{a}[/\"ARR#lsqb;0#rsqb;\"/] -. \"element of\" .- {b}[/\"the whole array's coupling\"/]"));
        put(&mut rows, text("{a}@{ shape: notch-rect, label: \"resources: slot\" } --> {b}[\"the node that takes it\"]"));
        put(&mut rows, text("{a}[\"provider\"] -- \"provides\" --> {b}@{ shape: notch-rect, label: \"slot it fills\" }"));
        match runtime_dep_edges(o) {
            RuntimeDeps::All => put(&mut rows, text("{a}[\"node\"] -. \"spawn\" .-> {b}[\"bring-up order shown as context\"]")),
            RuntimeDeps::Anchors => put(&mut rows, text("{a}[\"node\"] -. \"spawn\" .-> {b}[\"pinned by bring-up order\"]")),
            RuntimeDeps::Nothing => {},
        }
    } else {
        put(&mut rows, text("{a}[\"dep\"] --> {b}[\"spawns after it\"]"));
        put(&mut rows, text("{a}[\"node\"] -- \"ready\" --> {b}[\"awaits set_ready\"]"));
        put(&mut rows, text("{a}[\"node\"] == \"ready bound\" ==> {b}[\"readiness propagates\"]"));
        put(&mut rows, text("{a}[\"writer\"] -.-> {b}[/\"signal\"/] -.-> {c}[\"reader\"]"));
        put(&mut rows, text("{a}[\"node\"] -. \"discovered\" .-> {b}[/\"signal found in the body\"/]"));
        put(&mut rows, text("{a}@{ shape: notch-rect, label: \"resources: slot\" } --> {b}[\"gates its spawn\"]"));
        put(&mut rows, text("{a}[\"provider\"] -- \"provides\" --> {b}@{ shape: notch-rect, label: \"slot it fills\" }"));
    }
    rows
}

/// The identifier of a legend element: its row and its place in it.
pub open spec fn legend_id(i: int, place: Seq<char>) -> Seq<char> {
    "lg"@ + decimal(i as nat) + place
}

fn make_legend_id(i: usize, place: &str) -> (r: String)
    ensures
        r@ == legend_id(i as int, place@),
{
    let digits = decimal_usize(i);
    cat3("lg", digits.as_str(), place)
}

/// A row with its elements named.
pub open spec fn row_text(row: Seq<char>, i: int) -> Seq<char> {
    replaced(
        replaced(replaced(row, "{a}"@, legend_id(i, "a"@)), "{b}"@, legend_id(i, "b"@)),
        "{c}"@,
        legend_id(i, "c"@),
    )
}

/// What the rows from number `i` on add to a legend.
pub struct Rows {
    /// The lines.
    pub out: Seq<char>,
    /// The elements.
    pub ids: Seq<Seq<char>>,
    /// How many arrows they hold.
    pub links: nat,
}

/// The rows from number `i` on, behind what there is.
pub open spec fn rows_from(rows: Seq<Seq<char>>, i: int, acc: Rows) -> Rows
    decreases rows.len() - i,
{
    if i < 0 || i >= rows.len() {
        acc
    } else {
        let line = row_text(rows[i], i);
        let pair = acc.ids.push(legend_id(i, "a"@)).push(legend_id(i, "b"@));
        rows_from(
            rows,
            i + 1,
            Rows {
                out: acc.out + "    "@ + line + "\n"@,
                ids: if contains(rows[i], "{c}"@) {
                    pair.push(legend_id(i, "c"@))
                } else {
                    pair
                },
                links: acc.links + arrows(line),
            },
        )
    }
}

/// The numbers from `from` up to `to`, in decimal.
pub open spec fn numbers(from: nat, to: nat) -> Seq<Seq<char>> {
    Seq::new((if to > from {
        to - from
    } else {
        0
    }) as nat, |i: int| decimal((from + i) as nat))
}

fn list_numbers(from: u128, to: u128) -> (r: Vec<String>)
    requires
        from <= to,
    ensures
        r.deep_view() == numbers(from as nat, to as nat),
{
    let ghost all = numbers(from as nat, to as nat);
    let mut out: Vec<String> = Vec::new();
    let mut i: u128 = from;
    while i < to
        invariant
            from <= i <= to,
            all == numbers(from as nat, to as nat),
            out.deep_view() == all.take(i - from),
        decreases to - i,
    {
        put(&mut out, decimal_u128(i));
        i = i + 1;
        assert(out.deep_view() == all.take(i - from));
    }
    assert(all.take(to - from) == all);
    out
}

/// The start of a legend.
pub const LEGEND_HEAD: &'static str = "\n  subgraph legend[\"legend\"]\n    direction LR\n";

/// All rows of the legend.
pub open spec fn all_rows(o: OptionsV) -> Rows {
    rows_from(legend_rows(o), 0, Rows { out: LEGEND_HEAD@, ids: Seq::empty(), links: 0 })
}

/// The lines that put the legend beside the diagram.
pub open spec fn chain_text(chained: bool) -> Seq<char> {
    if chained {
        "  "@ + MAIN@ + " ~~~ legend\n  style "@ + MAIN@ + " fill:none,stroke:none\n"@
    } else {
        ""@
    }
}

/// The lines that make the labels of the legend's own arrows small, given how many arrows stand
/// before them.
pub open spec fn link_style(before: nat, links: nat) -> Seq<char> {
    if links == 0 {
        ""@
    } else {
        "  linkStyle "@ + joined(numbers(before, before + links), ","@) + " font-size:10px;\n"@
    }
}

/// The legend of a flowchart.
pub open spec fn legend_text(o: OptionsV, chained: bool, before: nat) -> Seq<char> {
    let rows = all_rows(o);
    rows.out + "  end\n"@ + chain_text(chained) + "  class "@ + joined(rows.ids, ","@)
        + " legendtext;\n  classDef legendtext font-size:11px;\n"@ + link_style(before, rows.links)
}

/// The legend of a flowchart that has `before` arrows of its own.
pub fn legend(o: &Options, chained: bool, before: u128) -> (r: String)
    requires
        before <= 0x2_ffff_ffff_ffff_fffd,
    ensures
        r@ == legend_text(o.deep_view(), chained, before as nat),
{
    let rows = make_rows(o);
    let ghost v = rows.deep_view();
    let ghost total = all_rows(o.deep_view());
    let mut out = text(LEGEND_HEAD);
    let mut ids: Vec<String> = Vec::new();
    assert(ids.deep_view() == Seq::<Seq<char>>::empty());
    let mut links: u128 = 0;
    let size: usize = rows.len();
    assert(size <= 11);
    let mut i: usize = 0;
    while i < size
        invariant
            i <= size == rows@.len(),
            size <= 11,
            v == rows.deep_view(),
            links <= 0x2_ffff_ffff_ffff_fffd * i,
            total == rows_from(
                v,
                i as int,
                Rows { out: out@, ids: ids.deep_view(), links: links as nat },
            ),
        decreases size - i,
    {
        proof {
            reveal_strlit("{a}");
            reveal_strlit("{b}");
            reveal_strlit("{c}");
        }
        let a = make_legend_id(i, "a");
        let b = make_legend_id(i, "b");
        let c = make_legend_id(i, "c");
        let one = replace(rows[i].as_str(), "{a}", a.as_str());
        let two = replace(one.as_str(), "{b}", b.as_str());
        let line = replace(two.as_str(), "{c}", c.as_str());
        assert(line@ == row_text(v[i as int], i as int));
        links = links + count_links(line.as_str());
        out.append("    ");
        out.append(line.as_str());
        out.append("\n");
        put(&mut ids, a);
        put(&mut ids, b);
        if has(rows[i].as_str(), "{c}") {
            put(&mut ids, c);
        }
        i = i + 1;
    }
    assert(total == (Rows { out: out@, ids: ids.deep_view(), links: links as nat }));
    out.append("  end\n");
    let chain = if chained {
        cat5("  ", MAIN, " ~~~ legend\n  style ", MAIN, " fill:none,stroke:none\n")
    } else {
        text("")
    };
    out.append(chain.as_str());
    out.append("  class ");
    let names = join(&ids, ",");
    out.append(names.as_str());
    out.append(" legendtext;\n  classDef legendtext font-size:11px;\n");
    let style = if links == 0 {
        text("")
    } else {
        let styled = list_numbers(before, before + links);
        let list = join(&styled, ",");
        cat3("  linkStyle ", list.as_str(), " font-size:10px;\n")
    };
    out.append(style.as_str());
    out
}

} // verus!
