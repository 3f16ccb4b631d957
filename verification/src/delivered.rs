//! What the tools do with what they find: which declarations are chosen, what is delivered of them,
//! and what is reported.

use vstd::prelude::*;

use crate::args::{LintArgsV, MermaidArgsV};
use crate::discover::{BundleV, DiscoveredV};
use crate::find::{DeclKind, DeclV};
use crate::inputs::ScanV;
use crate::label::with_some;
use crate::lifecycle::{lemma_left, lemma_part, lemma_within, lemma_within_on};
use crate::options::{
    frontmatter_of, node_spacing, rank_spacing, setting, spacing_text, title_of, OptionsV,
};
use crate::out::{updated, END, START};
use crate::render::{flowchart, header};
use crate::resolve::resolved;
use crate::states::state_diagram;
use crate::text::{
    bounded_number, contains, decimal, ends_with, find, joined, starts_with, trimmed,
};
use crate::tool::{
    all_findings, all_warnings, codes, delivery, description, diagrams_of, drawing_options, drawn,
    exclusion, fenced_from, finishing, legend_apart, listed_from, live_links, marked_from,
    named_from, narrowing, page_of, picked, report, selection, summary, ActionV, NarrowedV, PlanV,
};

verus! {

proof fn lemma_named(decls: Seq<DeclV>, name: Seq<char>, i: int, acc: Seq<DeclV>, x: DeclV)
    requires
        0 <= i,
    ensures
        named_from(decls, name, i, acc).contains(x) <==> acc.contains(x) || (x.spec.name == Some(
            name,
        ) && exists|k: int| i <= k < decls.len() && #[trigger] decls[k] == x),
    decreases decls.len() - i,
{
    if i < decls.len() {
        let next = if decls[i].spec.name == Some(name) {
            acc.push(decls[i])
        } else {
            acc
        };
        lemma_named(decls, name, i + 1, next, x);
        if acc.contains(x) {
            let k = choose|k: int| 0 <= k < acc.len() && acc[k] == x;
            assert(next[k] == x);
        }
        if decls[i] == x && x.spec.name == Some(name) {
            assert(next[acc.len() as int] == x);
        }
        if next.contains(x) && !acc.contains(x) {
            let k = choose|k: int| 0 <= k < next.len() && next[k] == x;
            if k < acc.len() {
                assert(acc[k] == x);
            }
            assert(decls[i] == x);
        }
    }
}

/// A number selects the declaration of that place, counted from one; a name selects all
/// declarations of that name, and is refused where there are none.
pub proof fn what_is_selected_has_the_number_or_the_name(
    decls: Seq<DeclV>,
    want: Seq<char>,
    x: DeclV,
)
    ensures
        match bounded_number(want, usize::MAX as nat) {
            Some(n) => {
                &&& selection(decls, want) is Ok <==> 1 <= n <= decls.len()
                &&& selection(decls, want) matches Ok(v) ==> v.len() == 1 && v[0] == decls[n - 1]
            },
            None => {
                &&& selection(decls, want) matches Ok(v) ==> (v.contains(x) <==> decls.contains(x)
                    && x.spec.name == Some(want))
                &&& decls.contains(x) && x.spec.name == Some(want) ==> selection(decls, want) is Ok
            },
        },
{
    lemma_named(decls, want, 0, Seq::empty(), x);
    if decls.contains(x) {
        let k = choose|k: int| 0 <= k < decls.len() && decls[k] == x;
        assert(decls[k] == x);
    }
    if named_from(decls, want, 0, Seq::empty()).contains(x) {
        assert(named_from(decls, want, 0, Seq::empty()).len() > 0);
    }
}

/// An answer picks the declaration of that number, counted from one; an empty answer, or the letter
/// a, picks all.
pub proof fn an_answer_picks_its_number(decls: Seq<DeclV>, answer: Seq<char>)
    ensures
        trimmed(answer).len() == 0 || trimmed(answer) == "a"@ || trimmed(answer) == "A"@ ==> picked(
            decls,
            answer,
        ) == Ok::<Seq<DeclV>, Seq<char>>(decls),
        trimmed(answer).len() > 0 && trimmed(answer) != "a"@ && trimmed(answer) != "A"@ ==> (picked(
            decls,
            answer,
        ) is Ok <==> (bounded_number(trimmed(answer), usize::MAX as nat) matches Some(n) && 1 <= n
            <= decls.len())),
        trimmed(answer).len() > 0 && trimmed(answer) != "a"@ && trimmed(answer) != "A"@ ==> (picked(
            decls,
            answer,
        ) matches Ok(v) ==> v.len() == 1 && v[0] == decls[bounded_number(
            trimmed(answer),
            usize::MAX as nat,
        )->0 - 1]),
{
}

/// Which declarations the arguments come to: a listing for `--list`, those selected for `--select`,
/// else all, but that the tool asks where there are several and nothing says to take them all.
pub proof fn the_arguments_choose_the_declarations(
    a: MermaidArgsV,
    decls: Seq<DeclV>,
    left: Seq<DeclV>,
)
    requires
        exclusion(decls, a.exclude) == Ok::<Seq<DeclV>, Seq<char>>(left),
    ensures
        a.list ==> narrowing(a, decls) matches Ok(NarrowedV::Listing(_)),
        !a.list && a.select is None && left.len() > 1 && !a.all && !a.json && !a.watch && !a.check
            ==> narrowing(a, decls) == Ok::<NarrowedV, Seq<char>>(NarrowedV::Ask(left)),
        !a.list && a.select is None && (left.len() <= 1 || a.all || a.json || a.watch || a.check)
            ==> narrowing(a, decls) == Ok::<NarrowedV, Seq<char>>(NarrowedV::Chosen(left)),
        !a.list ==> (a.select matches Some(want) ==> (narrowing(a, decls) matches Ok(
            NarrowedV::Chosen(v),
        ) ==> selection(left, want) == Ok::<Seq<DeclV>, Seq<char>>(v))),
        a.exclude.len() == 0 ==> left == decls,
        left.len() == decls.len(),
{
}

proof fn lemma_listed(decls: Seq<DeclV>, indent: Seq<char>, i: int, acc: Seq<char>, k: int)
    requires
        0 <= i,
    ensures
        forall|x: Seq<char>| #[trigger]
            contains(acc, x) ==> contains(listed_from(decls, indent, i, acc), x),
        i <= k < decls.len() ==> contains(
            listed_from(decls, indent, i, acc),
            "["@ + decimal((k + 1) as nat) + "] "@ + description(decls[k]),
        ),
    decreases decls.len() - i,
{
    if i < decls.len() {
        let line = "["@ + decimal((i + 1) as nat) + "] "@ + description(decls[i]);
        let next = acc + indent + "["@ + decimal((i + 1) as nat) + "] "@ + description(decls[i])
            + "\n"@;
        assert(next =~= (acc + indent) + line + "\n"@);
        lemma_within(acc + indent, line, "\n"@);
        assert forall|x: Seq<char>| #[trigger] contains(acc, x) implies contains(next, x) by {
            let rest = indent + line + "\n"@;
            assert(next =~= acc + rest);
            lemma_left(acc, rest, x);
        }
        lemma_listed(decls, indent, i + 1, next, k);
    }
}

/// A listing has every declaration, with the number that selects it.
pub proof fn every_declaration_is_listed_with_its_number(
    decls: Seq<DeclV>,
    indent: Seq<char>,
    k: int,
)
    requires
        0 <= k < decls.len(),
    ensures
        contains(
            listed_from(decls, indent, 0, ""@),
            "["@ + decimal((k + 1) as nat) + "] "@ + description(decls[k]),
        ),
        contains(description(decls[k]), decls[k].origin + ":"@ + decimal(decls[k].line as nat)),
{
    lemma_listed(decls, indent, 0, ""@, k);
    let d = decls[k];
    let a = crate::find::macro_name(d.kind) + " "@ + (match d.spec.name {
        Some(n) => n,
        None => "<unnamed>"@,
    }) + "  ("@;
    let x = d.origin + ":"@ + decimal(d.line as nat);
    let b = ", "@ + decimal(d.spec.items.len()) + " items)"@;
    assert(description(d) =~= a + x + b);
    lemma_within(a, x, b);
}

/// One diagram is drawn for each declaration, in order: its lifecycles where those are asked for,
/// else its flowchart; with all options as given, and with what the sources hold.
pub proof fn every_declaration_has_its_diagram(
    a: MermaidArgsV,
    decls: Seq<DeclV>,
    discovered: Seq<DiscoveredV>,
    bundles: Seq<BundleV>,
    k: int,
) -> (o: OptionsV)
    requires
        0 <= k < decls.len(),
    ensures
        diagrams_of(a, decls, discovered, bundles).len() >= decls.len(),
        diagrams_of(a, decls, discovered, bundles)[k].1 == (if a.opts.states {
            state_diagram(decls[k], o)
        } else {
            flowchart(decls[k], o)
        }),
        o.discovered == discovered && o.bundles == bundles,
        o.legend <==> a.opts.legend && !a.markdown && a.update is None,
        o == (OptionsV { discovered, bundles, legend: o.legend, ..a.opts }),
{
    drawing_options(a.opts, discovered, bundles, legend_apart(a))
}

proof fn lemma_fenced(diagrams: Seq<(Seq<char>, Seq<char>)>, i: int, acc: Seq<char>, k: int)
    requires
        0 <= i,
    ensures
        forall|x: Seq<char>| #[trigger]
            contains(acc, x) ==> contains(fenced_from(diagrams, i, acc), x),
        i <= k < diagrams.len() ==> contains(
            fenced_from(diagrams, i, acc),
            "```mermaid\n"@ + diagrams[k].1 + "```\n"@,
        ),
    decreases diagrams.len() - i,
{
    if i < diagrams.len() {
        let block = "```mermaid\n"@ + diagrams[i].1 + "```\n"@;
        let gap = if i > 0 {
            "\n"@
        } else {
            ""@
        };
        let head = if diagrams.len() > 1 {
            "### "@ + diagrams[i].0 + "\n\n"@
        } else {
            ""@
        };
        let next = acc + gap + head + "```mermaid\n"@ + diagrams[i].1 + "```\n"@;
        let none = Seq::<char>::empty();
        assert(next =~= (acc + gap + head) + block + none);
        lemma_within(acc + gap + head, block, none);
        assert forall|x: Seq<char>| #[trigger] contains(acc, x) implies contains(next, x) by {
            let rest = gap + head + block;
            assert(next =~= acc + rest);
            lemma_left(acc, rest, x);
        }
        lemma_fenced(diagrams, i + 1, next, k);
    }
}

/// The file at `path` gets this text.
pub open spec fn updates(p: PlanV, path: Seq<char>, text: Seq<char>) -> bool {
    p.actions.contains(ActionV::Update(path, text))
}

/// What is delivered goes where the arguments say: a page to the file of `--html`, an image of the
/// one diagram to the file of `--render`, fenced blocks into the file of `--update`; and where they
/// name no such place, to standard output, with every diagram in it.
pub proof fn what_is_delivered_goes_where_it_is_asked_for(
    a: MermaidArgsV,
    diagrams: Seq<(Seq<char>, Seq<char>)>,
    k: int,
)
    requires
        0 <= k < diagrams.len(),
    ensures
        a.html matches Some(path) ==> delivery(a, diagrams).actions.contains(
            ActionV::Page(path, page_of(a, diagrams)),
        ),
        a.render_to is Some && diagrams.len() > 1 <==> delivery(a, diagrams).error is Some,
        a.render_to matches Some(path) ==> diagrams.len() == 1 ==> delivery(
            a,
            diagrams,
        ).actions.contains(ActionV::Image(path, diagrams[0].1)),
        delivery(a, diagrams).error is None ==> (a.update matches Some(path) ==> exists|text: Seq<
            char,
        >| #[trigger]
            updates(delivery(a, diagrams), path, text) && contains(
                text,
                "```mermaid\n"@ + diagrams[k].1 + "```\n"@,
            )),
        !a.live_url && a.html is None && a.render_to is None && a.update is None ==> delivery(
            a,
            diagrams,
        ).actions.len() == 1 && (delivery(a, diagrams).actions[0] matches ActionV::Write(text)
            && contains(text, diagrams[k].1) && (a.markdown ==> contains(
            text,
            "```mermaid\n"@ + diagrams[k].1 + "```\n"@,
        ))),
{
    let shared = if a.live_url {
        seq![
            ActionV::Write(
                crate::tool::links_from(diagrams, live_links(diagrams), 0, ""@),
            ),
        ]
    } else {
        Seq::empty()
    };
    let paged = match a.html {
        Some(path) => shared.push(ActionV::Page(path, page_of(a, diagrams))),
        None => shared,
    };
    let all = delivery(a, diagrams).actions;
    let text = fenced_from(diagrams, 0, ""@);
    lemma_fenced(diagrams, 0, ""@, k);
    if let Some(path) = a.html {
        assert(paged[shared.len() as int] == ActionV::Page(path, page_of(a, diagrams)));
        assert(all[shared.len() as int] == paged[shared.len() as int]);
    }
    if let Some(path) = a.render_to {
        if diagrams.len() == 1 {
            assert(all[paged.len() as int] == ActionV::Image(path, diagrams[0].1));
        }
    }
    if delivery(a, diagrams).error is None {
        if let Some(path) = a.update {
            assert(all.last() == ActionV::Update(path, text));
            assert(all[all.len() - 1] == ActionV::Update(path, text));
            assert(updates(delivery(a, diagrams), path, text));
        }
    }
    if !a.live_url && a.html is None && a.render_to is None && a.update is None {
        if a.markdown {
            let i = choose|i: int|
                crate::text::stands_at(text, i, "```mermaid\n"@ + diagrams[k].1 + "```\n"@);
            let open = "```mermaid\n"@;
            lemma_within(open, diagrams[k].1, "```\n"@);
            lemma_inside(text, open + diagrams[k].1 + "```\n"@, diagrams[k].1);
        } else {
            assert(codes(diagrams)[k] == diagrams[k].1);
            lemma_part(codes(diagrams), "\n"@, k);
        }
    }
}

proof fn lemma_inside(t: Seq<char>, m: Seq<char>, x: Seq<char>)
    requires
        contains(t, m),
        contains(m, x),
    ensures
        contains(t, x),
{
    let i = choose|i: int| crate::text::stands_at(t, i, m);
    let a = t.subrange(0, i);
    let b = t.subrange(i + m.len(), t.len() as int);
    assert(t =~= a + m + b);
    lemma_within_on(m, a, b, x);
}

/// `--check` fails exactly where there is a warning; `--json` writes the model.
pub proof fn checking_fails_where_something_is_warned_of(
    a: MermaidArgsV,
    decls: Seq<DeclV>,
    scan: ScanV,
    warnings: Seq<Seq<char>>,
)
    ensures
        a.check ==> (finishing(a, decls, scan, warnings).error is Some <==> warnings.len() > 0),
        a.json && !a.check ==> finishing(a, decls, scan, warnings).error is None && finishing(
            a,
            decls,
            scan,
            warnings,
        ).actions.len() == 1,
        !a.check && !a.json ==> finishing(a, decls, scan, warnings) == delivery(
            a,
            diagrams_of(a, decls, scan.scanned_accesses, scan.bundles),
        ),
{
}

proof fn lemma_marked(list: Seq<Seq<char>>, mark: Seq<char>, i: int, acc: Seq<Seq<char>>)
    requires
        0 <= i <= list.len(),
    ensures
        marked_from(list, mark, i, acc).len() == acc.len() + list.len() - i,
        forall|k: int|
            0 <= k < acc.len() ==> #[trigger] marked_from(list, mark, i, acc)[k] == acc[k],
        forall|k: int|
            i <= k < list.len() ==> marked_from(list, mark, i, acc)[acc.len() + k - i] == mark
                + #[trigger] list[k],
    decreases list.len() - i,
{
    if i < list.len() {
        let next = acc.push(mark + list[i]);
        lemma_marked(list, mark, i + 1, next);
        let r = marked_from(list, mark, i, acc);
        assert forall|k: int| 0 <= k < acc.len() implies #[trigger] r[k] == acc[k] by {
            assert(r[k] == next[k]);
        }
        assert forall|k: int| i <= k < list.len() implies r[acc.len() + k - i] == mark
            + #[trigger] list[k] by {
            if k == i {
                assert(r[acc.len() as int] == next[acc.len() as int]);
            } else {
                assert(r[next.len() + k - (i + 1)] == mark + list[k]);
            }
        }
    }
}

/// The linting tool reports every warning and every finding, each behind its mark and in order, and
/// one line more; it fails exactly where it finds something.
pub proof fn the_report_has_every_warning_and_finding(a: LintArgsV, scan: ScanV)
    ensures
        ({
            let warned = all_warnings(scan);
            let found = all_findings(a, scan);
            let lines = report(a, scan).lines;
            &&& lines.len() == warned.len() + found.len() + 1
            &&& forall|k: int|
                0 <= k < warned.len() ==> lines[k] == "warning: "@ + #[trigger] warned[k]
            &&& forall|k: int|
                0 <= k < found.len() ==> lines[warned.len() + k] == "lint: "@ + #[trigger] found[k]
            &&& report(a, scan).failed <==> found.len() > 0
        }),
{
    let warned = all_warnings(scan);
    let found = all_findings(a, scan);
    let first = marked_from(warned, "warning: "@, 0, Seq::empty());
    let both = marked_from(found, "lint: "@, 0, first);
    let lines = report(a, scan).lines;
    lemma_marked(warned, "warning: "@, 0, Seq::empty());
    lemma_marked(found, "lint: "@, 0, first);
    assert(lines == both.push(
        summary(resolved(scan.decls).0.len(), found.len(), warned.len()),
    ));
    assert forall|k: int| 0 <= k < warned.len() implies lines[k] == "warning: "@
        + #[trigger] warned[k] by {
        assert(lines[k] == both[k] && both[k] == first[k]);
    }
    assert forall|k: int| 0 <= k < found.len() implies lines[warned.len() + k] == "lint: "@
        + #[trigger] found[k] by {
        assert(lines[warned.len() + k] == both[warned.len() + k]);
    }
}

/// The directive on spacing: `--h-spacing` is the distance across the page and `--v-spacing` the one
/// down it, so which of the two parts ranks depends on the direction of the diagram.
pub proof fn a_spacing_is_set_along_its_own_axis(o: OptionsV, n: u32)
    requires
        (o.direction == "LR"@ || o.direction == "RL"@) && o.h_spacing == Some(n) || (o.direction
            != "LR"@ && o.direction != "RL"@) && o.v_spacing == Some(n),
    ensures
        contains(spacing_text(o), "\"rankSpacing\": "@ + decimal(n as nat)),
{
    let one = with_some(Seq::empty(), setting("\"nodeSpacing\": "@, node_spacing(o)));
    let both = with_some(one, setting("\"rankSpacing\": "@, rank_spacing(o)));
    let x = "\"rankSpacing\": "@ + decimal(n as nat);
    assert(both[one.len() as int] == x);
    lemma_part(both, ", "@, one.len() as int);
    lemma_within_on(joined(both, ", "@), "%%{init: {\"flowchart\": {"@, "}} }%%\n"@, x);
}

/// The other of the two parts the nodes of one rank.
pub proof fn a_spacing_parts_the_nodes_of_a_rank(o: OptionsV, n: u32)
    requires
        (o.direction == "LR"@ || o.direction == "RL"@) && o.v_spacing == Some(n) || (o.direction
            != "LR"@ && o.direction != "RL"@) && o.h_spacing == Some(n),
    ensures
        contains(spacing_text(o), "\"nodeSpacing\": "@ + decimal(n as nat)),
{
    let one = with_some(Seq::empty(), setting("\"nodeSpacing\": "@, node_spacing(o)));
    let both = with_some(one, setting("\"rankSpacing\": "@, rank_spacing(o)));
    let x = "\"nodeSpacing\": "@ + decimal(n as nat);
    assert(both[0] == x);
    lemma_part(both, ", "@, 0);
    lemma_within_on(joined(both, ", "@), "%%{init: {\"flowchart\": {"@, "}} }%%\n"@, x);
}

/// A diagram is titled as asked, else by the macro that declares it and its name; it is drawn in the
/// direction asked for, and says where it was declared.
pub proof fn a_flowchart_says_what_it_shows(d: DeclV, o: OptionsV)
    ensures
        title_of(d, o) == (match (o.title, d.spec.name) {
            (Some(t), _) => t,
            (None, Some(n)) => (match d.kind {
                DeclKind::Graph => "supervisor_graph!"@,
                DeclKind::Fragment => "supervisor_fragment!"@,
                DeclKind::Compose => "compose_graph!"@,
            }) + " "@ + n,
            (None, None) => match d.kind {
                DeclKind::Graph => "supervisor_graph!"@,
                DeclKind::Fragment => "supervisor_fragment!"@,
                DeclKind::Compose => "compose_graph!"@,
            },
        }),
        contains(
            header(d, o),
            title_of(d, o) + "  ("@ + (d.origin + ":"@ + decimal(d.line as nat)) + ")\nflowchart "@
                + o.direction,
        ),
{
    let title = title_of(d, o);
    let place = d.origin + ":"@ + decimal(d.line as nat);
    let a = frontmatter_of(title, o) + spacing_text(o) + "%% "@ + (if o.runtime {
        "runtime coupling — "@
    } else {
        ""@
    });
    let x = title + "  ("@ + place + ")\nflowchart "@ + o.direction;
    let b = "\n  accDescr: supervisor task graph declared at "@ + place + "\n"@ + (if o.legend {
        "  subgraph "@ + crate::legend::MAIN@ + "[\" \"]\n    direction "@ + o.direction + "\n"@
    } else {
        ""@
    });
    assert(header(d, o) =~= a + x + b);
    lemma_within(a, x, b);
}

/// Updating a document replaces what stands between its two markers, markers and all, by the new
/// block between the same markers, and keeps the text before and behind them; where the document has
/// no marker, it keeps the whole document and puts the block behind it.
pub proof fn an_update_keeps_the_rest_of_a_document(existing: Seq<char>, block: Seq<char>)
    ensures
        (find(existing, START@) is Some) != (find(existing, END@) is Some) ==> updated(
            existing,
            block,
        ) is None,
        updated(existing, block) matches Some(t) ==> contains(
            t,
            START@ + "\n"@ + block + END@,
        ),
        updated(existing, block) matches Some(t) ==> (find(existing, START@) matches Some(a) ==> (
        find(existing, END@) matches Some(b) ==> starts_with(t, existing.take(a)) && ends_with(
            t,
            existing.skip(b + END@.len()),
        ))),
        find(existing, START@) is None && find(existing, END@) is None ==> (updated(
            existing,
            block,
        ) matches Some(t) && starts_with(t, existing)),
{
    crate::text::lemma_find_from(existing, START@, 0);
    crate::text::lemma_find_from(existing, END@, 0);
    if let Some(t) = updated(existing, block) {
        let whole = START@ + "\n"@ + block + END@;
        match (find(existing, START@), find(existing, END@)) {
            (Some(a), Some(b)) => {
                let before = existing.take(a);
                let behind = existing.skip(b + END@.len());
                assert(t == before + whole + behind);
                lemma_within(before, whole, behind);
                assert(t.subrange(0, before.len() as int) =~= before);
                assert(t.subrange(t.len() - behind.len(), t.len() as int) =~= behind);
            },
            (None, None) => {
                let gap = if ends_with(existing, "\n"@) {
                    "\n"@
                } else {
                    "\n\n"@
                };
                assert(t == existing + gap + whole + "\n"@);
                lemma_within(existing + gap, whole, "\n"@);
                assert(t.subrange(0, existing.len() as int) =~= existing);
            },
            _ => {},
        }
    }
}

} // verus!
