//! What holds of the library as a whole, on chosen values.

use supervisor_tools::args::{parse_lint_args, parse_mermaid_args, MermaidArgs};
use supervisor_tools::ast::{GraphSpec, Item};
use supervisor_tools::bindings::{coverage_warnings, expand_bundles};
use supervisor_tools::coupling::{do_alias, signal_labels};
use supervisor_tools::discover::{scan_bundles, scan_fns, scan_source, Bundle};
use supervisor_tools::find::{parse_source, Decl, DeclKind};
use supervisor_tools::ids::Ids;
use supervisor_tools::inputs::{dedup, ModuleWalk, Scan};
use supervisor_tools::label::esc;
use supervisor_tools::lint::{dataflow_lints, LintCats};
use supervisor_tools::list::Dup;
use supervisor_tools::model::model_json;
use supervisor_tools::options::Options;
use supervisor_tools::order::in_order;
use supervisor_tools::out::{base64_url, html_page, script_esc, update_text};
use supervisor_tools::render;
use supervisor_tools::resolve::{exclude, resolve};
use supervisor_tools::text::decimal_usize;
use supervisor_tools::token::{
    normalize_fragment_crate, render_tokens, substitute_dollar_crate, tokens_of, Tok,
};
use supervisor_tools::tool::{begin, conclude, deliver, narrow, Action, Narrowed};
use supervisor_tools::verbs::{rewrite_verb_calls, Reply, VerbTable};

fn decls(src: &str, file: &str) -> Vec<Decl> {
    parse_source(src, file).unwrap()
}

fn tokens(src: &str) -> Vec<Tok> {
    tokens_of(src).unwrap()
}

fn shown(toks: &Vec<Tok>) -> String {
    render_tokens(toks, 0, toks.len()).replace(' ', "")
}

fn texts(list: &[&str]) -> Vec<String> {
    list.iter().map(|s| s.to_string()).collect()
}

fn drawing(args: &[&str]) -> MermaidArgs {
    parse_mermaid_args(&texts(args)).unwrap().unwrap()
}

const PAIR: &str = r#"
    embassy_supervisor::supervisor_graph! {
        name: PAIR;
        node A = Terminate, deps: [], task: a, writes: [crate::x::S observed];
        node B = Terminate, deps: [A ready, GONE], task: b, reads: [crate::x::S, crate::y::S];
        pool C = [Terminate, Terminate], deps: [B], task: c, policy: P, min: 1, max: 2;
    }
"#;

#[test]
fn a_parsed_graph_keeps_its_markers_in_order() {
    let g = GraphSpec::parse_str(
        "node A = Terminate, deps: [B ready bound], task: a, beat_timeout: 5, beat_window: 255,
             ready_on_write, writes: [S observed beat], resources: [R: T, D: divisible];",
    )
    .unwrap();
    let Item::Node(n) = &g.items[0] else {
        panic!("a node");
    };
    assert!(n.deps.iter().all(|d| !d.bound || d.ready));
    assert!(n.writes.iter().all(|s| !s.beat || s.observed));
    assert_eq!(n.beat_window.as_ref().unwrap().value.value, Some(255));
    assert!(n.resources[1].ty.is_none() && n.resources[1].divisible);
    for refused in [
        "node A = Terminate, deps: [B bound];",
        "node A = Terminate, task: a, beat_timeout: 5, beat_window: 256;",
        "node A = Terminate, task: a, beat_timeout: 5, beat_window: 0;",
        "node A = Terminate, task: a, resources: [R: T, R: T];",
        "node A = Terminate, task: a, resources: [R: consume shared T];",
        "node A = Terminate, task: a, reads: [S[0], S];",
        "node A = Pause, task: a, cancel;",
        "node A = Terminate, task: a, spawn: b;",
        "node A = Terminate, spawn: a, pool_size: 2;",
        "node A = Terminate, task: a, pool_size: 0;",
    ] {
        assert!(GraphSpec::parse_str(refused).is_err(), "{refused}");
    }
}

#[test]
fn a_default_executor_takes_in_what_names_none() {
    let g = GraphSpec::parse_str(
        "default executor MAIN; executor SIDE; node A = Terminate; node B = Terminate, executor: SIDE;",
    )
    .unwrap();
    let on: Vec<(Option<&str>, bool)> = g
        .items
        .iter()
        .filter_map(|i| match i {
            Item::Node(n) => Some((n.executor.as_deref(), n.executor_defaulted)),
            _ => None,
        })
        .collect();
    assert_eq!(on, [(Some("MAIN"), true), (Some("SIDE"), false)]);
}

#[test]
fn normalizing_is_stable_and_leaves_no_bare_crate() {
    let once = normalize_fragment_crate(&tokens("crate::a + $crate::b + $x"));
    assert_eq!(shown(&once), "$crate::a+$crate::b+$x");
    assert_eq!(shown(&normalize_fragment_crate(&once)), shown(&once));
}

#[test]
fn substitution_reaches_every_dollar_crate_and_nothing_else() {
    let body = tokens("$crate::a($crate::b, crate::c, $x)");
    let out = substitute_dollar_crate(&body, &tokens("dep::inner"));
    assert_eq!(shown(&out), "dep::inner::a(dep::inner::b,crate::c,$x)");
    let plain = tokens("a::b[0]");
    assert_eq!(shown(&substitute_dollar_crate(&plain, &tokens("z"))), shown(&plain));
}

#[test]
fn a_verb_points_one_way() {
    let table = VerbTable::parse(&tokens("read(peek), write(poke, shove)")).unwrap();
    assert_eq!(table.direction("peek"), Some(false));
    assert_eq!(table.direction("poke"), Some(true));
    assert_eq!(table.direction("shove"), Some(true));
    assert_eq!(table.direction("get"), Some(false));
    assert_eq!(table.direction("put"), Some(true));
    assert_eq!(table.direction("other"), None);
    assert!(VerbTable::parse(&tokens("read(peek), write(peek)")).is_err());
    assert!(VerbTable::parse(&tokens("write(get)")).is_err());
    assert!(VerbTable::parse(&tokens("read()")).is_err());
    assert_eq!(VerbTable::builtin().direction("peek"), None);
}

#[test]
fn a_walk_without_replies_leaves_the_body_alone() {
    let body = tokens("{ node.put(&crate::A, 1); if c { node.get(&B[i]); } }");
    let kept = rewrite_verb_calls(&body, "node", &VerbTable::builtin(), &vec![]).unwrap();
    assert_eq!(shown(&kept.out), shown(&body));
    let replies = vec![Reply::Keep, Reply::Replace(tokens("&OTHER"))];
    let changed = rewrite_verb_calls(&body, "node", &VerbTable::builtin(), &replies).unwrap();
    assert_eq!(
        shown(&changed.out),
        shown(&tokens("{ node.put(&crate::A, 1); if c { node.get(&OTHER); } }"))
    );
    let found = |calls: &[supervisor_tools::verbs::VerbCall]| -> Vec<(String, String, bool)> {
        calls.iter().map(|c| (c.verb.clone(), c.path.clone(), c.write)).collect()
    };
    assert_eq!(found(&kept.calls), found(&changed.calls));
    assert_eq!(
        found(&kept.calls),
        [
            ("put".to_string(), "crate::A".to_string(), true),
            ("get".to_string(), "B[i]".to_string(), false),
        ]
    );
}

#[test]
fn references_without_a_bundle_stay_as_they_are() {
    let bundle = Bundle {
        module: "m".to_string(),
        mod_name: "inner".to_string(),
        name: "ALL".to_string(),
        fns: texts(&["f", "g"]),
    };
    let plain = vec![("f".to_string(), None), ("h".to_string(), Some("m".to_string()))];
    assert_eq!(expand_bundles(&plain, &vec![bundle.dup()]), plain);
    let named = vec![("ALL".to_string(), Some("inner".to_string()))];
    let m = Some("m".to_string());
    assert_eq!(
        expand_bundles(&named, &vec![bundle]),
        [("f".to_string(), m.clone()), ("g".to_string(), m)]
    );
}

#[test]
fn coverage_is_silent_exactly_where_all_is_covered() {
    let graph = decls(
        "supervisor_graph! { node A = Terminate, task: m::f, discover; }",
        "graph.rs",
    );
    let here = vec![("m".to_string(), "f".to_string())];
    assert!(coverage_warnings(&graph, &here, &vec![], &vec![]).is_empty());
    assert!(coverage_warnings(&graph, &vec![], &here, &vec![]).is_empty());
    let unscanned = coverage_warnings(&graph, &vec![], &vec![], &vec![]);
    assert_eq!(unscanned.len(), 1);
    assert!(unscanned[0].starts_with("A: no `#[dataflow]` fn `m::f` among"), "{unscanned:?}");
    let more = vec![here[0].clone(), ("m".to_string(), "g".to_string())];
    let unbound = coverage_warnings(&graph, &more, &vec![], &vec![]);
    assert_eq!(unbound.len(), 1);
    assert!(unbound[0].starts_with("`#[dataflow]` fn `m::g` is not bound"), "{unbound:?}");
    assert!(coverage_warnings(&graph, &here, &more, &vec![]).is_empty());
}

#[test]
fn aliasing_reads_the_same_both_ways() {
    for (a, b, same) in [
        ("crate::a::S", "a::S", true),
        ("x::a::S", "a::S", true),
        ("a::S", "b::S", false),
        ("aS", "S", false),
    ] {
        assert_eq!(do_alias(a, b), same, "{a} {b}");
        assert_eq!(do_alias(b, a), same, "{b} {a}");
    }
}

#[test]
fn a_label_has_as_few_segments_as_it_takes() {
    let g = decls(
        "supervisor_graph! { node A = Terminate, task: a, writes: [p::x::S, q::x::S, r::T];
             node B = Terminate, task: b, reads: [p::x::S]; }",
        "t.rs",
    );
    let labels = signal_labels(&g[0].spec.items, false);
    assert_eq!(
        labels,
        [
            ("p::x::S".to_string(), "p::x::S".to_string()),
            ("q::x::S".to_string(), "q::x::S".to_string()),
            ("r::T".to_string(), "T".to_string()),
        ]
    );
    let full = signal_labels(&g[0].spec.items, true);
    assert!(full.iter().all(|(key, label)| key == label));
}

#[test]
fn every_kind_of_declaration_is_a_macro() {
    for kind in [DeclKind::Graph, DeclKind::Fragment, DeclKind::Compose] {
        assert!(kind.macro_name().ends_with('!'));
    }
}

#[test]
fn identifiers_are_stable_and_distinct() {
    let mut ids = Ids::new();
    let a = ids.get("n", "a-b");
    let b = ids.get("n", "a_b");
    let c = ids.get("s", "a_b");
    assert!(a != b && b != c && a != c, "{a} {b} {c}");
    assert_eq!(ids.get("n", "a-b"), a);
    assert_eq!(ids.get("n", "a_b"), b);
    assert_eq!(ids.get("s", "a_b"), c);
}

#[test]
fn sorting_keeps_each_text_once_in_order() {
    assert_eq!(in_order(&texts(&["b", "a", "b", "ab", ""])), texts(&["", "a", "ab", "b"]));
}

#[test]
fn numbers_have_one_spelling() {
    assert_eq!(decimal_usize(0), "0");
    assert_eq!(decimal_usize(1090), "1090");
    assert_ne!(decimal_usize(10), decimal_usize(1));
}

#[test]
fn base64_is_the_url_alphabet_with_padding() {
    assert_eq!(base64_url(&vec![]), "");
    assert_eq!(base64_url(&vec![0xff]), "_w==");
    assert_eq!(base64_url(&vec![0xfb, 0xef]), "--8=");
    assert_eq!(base64_url(&vec![b'M', b'a', b'n']), "TWFu");
}

#[test]
fn escaped_texts_hold_nothing_that_ends_them() {
    assert_eq!(esc("say \"hi\""), "say #quot;hi#quot;");
    assert_eq!(script_esc("</script>&"), "\\u003c/script\\u003e\\u0026");
    let page = html_page(Some("<b>&"), &vec![("<h>".to_string(), "x".to_string())]);
    assert!(page.contains("<h1>&lt;b&gt;&amp;</h1>"), "{page}");
    assert!(page.contains("&lt;h&gt;"), "{page}");
}

#[test]
fn the_last_update_of_a_document_wins() {
    let doc = "# Doc\n";
    let one = update_text("d.md", doc, "ONE\n").unwrap();
    let two = update_text("d.md", &one, "TWO\n").unwrap();
    assert_eq!(two, update_text("d.md", doc, "TWO\n").unwrap());
    assert_eq!(update_text("d.md", &two, "TWO\n").unwrap(), two);
    let lone = update_text("d.md", "<!-- supervisor-mermaid:start -->\n", "X\n");
    assert!(lone.unwrap_err().starts_with("d.md: found one"));
    let swapped = "<!-- supervisor-mermaid:end --><!-- supervisor-mermaid:start -->";
    assert!(update_text("d.md", swapped, "X\n").is_err());
}

#[test]
fn a_signal_with_both_sides_is_never_reported() {
    let g = decls(PAIR, "t.rs");
    let all = dataflow_lints(&g, &vec![], &vec![], &LintCats::all(), &vec![]);
    assert_eq!(all.len(), 1, "{all:?}");
    assert!(all[0].contains("orphan read") && all[0].contains("y::S"), "{all:?}");
    let mut only = LintCats::default();
    only.parse("dead-writes").unwrap();
    assert!(dataflow_lints(&g, &vec![], &vec![], &only, &vec![]).is_empty());
    let before = (only.orphan_reads, only.public_gate);
    assert!(only.parse("nothing-known").is_err());
    assert_eq!((only.orphan_reads, only.public_gate), before);
    only.parse("orphan-reads").unwrap();
    assert!(only.dead_writes && only.orphan_reads && !only.public_gate);
    let allowed = dataflow_lints(&g, &vec![], &vec![], &LintCats::all(), &texts(&["y::S"]));
    assert!(allowed.is_empty(), "{allowed:?}");
}

#[test]
fn resolving_orders_by_file_and_line_and_keeps_what_nothing_takes_in() {
    let mut all = decls(
        "supervisor_fragment! { name: F; node X = Terminate, task: $crate::x; }\n\
         supervisor_fragment! { name: LONE; node Y = Terminate; }",
        "b.rs",
    );
    all.extend(decls("\n\nsupervisor_graph! { node Z = Terminate; }", "a.rs"));
    all.extend(decls(
        "compose_graph! { name: APP, fragments: [dep::F, MISSING] }",
        "c.rs",
    ));
    let (drawn, warnings) = resolve(&all);
    let sites: Vec<(&str, usize)> = drawn.iter().map(|d| (d.origin.as_str(), d.line)).collect();
    assert_eq!(sites, [("a.rs", 3), ("b.rs", 2), ("c.rs", 1)]);
    assert_eq!(warnings.len(), 1, "{warnings:?}");
    assert!(warnings[0].contains("fragment `MISSING` is not among the files given"), "{warnings:?}");
    assert_eq!(drawn[2].spec.items.len(), 1);

    let plain = decls("supervisor_graph! { node Z = Terminate; }", "a.rs");
    let (same, none) = resolve(&plain);
    assert_eq!((same.len(), none.len()), (1, 0));
}

#[test]
fn an_excluded_name_leaves_no_trace() {
    let mut d = decls(PAIR, "t.rs").remove(0);
    let missed = exclude(&mut d, &texts(&["B", "NOBODY"]));
    assert_eq!(missed, ["NOBODY"]);
    assert_eq!(d.spec.items.len(), 2);
    for item in &d.spec.items {
        match item {
            Item::Node(n) => assert!(n.ident != "B" && n.deps.iter().all(|x| x.ident != "B")),
            Item::Pool(p) => assert!(p.deps.is_empty()),
            Item::Executor(_) => {}
        }
    }
    let before = render(&d, &Options::default());
    assert_eq!(exclude(&mut d, &texts(&["B"])), ["B"]);
    assert_eq!(render(&d, &Options::default()), before);
}

#[test]
fn the_views_draw_the_deps_they_are_asked_for() {
    let d = decls(PAIR, "t.rs").remove(0);
    let bring_up = render(&d, &Options::default());
    for edge in ["n_A -- \"ready\" --> n_B", "n_GONE --> n_B", "n_B --> n_C"] {
        assert!(bring_up.contains(edge), "{bring_up}");
    }
    assert_eq!(bring_up.matches("n_GONE([").count(), 1, "{bring_up}");
    let running = render(&d, &Options { runtime: true, ..Default::default() });
    assert!(!running.contains("n_GONE"), "{running}");
    let context = render(
        &d,
        &Options { runtime: true, runtime_deps: true, ..Default::default() },
    );
    assert!(context.contains("n_GONE"), "{context}");
}

#[test]
fn a_flowchart_shows_everything_declared() {
    let source = r#"
        supervisor_graph! {
            node A = Terminate, task: m::a, writes: [s::ONE], provides: [BUS];
            node B = Pause, deps: [A ready, GONE], task: m::b, reads: [s::ONE, s::TWO],
                resources: [BUS: shared Bus];
            node C = Terminate, deps: [B], task: m::c, reads: [s::ONE], dataflow: [m::c];
        }
        mod m { #[dataflow] fn c(node: &TaskNode) { node.put(&crate::s::TWO, 1); } }
    "#;
    let d = decls(source, "src/main.rs").remove(0);
    let mut discovered = Vec::new();
    scan_source(source, "src/main.rs", &mut discovered);
    assert_eq!(discovered.len(), 1, "{discovered:?}");
    let all = Options { signals: true, discovered: discovered.dup(), ..Default::default() };
    let out = render(&d, &all);
    for shown in [
        "n_A[",
        "n_B[",
        "n_C[",
        "n_GONE([\"GONE\"])",
        "n_A -- \"ready\" --> n_B",
        "n_GONE --> n_B",
        "n_B --> n_C",
        "s_s__ONE[/\"ONE\"/]",
        "s_s__TWO[/\"TWO\"/]",
        "n_A -.-> s_s__ONE",
        "s_s__ONE -.-> n_B",
        "s_s__TWO -.-> n_B",
        "n_C -. \"discovered\" .-> s_s__TWO",
        "r_BUS@{ shape: notch-rect, label: \"BUS\" }",
        "r_BUS -- \"shared\" --> n_B",
        "n_A -- \"provides\" --> r_BUS",
    ] {
        assert!(out.contains(shown), "no {shown} in {out}");
    }
    let folded = render(&d, &Options { max_fanout: 1, ..all.dup() });
    assert!(folded.contains("fan_s_s__ONE[\"2 readers: B, C\"]"), "{folded}");
    assert!(!out.contains("fan_"), "{out}");
}

#[test]
fn names_that_collapse_to_one_identifier_stay_apart() {
    let d = decls(
        "supervisor_graph! { node A_B = Terminate, task: a, reads: [x::y, x__y]; }",
        "t.rs",
    )
    .remove(0);
    let out = render(&d, &Options { signals: true, ..Default::default() });
    let ids: Vec<&str> =
        out.lines().filter(|l| l.contains("[/")).map(|l| l.split('[').next().unwrap()).collect();
    assert_eq!(ids.len(), 2, "{out}");
    assert_ne!(ids[0], ids[1], "{out}");
}

#[test]
fn one_lifecycle_has_one_composite() {
    let d = decls(
        "supervisor_graph! { node A = Terminate, task: a; node B = Pause, task: b;
             node C = Terminate, task: c; }",
        "t.rs",
    )
    .remove(0);
    let out = render(&d, &Options { states: true, ..Default::default() });
    assert_eq!(out.matches(" as g").count() - out.matches(" as g0_").count() - out.matches(" as g1_").count(), 2, "{out}");
    assert!(out.contains("Pause — B\" as g0 {"), "{out}");
    assert!(out.contains("Terminate — A, C\" as g1 {"), "{out}");
    let each = render(&d, &Options { states: true, signals: true, ..Default::default() });
    assert!(each.contains("\" as g2 {"), "{each}");
}

#[test]
fn a_file_is_kept_under_the_path_that_named_it_first() {
    let given: Vec<(String, String)> = [("a.rs", "/x/a.rs"), ("b.rs", "/x/b.rs"), ("./a.rs", "/x/a.rs")]
        .iter()
        .map(|(p, c)| (p.to_string(), c.to_string()))
        .collect();
    assert_eq!(dedup(&given), ["a.rs", "b.rs"]);
}

#[test]
fn a_module_walk_goes_deep_first_and_finds_no_file_twice() {
    let mut walk = ModuleWalk::default();
    walk.add_root("src/main.rs");
    walk.enter(&vec![texts(&["src/a.rs", "src/a/mod.rs"]), texts(&["src/b.rs"])]);
    let a = walk.step().unwrap();
    assert_eq!(walk.settle(&a, &vec![false, true]).as_deref(), Some("src/a/mod.rs"));
    walk.enter(&vec![texts(&["src/a/c.rs"])]);
    let c = walk.step().unwrap();
    assert_eq!(c, ["src/a/c.rs"]);
    assert_eq!(walk.settle(&c, &vec![true]).as_deref(), Some("src/a/c.rs"));
    assert_eq!(walk.settle(&c, &vec![true]), None);
    let b = walk.step().unwrap();
    assert_eq!(walk.settle(&b, &vec![false]), None);
    assert_eq!(walk.step(), None);
    assert_eq!(walk.found, ["src/main.rs", "src/a/mod.rs", "src/a/c.rs"]);
}

#[test]
fn a_module_walk_finds_a_file_once_however_its_path_is_written() {
    let mut walk = ModuleWalk::default();
    walk.add_root("src/main.rs");
    walk.enter(&vec![texts(&["src/a.rs"]), texts(&["src/./a.rs"]), texts(&["src//b.rs"])]);
    let a = walk.step().unwrap();
    assert_eq!(walk.settle(&a, &vec![true]).as_deref(), Some("src/a.rs"));
    let again = walk.step().unwrap();
    assert_eq!(walk.settle(&again, &vec![true]), None);
    let b = walk.step().unwrap();
    assert_eq!(walk.settle(&b, &vec![true]).as_deref(), Some("src//b.rs"));
    assert_eq!(walk.found, ["src/main.rs", "src/a.rs", "src//b.rs"]);
}

#[test]
fn something_is_always_left_to_render() {
    let two = decls(
        "supervisor_graph! { name: ONE; node A = Terminate; }\n\
         supervisor_graph! { name: TWO; node B = Terminate; }",
        "t.rs",
    );
    match narrow(&drawing(&[]), two.dup()).unwrap() {
        Narrowed::Ask(v) => assert_eq!(v.len(), 2),
        other => panic!("{other:?}"),
    }
    match narrow(&drawing(&["--select", "TWO"]), two.dup()).unwrap() {
        Narrowed::Chosen(v) => assert_eq!(v[0].name().as_deref(), Some("TWO")),
        other => panic!("{other:?}"),
    }
    match narrow(&drawing(&["--list"]), two.dup()).unwrap() {
        Narrowed::Listing(s) => assert!(s.starts_with("[1] supervisor_graph! ONE  (t.rs:1, 1 items)\n[2] "), "{s}"),
        other => panic!("{other:?}"),
    }
    let image = deliver(
        &drawing(&["--render", "x.svg"]),
        &vec![("h".to_string(), "one".to_string()), ("h".to_string(), "two".to_string())],
    );
    assert!(image.actions.is_empty());
    assert_eq!(
        image.error.as_deref(),
        Some("`--render` writes one image and there are 2 diagrams; --select one")
    );
}

#[test]
fn a_run_goes_from_scan_to_delivery() {
    let mut scan = Scan::default();
    let none = begin(&drawing(&[]), &scan);
    assert_eq!(none.unwrap_err(), "no graph declaration found in the given files");
    scan.add_file("t.rs", PAIR, true).unwrap();
    let args = drawing(&["--check"]);
    let opening = begin(&args, &scan).unwrap();
    assert!(opening.warnings.is_empty());
    let Ok(Narrowed::Chosen(chosen)) = opening.next else {
        panic!("one declaration");
    };
    let closing = conclude(&args, &chosen, &scan, &opening.warnings);
    assert!(closing.warnings.is_empty() && closing.plan.error.is_none());
    match &closing.plan.actions[..] {
        [Action::Say(s)] => {
            assert_eq!(s, "--check: OK — 1 declaration, graphs and `#[dataflow]` fns agree")
        }
        other => panic!("{other:?}"),
    }
    let warned = conclude(&args, &chosen, &scan, &texts(&["careful"]));
    assert_eq!(
        warned.plan.error.as_deref(),
        Some("--check: 1 warning — the graphs and the `#[dataflow]` fns disagree; see above")
    );
    let drawn = conclude(&drawing(&[]), &chosen, &scan, &vec![]);
    match &drawn.plan.actions[..] {
        [Action::Write(s)] => assert_eq!(*s, render(&chosen[0], &Options::default())),
        other => panic!("{other:?}"),
    }
    let json = conclude(&drawing(&["--json"]), &chosen, &scan, &texts(&["careful"]));
    match &json.plan.actions[..] {
        [Action::Write(s)] => {
            let v: serde_json::Value = serde_json::from_str(s).unwrap();
            assert_eq!(v["warnings"][0], "careful");
            assert_eq!(v["graphs"][0]["name"], "PAIR");
        }
        other => panic!("{other:?}"),
    }
}

#[test]
fn the_linting_tool_narrows_what_it_looks_for() {
    let all = parse_lint_args(&texts(&["--deps", "src"])).unwrap().unwrap();
    assert!(all.deps && all.only.public_gate && all.files == ["src"]);
    assert!(parse_lint_args(&texts(&["--help"])).unwrap().is_none());
    assert!(parse_lint_args(&texts(&["--runtime"])).is_err());
}

#[test]
fn the_json_says_what_the_model_says() {
    let d = decls(PAIR, "t.rs");
    let one = model_json(&d, &vec![]).pretty();
    assert_eq!(one, model_json(&decls(PAIR, "t.rs"), &vec![]).pretty());
    let v: serde_json::Value = serde_json::from_str(&one).unwrap();
    assert_eq!(v["graphs"].as_array().unwrap().len(), 1);
}

#[test]
fn what_a_file_holds_is_found_in_it() {
    let src = r#"
        use crate::sig as s;
        #[dataflow]
        async fn run(node: &'static TaskNode) { node.put(&s::OUT, 1); }
        #[dataflow_bundle(ALL)]
        pub mod inner {
            #[dataflow]
            pub fn f(node: &TaskNode) { node.get(&crate::sig::IN); }
        }
    "#;
    let mut found = Vec::new();
    scan_source(src, "src/app.rs", &mut found);
    let mut fns = Vec::new();
    scan_fns(src, "src/app.rs", &mut fns);
    let mut bundles = Vec::new();
    scan_bundles(src, "src/app.rs", &mut bundles);
    assert_eq!(found[0].access.path, "crate::sig::OUT");
    assert!(found[0].access.write && found[0].module == "app");
    assert!(fns.contains(&("app".to_string(), "run".to_string())));
    assert_eq!(bundles[0].name, "ALL");
}

#[test]
fn a_refused_call_ends_the_walk() {
    let body = tokens("{ node.put(&A, 1); node.get(&B); node.get(pick()); }");
    let replies = vec![Reply::Keep, Reply::Refuse("no B here".to_string())];
    let m = rewrite_verb_calls(&body, "node", &VerbTable::builtin(), &replies).err().unwrap();
    assert_eq!(m, "no B here");
    let later = vec![Reply::Keep, Reply::Keep, Reply::Refuse("too late".to_string())];
    let m = rewrite_verb_calls(&body, "node", &VerbTable::builtin(), &later).err().unwrap();
    assert!(m.contains("name the signal directly"), "{m}");
}

#[test]
fn two_signals_never_share_a_label() {
    let d = decls(
        "supervisor_graph! { node N = Terminate, task: n,
             reads: [S, a::S, b::a::S, ::a::S, a::S2[0], a::S2[1]]; }",
        "t.rs",
    )
    .remove(0);
    for full in [false, true] {
        let labels: Vec<String> =
            signal_labels(&d.spec.items, full).iter().map(|l| l.1.clone()).collect();
        assert_eq!(labels.len(), 6, "{labels:?}");
        for (i, a) in labels.iter().enumerate() {
            assert!(!labels[..i].contains(a), "{a} twice in {labels:?}");
        }
    }
}

#[test]
fn resolving_draws_each_declaration_once() {
    let mut all = decls("compose_graph! { name: ONE, fragments: [F], graph: { node C = Terminate; } }", "a.rs");
    all.extend(decls("compose_graph! { name: TWO, fragments: [F] }", "b.rs"));
    all.extend(decls("supervisor_fragment! { name: F; node A = Terminate; }", "c.rs"));
    all.extend(decls("supervisor_graph! { name: G; } supervisor_graph! { name: G; }", "d.rs"));
    all.extend(decls("supervisor_fragment! { name: LEFT; node B = Terminate; }", "e.rs"));
    let (out, warnings) = resolve(&all);
    let names: Vec<String> = out.iter().map(|d| d.spec.name.clone().unwrap()).collect();
    assert_eq!(names, ["ONE", "TWO", "G", "G", "LEFT"]);
    let sizes: Vec<usize> = out.iter().map(|d| d.spec.items.len()).collect();
    assert_eq!(sizes, [2, 1, 0, 0, 1]);
    assert!(warnings.is_empty(), "{warnings:?}");
}

#[test]
fn a_function_has_one_access_for_each_signal_and_direction() {
    let mut found = Vec::new();
    scan_source(
        "#[dataflow] fn f(node: &TaskNode) {
             node.get(&S); node.put(&S, 1); node.reader(&S); node.writer(&S); node.get(&T);
         }",
        "m.rs",
        &mut found,
    );
    let accesses: Vec<(bool, &str)> =
        found.iter().map(|d| (d.access.write, d.access.path.as_str())).collect();
    assert_eq!(accesses, [(false, "S"), (true, "S"), (false, "T")]);
}

#[test]
fn the_json_holds_every_clause_of_an_executor() {
    let all = decls(
        "supervisor_graph! {
             #[cfg(feature = \"x\")] executor HIGH;
             default executor LOW;
             node A = Terminate, task: a;
             node B = Terminate, task: b, executor: HIGH;
             pool P = [Terminate], task: p, policy: Q, min: 1, max: 1;
         }",
        "t.rs",
    );
    let model = model_json(&all, &vec![]);
    let v: serde_json::Value = serde_json::from_str(&model.pretty()).unwrap();
    let items = &v["graphs"][0]["items"];
    assert_eq!(items[0]["default"], false);
    assert_eq!(items[0]["cfg"][0], "feature=\"x\"");
    assert_eq!(items[1]["default"], true);
    assert_eq!(items[1]["cfg"].as_array().unwrap().len(), 0);
    assert_eq!(items[2]["executor"], "LOW");
    assert_eq!(items[2]["executor_defaulted"], true);
    assert_eq!(items[3]["executor_defaulted"], false);
    assert_eq!(items[4]["executor_defaulted"], true);
}

#[test]
fn a_local_slot_keeps_to_one_executor() {
    let graph = |provider: &str, taker: &str| {
        GraphSpec::parse_str(&format!(
            "executor HIGH; executor LOW;
             node P = Terminate, task: p{provider}, provides: [BLOB];
             node N = Terminate, task: n{taker}, resources: [BLOB: local consume Blob];"
        ))
    };
    assert!(graph("", "").is_ok());
    assert!(graph(", executor: HIGH", ", executor: HIGH").is_ok());
    for (provider, taker) in [("", ", executor: HIGH"), (", executor: LOW", ", executor: HIGH")] {
        let m = graph(provider, taker).err().unwrap();
        assert!(m.starts_with("`local` resource `BLOB` is declared on more than one executor"), "{m}");
    }
    let inherited = "default executor LOW;
        node P = Terminate, task: p, provides: [BLOB];
        node N = Terminate, task: n, resources: [BLOB: local Blob];";
    assert!(GraphSpec::parse_str(inherited).is_ok());
    let split = "default executor LOW; executor HIGH;
        node P = Terminate, task: p, executor: HIGH, resources: [S: shared local T];
        pool N = [Terminate], task: n, policy: Q, min: 1, max: 1, resources: [S: shared local T];";
    assert!(GraphSpec::parse_str(split).is_err());
}
