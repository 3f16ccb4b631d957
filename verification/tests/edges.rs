//! Inputs at the edge: what is refused, with which words, and what is just accepted.

use supervisor_tools::args::{check_direction, parse_mermaid_args, spacing};
use supervisor_tools::ast::{
    hyphenate, item_ident_cfg, item_resources, item_signal_entries, name_string, GraphSpec, Item,
};
use supervisor_tools::find::{parse_source, split_compose, DeclKind};
use supervisor_tools::inputs::{
    default_roots, local_manifests, module_files, other_manifests, packages_in, pick_file,
    scanning_note, workspace_manifests, Bin, Package, Scan, Sources,
};
use supervisor_tools::json::Json;
use supervisor_tools::lint::LintCats;
use supervisor_tools::list::Dup;
use supervisor_tools::options::Options;
use supervisor_tools::out::live_url;
use supervisor_tools::render;
use supervisor_tools::rust::{parse_signal_argument, signal_in, Argument, Referent};
use supervisor_tools::text::{look_up, parse_number, trim, trim_end};
use supervisor_tools::token::tokens_of;
use supervisor_tools::tool::{may_ask, pick, question, select, watchable};
use supervisor_tools::verbs::{rewrite_verb_calls, VerbTable};

fn texts(list: &[&str]) -> Vec<String> {
    list.iter().map(|s| s.to_string()).collect()
}

fn refused(body: &str) -> String {
    match GraphSpec::parse_str(body) {
        Ok(_) => panic!("accepted: {body}"),
        Err(m) => m,
    }
}

#[test]
fn every_refused_graph_says_why() {
    for (body, says) in [
        ("node A = Terminate, deps: [B soon];", "expected `,`, `]`, or a dep marker (`ready`, `bound`), found `soon`"),
        ("node A = Terminate, deps: [B ready ready];", "duplicate `ready` marker on this dep"),
        ("node A = Terminate, deps: [B ready bound bound];", "duplicate `bound` marker on this dep"),
        ("node A = Terminate, deps: [B bound];", "`bound` implies `ready`"),
        ("node A = Terminate, deps: [], deps: [];", "duplicate `deps:` clause"),
        ("node A = Terminate, reads: [S via x];", "`via` supplies the accessor for an `observed` entry"),
        ("node A = Terminate, writes: [S beat via x];", "`via` supplies the polling accessor"),
        ("node A = Terminate, writes: [S beat];", "a bare `beat` entry is not a declaration"),
        ("node A = Terminate, writes: [S observed often];", "expected `beat`, `via <accessor>`, `,` or `]`, found `often`"),
        ("node A = Terminate, writes: [S often];", "expected `,`, `]`, or the `observed`/`beat` markers, found `often`"),
        ("node A = Terminate, reads: [S[0 1]];", "unexpected token, expected `]`"),
        ("node A = Terminate, reads: [S[0 1]]; node B = Terminate, deps: [C soon];", "found `soon`"),
        ("node A = Terminate, task: a, discover, writes: [S veto];", "beside `discover`"),
        ("node A = Terminate, reads: [S[0], S];", "`S` is declared both as a whole array and by element"),
        ("node A = Terminate, reads: [S, T, S];", "duplicate `reads:` entry `S`"),
        ("node A = Terminate, writes: [];", "`writes:` must declare at least one signal path"),
        ("node A = Terminate, task: a, resources: [R: consume shared T];", "`consume` and `shared` are mutually exclusive"),
        ("node A = Terminate, task: a, dataflow: [f, f];", "duplicate `dataflow:` fn"),
        ("node A = Terminate, task: a, dataflow: [];", "`dataflow:` must name at least one"),
        ("node A = Terminate, task: a, provides: [R, R];", "duplicate `provides:` slot"),
        ("node A = Terminate, task: a, provides: [];", "`provides:` must name at least one resource slot"),
        ("node A = Terminate, task: a, task: b;", "duplicate `task:` clause"),
        ("node A = Terminate, executor: X, executor: Y;", "duplicate `executor:` clause"),
        ("node A = Terminate, task: a, state: u8 = 0, state: u8 = 1;", "duplicate `state:` clause"),
        ("node A = Terminate, #[cfg(x)] deps: [];", "`#[cfg(...)]` may only gate"),
        ("node A = Terminate, #[allow(x)] disabled;", "only `#[cfg(...)]` attributes may gate a clause"),
        ("node A = Terminate, task: a, discover: x;", "`discover` takes no argument"),
        ("node A = Terminate, task: a, discover, discover;", "duplicate `discover` marker"),
        ("node A = Terminate, task: a, cancel, cancel;", "duplicate `cancel` marker"),
        ("node A = Terminate, disabled, disabled;", "duplicate `disabled` marker"),
        ("node A = Terminate, task: a, spawn: b;", "`task:` and `spawn:` are mutually exclusive"),
        ("node A = Terminate, colour: red;", "expected `task:`, `spawn:`, `executor:`"),
        ("node A = Terminate, slot_timeout: 0;", "`slot_timeout:` must be at least 1 (milliseconds)"),
        ("node A = Terminate, ack_timeout: 0;", "`ack_timeout:` must be at least 1 (milliseconds)"),
        ("node A = Terminate, task: a, beat_timeout: 0;", "`beat_timeout:` must be at least 1 (milliseconds)"),
        ("node A = Terminate, task: a, beat_window: 2;", "`beat_window:` requires `beat_timeout:`"),
        ("node A = Terminate, task: a, beat_timeout: 1, beat_window: 256;", "`beat_window:` must be in 1..=255"),
        (
            "node A = Terminate, task: a, #[cfg(x)] beat_timeout: 1, #[cfg(y)] beat_window: 2;",
            "`beat_window:` must carry the same `#[cfg]` predicate",
        ),
        (
            "node A = Terminate, task: a, #[cfg(x)] beat_timeout: 1, ready_on_write, writes: [S observed beat];",
            "`ready_on_write` must carry the same `#[cfg]` predicate",
        ),
        ("node A = Terminate, task: a, reads: [S observed beat];", "`beat` belongs on a `writes:` entry"),
        ("node A = Terminate, task: a, discover, reads: [S];", "beside `discover`, a `reads:`/`writes:` entry may only add markers"),
        ("node A = Terminate, discover;", "`discover` needs a `task:`/`spawn:` fn"),
        ("node A = Terminate, task: a, beat_timeout: 1, ready_on_write;", "`ready_on_write` requires an `observed beat` entry"),
        ("node A = Terminate, task: a, ready_on_write, writes: [S observed beat];", "`ready_on_write` requires `beat_timeout:`"),
        ("node A = Terminate, spawn: a, pool_size: 2;", "`pool_size:` requires `task:`"),
        ("node A = Terminate, task: a, pool_size: 0;", "`pool_size:` must be at least 1"),
        ("node A = Terminate, spawn: a, resources: [R: T];", "`resources:` requires `task:`"),
        ("node A = Terminate, task: a, resources: [];", "`resources:` must declare at least one `NAME: Type` entry"),
        ("node A = Terminate, task: a, resources: [R: T, R: U];", "duplicate resource name `R`"),
        ("node A = Terminate, spawn: a, state: u8 = 0;", "`state:` requires `task:`"),
        ("node A = Terminate, spawn: a, exit: u8;", "`exit:` requires `task:`"),
        ("node A = Terminate, spawn: a, cancel;", "`cancel` requires `task:`"),
        ("node A = Pause, task: a, cancel;", "`cancel` cannot be combined with `Mode::Pause`"),
        ("pool P = [Terminate], task: a, policy: Q, min: 1, max: 2, exit: u8;", "`exit:` is not supported on `pool`"),
        ("pool P = [Terminate], task: a, policy: Q, min: 1, max: 2, size: 3;", "expected `task:`, `spawn:`, `executor:`"),
        ("pool P = [Terminate], task: a, policy: Q, policy: Q;", "duplicate `policy:` clause"),
        ("pool P = [Terminate], #[cfg(x)] min: 1;", "may only gate `slot_timeout:`, `ack_timeout:`, or `discover`"),
        (
            "pool P = [Terminate], task: a, policy: Q, min: 1, max: 2, resources: [R: local T];",
            "`local` is not supported on take-kind `pool` resources",
        ),
        ("pool P = [Terminate], policy: Q, max: 2;", "`pool P` is missing `task:` or `spawn:`, `min:`"),
        ("pool P = [Terminate], spawn: a, policy: Q, min: 1, max: 2, cancel;", "`cancel` requires `task:`"),
        (
            "pool P = [Terminate, Pause], task: a, policy: Q, min: 1, max: 2, cancel;",
            "`cancel` cannot be combined with a `Pause` member",
        ),
        ("@section X;", "expected `@fragment NAME;` or `@endfragment;`"),
        ("observe both: x;", "expected `observe writes:` or `observe reads:`"),
        ("observe reads: x; observe reads: y;", "duplicate `observe reads:` default"),
        ("edge A -> B;", "expected `node`, `pool`, `executor`, or `observe`"),
        ("node match = Terminate;", "expected identifier, found keyword `match`"),
        ("node A = Terminate", "expected `;`"),
    ] {
        let m = refused(body);
        assert!(m.contains(says), "{body}\n  {m}");
    }
}

#[test]
fn the_bounds_of_a_number_are_accepted() {
    let g = GraphSpec::parse_str(
        "node A = Terminate, task: a, pool_size: 1, beat_timeout: 1, beat_window: 1, slot_timeout: 1;",
    )
    .unwrap();
    let Item::Node(n) = &g.items[0] else {
        panic!("a node");
    };
    assert_eq!(n.pool_size.as_ref().unwrap().value, Some(1));
    assert_eq!(n.slot_timeout.as_ref().unwrap().value.value, Some(1));
    assert!(n.source.is_some() && n.fragment.is_none());
}

#[test]
fn every_refused_registration_says_why() {
    for (args, says) in [
        ("read(get)", "`get` is a built-in verb"),
        ("read(a), write(a)", "`a` is registered twice; a verb points one way"),
        ("\"text\"", "`#[dataflow]` takes verb registrations"),
        ("both(a)", "expected `read(..)` or `write(..)`, found `both`"),
        ("read()", "`read(..)` names no verb"),
    ] {
        let m = VerbTable::parse(&tokens_of(args).unwrap()).err().unwrap();
        assert!(m.contains(says), "{args}: {m}");
    }
    let computed = tokens_of("{ node.get(pick()); }").unwrap();
    let m = rewrite_verb_calls(&computed, "node", &VerbTable::builtin(), &vec![]).err().unwrap();
    assert!(m.contains("name the signal directly"), "{m}");
}

#[test]
fn every_refused_composition_says_why() {
    for (body, says) in [
        ("name", "`compose_graph!` clause `name` is missing its `:` and value"),
        ("fragments: X", "expected a list after `fragments:`"),
        ("graph: X", "expected a block after `graph:`"),
        ("title: X", "unknown `compose_graph!` clause `title:`; it takes `name:`, `fragments:` and `graph:`"),
    ] {
        let m = split_compose(&tokens_of(body).unwrap()).err().unwrap();
        assert_eq!(m, says, "{body}");
    }
    let (_, fragments) =
        split_compose(&tokens_of("name: N, fragments: [a::F, G], graph: { node A = Terminate; }").unwrap())
            .unwrap();
    assert_eq!(fragments, ["a::F", "G"]);
    let grouped = tokens_of("fragments: [a::F(b c, d::e), {x y}, G[{}], (p, {q})]").unwrap();
    assert_eq!(
        split_compose(&grouped).unwrap().1,
        ["a::F(b c , d :: e)", "{ x y }", "G[{ }]", "(p , { q })"]
    );
}

#[test]
fn an_error_names_its_file_and_line() {
    let e = parse_source("\n\nsupervisor_graph! { nonsense }", "f.rs").err().unwrap();
    assert_eq!((e.file.as_str(), e.line), ("f.rs", 3));
    assert!(e.to_text().starts_with("f.rs:3: "), "{}", e.to_text());
    let e = parse_source("fn f( {", "f.rs").err().unwrap();
    assert_eq!(e.file, "f.rs");
    assert!(tokens_of("\"open").is_err());
}

#[test]
fn a_source_without_declarations_has_none() {
    assert!(parse_source("fn main() {}", "f.rs").unwrap().is_empty());
    let kinds: Vec<DeclKind> = parse_source(
        "supervisor_graph! {} mod m { supervisor_fragment! { name: F; } }",
        "f.rs",
    )
    .unwrap()
    .iter()
    .map(|d| d.kind)
    .collect();
    assert_eq!(kinds, [DeclKind::Graph, DeclKind::Fragment]);
}

#[test]
fn every_refused_command_line_says_why() {
    for (args, says) in [
        (&["--states", "--runtime"][..], "`--states` and `--runtime` are different diagrams; pick one"),
        (&["--anchor-uncoupled"], "`--anchor-uncoupled` is a runtime-view option; the bring-up chart draws every dep edge already"),
        (&["--runtime-deps"], "`--runtime-deps` is a runtime-view option; the bring-up chart draws every dep edge already"),
        (&["--fragments", "--executors"], "`--fragments` and `--executors` are two groupings of the same boxes; pick one"),
        (&["--watch"], "`--watch` re-runs into a destination; give it -o, --html, --render or --update"),
        (&["--max-fanout", "few"], "`--max-fanout` needs a number of readers"),
        (&["--h-spacing", "0"], "`0` is not a spacing; give a whole number of pixels"),
        (&["--select"], "`--select` needs a value; see --help"),
        (&["--direction", "up"], "unknown direction `UP`; use TD, TB, LR, RL or BT"),
        (&["--sideways"], "unknown option `--sideways`; see --help"),
    ] {
        let got = parse_mermaid_args(&texts(args));
        assert_eq!(got.err().as_deref(), Some(says), "{args:?}");
    }
    assert!(parse_mermaid_args(&texts(&["-h"])).unwrap().is_none());
    let taken = parse_mermaid_args(&texts(&["-d", "lr", "-x", "A, B", "-x", "C", "-", "src"])).unwrap().unwrap();
    assert_eq!(taken.opts.direction, "LR");
    assert_eq!(taken.exclude, ["A", "B", "C"]);
    assert_eq!(taken.files, ["-", "src"]);
}

#[test]
fn single_values_are_checked() {
    assert_eq!(check_direction("BT".to_string()).as_deref(), Ok("BT"));
    assert!(check_direction("bt".to_string()).is_err());
    assert_eq!(spacing("4294967295"), Ok(u32::MAX));
    assert!(spacing("4294967296").is_err() && spacing("-1").is_err() && spacing("").is_err());
    assert_eq!(parse_number("+7", 10), Some(7));
    assert_eq!(parse_number("11", 10), None);
    assert_eq!(parse_number("1_0", 100), None);
    assert_eq!(parse_number("", 100), None);
    let mut cats = LintCats::default();
    assert!(!cats.any());
    let e = cats.parse("orphan-reads,bogus").unwrap_err();
    assert!(e.contains("`bogus`; the categories are orphan-reads, dead-writes, public-gate, all"), "{e}");
    cats.parse("all").unwrap();
    assert!(cats.orphan_reads && cats.dead_writes && cats.public_gate);
}

#[test]
fn texts_lose_their_white_space_at_the_ends() {
    assert_eq!(trim("\t a b \u{2003}\n"), "a b");
    assert_eq!(trim_end(" a \n"), " a");
    assert_eq!(trim(" \n"), "");
}

#[test]
fn names_become_lower_case_with_hyphens() {
    assert_eq!(name_string("MOTOR_LEFT"), "motor-left");
    assert_eq!(name_string("Ä_B"), "ä-b");
    assert_eq!(hyphenate("a_b_"), "a-b-");
}

#[test]
fn the_last_pair_of_a_name_counts() {
    let pairs = vec![
        ("a".to_string(), "1".to_string()),
        ("b".to_string(), "2".to_string()),
        ("a".to_string(), "3".to_string()),
    ];
    assert_eq!(look_up(&pairs, "a").as_deref(), Some("3"));
    assert_eq!(look_up(&pairs, "c"), None);
}

#[test]
fn a_declaration_is_chosen_by_number_or_name() {
    let two = parse_source(
        "supervisor_graph! { name: ONE; }\nsupervisor_graph! { name: TWO; }",
        "t.rs",
    )
    .unwrap();
    let name = |r: Result<Vec<supervisor_tools::Decl>, String>| r.map(|v| v[0].name());
    assert_eq!(name(select(&two, "2")), Ok(Some("TWO".to_string())));
    assert_eq!(name(select(&two, "ONE")), Ok(Some("ONE".to_string())));
    assert_eq!(
        name(select(&two, "3")),
        Err("`--select 3` is out of range; --list shows 1..2".to_string())
    );
    assert_eq!(name(select(&two, "SIX")), Err("no declaration named `SIX`".to_string()));
    assert_eq!(pick(two.dup(), " A\n").unwrap().len(), 2);
    assert_eq!(pick(two.dup(), "\n").unwrap().len(), 2);
    assert_eq!(name(pick(two.dup(), "1\n")), Ok(Some("ONE".to_string())));
    assert_eq!(
        name(pick(two.dup(), "0\n")),
        Err("`0` is not one of the listed numbers".to_string())
    );
    let asked = question(&two);
    assert!(asked.starts_with("2 declarations found:\n  [1] supervisor_graph! ONE"), "{asked}");
    assert!(asked.ends_with("render which? [1-2, or `a` for all] "), "{asked}");
}

#[test]
fn nobody_is_asked_where_input_is_piped() {
    let files = texts(&["a.rs"]);
    assert!(may_ask(&files, true, true));
    assert!(!may_ask(&files, true, false) && !may_ask(&files, false, true));
    assert!(!may_ask(&texts(&["-"]), true, true));
    let piped = Sources { graph: texts(&["-"]), scan_only: vec![] };
    assert_eq!(watchable(&piped).unwrap_err(), "`--watch` cannot watch stdin");
    assert!(watchable(&Sources { graph: files, scan_only: vec![] }).is_ok());
}

#[test]
fn the_roots_of_a_crate_are_found_in_order() {
    let bin = |path: &str, name: &str, main: Option<&str>| Bin {
        path: path.to_string(),
        name: name.to_string(),
        main: main.map(str::to_string),
    };
    let bins = vec![
        bin("src/bin/one.rs", "one.rs", None),
        bin("src/bin/two", "two", Some("src/bin/two/main.rs")),
        bin("src/bin/notes", "notes", None),
        bin("src/bin/.rs", ".rs", None),
    ];
    let lib = Some("src/lib.rs".to_string());
    assert_eq!(
        default_roots(".", None, lib, &bins).unwrap(),
        ["src/lib.rs", "src/bin/one.rs", "src/bin/two/main.rs"]
    );
    let none = default_roots("/x", None, None, &vec![]).unwrap_err();
    assert!(none.starts_with("no input files, and /x has no src/main.rs or src/lib.rs"), "{none}");
    assert_eq!(
        scanning_note("tool", 3),
        "tool: no inputs given; scanning this crate (3 files)"
    );
}

#[test]
fn a_module_may_name_its_file() {
    let places = module_files("#[path = \"x/y.rs\"] mod a; mod b { mod c; } mod d;", "src/e.rs");
    assert_eq!(places.len(), 2);
    assert_eq!(places[0], vec![texts(&["x/y.rs"])]);
    assert_eq!(places[1], vec![texts(&["e", "d.rs"]), texts(&["e", "d", "mod.rs"])]);
    assert_eq!(module_files("mod a;", "src/lib.rs")[0][0], texts(&["a.rs"]));
    assert!(module_files("not rust", "src/lib.rs").is_empty());
    assert_eq!(
        pick_file(&texts(&["a", "b"]), &vec![true, true], &texts(&["a"])),
        Some(1)
    );
    assert_eq!(pick_file(&texts(&["a"]), &vec![false], &vec![]), None);
}

#[test]
fn places_are_compared_as_paths() {
    let fresh = |place: &str, known: &str| {
        let as_path = std::path::Path::new(place) != std::path::Path::new(known);
        let picked = pick_file(&texts(&[place]), &vec![true], &texts(&[known]));
        assert_eq!(picked.is_some(), as_path, "{place} beside {known}");
        as_path
    };
    assert!(!fresh("src/./a.rs", "src/a.rs"));
    assert!(!fresh("src//a.rs", "src/a.rs"));
    assert!(!fresh("src/a.rs/", "src/a.rs"));
    assert!(!fresh("/./a.rs", "/a.rs"));
    assert!(!fresh("././a.rs", "./a.rs"));
    assert!(!fresh("./", "."));
    assert!(fresh("./a.rs", "a.rs"));
    assert!(fresh("/a.rs", "a.rs"));
    assert!(fresh("src/x/../a.rs", "src/a.rs"));
    assert!(fresh(".a/b.rs", "./a/b.rs"));
    assert!(fresh("src/b.rs", "src/a.rs"));
    assert!(fresh("", "."));
    assert!(fresh("", "/"));
}

#[test]
fn only_local_packages_are_scanned() {
    let json = br#"{"packages": [
        {"source": null, "manifest_path": "/w/a/Cargo.toml"},
        {"source": "registry+x", "manifest_path": "/r/b/Cargo.toml"},
        {"source": null}
    ]}"#;
    assert_eq!(workspace_manifests(json).unwrap(), ["/w/a/Cargo.toml"]);
    assert!(workspace_manifests(b"{").unwrap_err().starts_with("cargo metadata json: "));
    assert!(workspace_manifests(b"{}").unwrap().is_empty());
    let numbered = br#"{"version": 1, "low": -3, "part": 0.5, "packages": [
        {"manifest_path": "/w/c/Cargo.toml"}, {"source": {}, "manifest_path": "x"}, 7
    ]}"#;
    assert_eq!(workspace_manifests(numbered).unwrap(), ["/w/c/Cargo.toml"]);
    let meta = Json::Obj(vec![(
        "packages".to_string(),
        Json::Arr(vec![
            Json::Obj(vec![
                ("source".to_string(), Json::Null),
                ("manifest_path".to_string(), Json::Str("m".to_string())),
            ]),
            Json::Wide("-1".to_string()),
        ]),
    )]);
    let listed = packages_in(&meta);
    assert_eq!(listed.len(), 2);
    assert!(listed[0].local && listed[0].manifest.as_deref() == Some("m"));
    assert!(listed[1].local && listed[1].manifest.is_none());
    assert_eq!(meta.pretty().matches("-1").count(), 1);
    let packages = vec![
        Package { local: true, manifest: Some("m".to_string()) },
        Package { local: false, manifest: Some("n".to_string()) },
    ];
    assert_eq!(local_manifests(&packages), ["m"]);
    let own = Some("/w/a".to_string());
    let all = vec![("a".to_string(), own.clone()), ("b".to_string(), None)];
    assert_eq!(other_manifests(&all, &own), ["b"]);
}

#[test]
fn a_file_that_does_not_parse_leaves_the_scan_as_it_was() {
    let mut scan = Scan::default();
    assert!(scan.add_file("bad.rs", "supervisor_graph! { nonsense }", true).is_err());
    assert!(scan.decls.is_empty() && scan.fns.is_empty());
    scan.add_file("dep.rs", "#[dataflow] fn f(node: &TaskNode) { node.get(&X); }", false).unwrap();
    assert_eq!(scan.dep_fns, [("dep".to_string(), "f".to_string())]);
    assert!(scan.fns.is_empty() && scan.scanned_accesses.len() == 1);
}

#[test]
fn an_empty_graph_is_still_a_diagram() {
    let d = parse_source("supervisor_graph! {}", "t.rs").unwrap().remove(0);
    let flow = render(&d, &Options::default());
    assert!(flow.contains("flowchart TD"), "{flow}");
    let states = render(&d, &Options { states: true, ..Default::default() });
    assert!(states.contains("state \"no nodes declared\" as empty"), "{states}");
}

#[test]
fn different_diagrams_have_different_links() {
    assert_ne!(live_url("a"), live_url("b"));
    assert_eq!(live_url("a"), live_url("a"));
}

#[test]
fn the_parts_of_an_item_are_read_off() {
    let spec = GraphSpec::parse_str(
        "executor CORE;
         #[cfg(feature = \"net\")]
         node A = Terminate, task: a, reads: [m::IN], writes: [m::OUT, m::LOG],
             resources: [BUS: shared Bus<'static>, CELL: local shared Cell];
         pool P = [Terminate, Terminate], task: p, policy: Q, min: 1, max: 2, writes: [m::BEAT];",
    )
    .unwrap();
    let entries = |i: usize| -> Vec<(bool, String)> {
        item_signal_entries(&spec.items[i]).iter().map(|e| (e.0, e.1.path.text.replace(' ', ""))).collect()
    };
    assert!(item_resources(&spec.items[0]).is_empty());
    assert!(entries(0).is_empty());
    assert!(item_ident_cfg(&spec.items[0]).is_none());

    let slots = item_resources(&spec.items[1]);
    assert_eq!(slots.len(), 2);
    assert_eq!(slots[0].shared_signature().replace(' ', ""), "sharedBus<'static>");
    assert_eq!(slots[1].shared_signature(), "local shared Cell");
    let (name, cfg) = item_ident_cfg(&spec.items[1]).unwrap();
    assert_eq!((name.as_str(), cfg.len()), ("A", 1));
    let m = |write: bool, path: &str| (write, path.to_string());
    assert_eq!(entries(1), [m(false, "m::IN"), m(true, "m::OUT"), m(true, "m::LOG")]);

    assert!(item_resources(&spec.items[2]).is_empty());
    assert_eq!(entries(2), [m(true, "m::BEAT")]);
    assert_eq!(item_ident_cfg(&spec.items[2]).unwrap().0, "P");
}

#[test]
fn only_references_to_paths_and_elements_name_a_signal() {
    for (text, signal) in [
        ("&crate::sig::OUT", Some("crate::sig::OUT")),
        ("&ARR[i + 1]", Some("ARR[i+1]")),
        ("&mut S", Some("S")),
        ("S", None),
        ("&pick()", None),
        ("&", None),
    ] {
        let found = parse_signal_argument(text).map(|s| s.replace(' ', ""));
        assert_eq!(found.as_deref(), signal, "{text}");
    }
    let path = Argument::Reference(Referent::Path, "S".to_string());
    assert_eq!(signal_in(path).as_deref(), Some("S"));
    assert!(signal_in(Argument::Reference(Referent::Other, "S".to_string())).is_none());
    assert!(signal_in(Argument::Other).is_none());
}
