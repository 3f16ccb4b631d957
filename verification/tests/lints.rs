//! Lints.

use supervisor_tools::discover::{scan_gate_statics, scan_source};
use supervisor_tools::find::parse_source;
use supervisor_tools::lint::{dataflow_lints, gate_lints, LintCats};

fn all() -> LintCats {
    LintCats::all()
}

#[test]
fn declared_sides_lint_one_sided_signals() {
    let src = r#"
        embassy_supervisor::supervisor_graph! {
            node W = Terminate, task: w_entry, writes: [crate::sig::OUT, crate::sig::TAP];
            node R = Terminate, task: r_entry, reads: [crate::sig::OUT, crate::sig::MISSING];
        }
    "#;
    let decls = parse_source(src, "t.rs").unwrap();
    let w = dataflow_lints(&decls, &vec![], &vec![], &all(), &vec![]);
    assert!(
        w.iter()
            .any(|w| w.contains("orphan read") && w.contains("MISSING") && w.contains("R")),
        "{w:?}"
    );
    assert!(
        w.iter()
            .any(|w| w.contains("dead write") && w.contains("TAP") && w.contains("W")),
        "{w:?}"
    );
}

#[test]
fn observed_and_allow_suppress_their_findings() {
    let src = r#"
        embassy_supervisor::supervisor_graph! {
            node W = Terminate, task: w_entry,
                writes: [crate::sig::OUT, crate::sig::BEAT observed beat];
            node R = Terminate, task: r_entry,
                reads: [crate::sig::OUT, crate::sig::MISSING];
        }
    "#;
    let decls = parse_source(src, "t.rs").unwrap();
    let w = dataflow_lints(&decls, &vec![], &vec![], &all(), &vec![]);
    assert!(!w.iter().any(|w| w.contains("BEAT")), "{w:?}");
    let w = dataflow_lints(&decls, &vec![], &vec![], &all(), &vec!["MISSING".into(), "GONE".into()]);
    assert!(!w.iter().any(|w| w.contains("orphan read")), "{w:?}");
    assert!(
        w.iter()
            .any(|w| w.contains("--allow GONE") && w.contains("suppressed nothing")),
        "{w:?}"
    );
    let w = dataflow_lints(&decls, &vec![], &vec![], &all(), &vec!["OUT".into(), "MISSING".into()]);
    assert!(
        w.iter()
            .any(|w| w.contains("--allow OUT") && w.contains("suppressed nothing")),
        "{w:?}"
    );
}

#[test]
fn element_writes_and_whole_array_reads_cover_each_other() {
    let src = r#"
        embassy_supervisor::supervisor_graph! {
            node W = Terminate, task: w_entry, writes: [crate::sig::ARR[0]];
            node R = Terminate, deps: [W], task: r_entry, reads: [crate::sig::ARR];
        }
    "#;
    let decls = parse_source(src, "t.rs").unwrap();
    let w = dataflow_lints(&decls, &vec![], &vec![], &all(), &vec![]);
    assert!(
        !w.iter()
            .any(|w| w.contains("orphan read") || w.contains("dead write")),
        "{w:?}"
    );
}

#[test]
fn public_gates_are_reported_and_private_ones_are_not() {
    let src = r#"
        use embassy_supervisor::{Backed, Leased, VetoGate};
        pub static EST: Backed<u32> = Backed::new(0);
        pub(crate) static HANDLE: Leased<u32> = Leased::new(0);
        mod inner {
            static TRIP: VetoGate<4> = VetoGate::new();
            pub static LOUD: VetoGate<4> = VetoGate::new();
            pub static PLAIN: u32 = 0;
        }
        static QUIET: Backed<u32> = Backed::new(0);
    "#;
    let mut found = Vec::new();
    scan_gate_statics(src, "sig.rs", &mut found);
    let names: Vec<&str> = found.iter().map(|g| g.name.as_str()).collect();
    assert_eq!(
        names,
        ["EST", "HANDLE", "TRIP", "LOUD", "QUIET"],
        "a plain static is not a gate"
    );
    let w = gate_lints(&found, &all());
    assert_eq!(w.len(), 3, "{w:?}");
    assert!(w[0].contains("`sig.rs:3` `EST: Backed<..>`"), "{}", w[0]);
    assert!(
        w[1].contains("HANDLE: Leased<..>"),
        "pub(crate) is reachable too: {}",
        w[1]
    );
    assert!(w[2].contains("LOUD: VetoGate<..>"), "{}", w[2]);
    assert!(w.iter().all(|w| w.contains("#[dataflow]")), "{w:?}");
    let mut narrowed = LintCats::default();
    narrowed.parse("orphan-reads").unwrap();
    assert!(gate_lints(&found, &narrowed).is_empty(), "off unless asked");
    let mut only = LintCats::default();
    only.parse("public-gate").unwrap();
    assert!(only.public_gate && !only.dead_writes);
}

#[test]
fn discovered_accesses_lint_like_declared_ones() {
    let src = r#"
        embassy_supervisor::supervisor_graph! {
            node A = Terminate, task: tasks::entry, discover;
        }
    "#;
    let body = r#"
        #[embassy_supervisor::dataflow]
        async fn entry(node: &'static TaskNode) {
            node.put(&OUT, 1);
            let _ = node.get(&NEVER_WRITTEN);
        }
    "#;
    let decls = parse_source(src, "t.rs").unwrap();
    let mut discovered = Vec::new();
    scan_source(body, "tasks.rs", &mut discovered);
    let w = dataflow_lints(&decls, &discovered, &vec![], &all(), &vec![]);
    assert!(
        w.iter()
            .any(|w| w.contains("orphan read") && w.contains("NEVER_WRITTEN")),
        "{w:?}"
    );
    assert!(
        w.iter()
            .any(|w| w.contains("dead write") && w.contains("OUT")),
        "{w:?}"
    );
}
