//! The grammar of graph declarations and the scan of function bodies.

use supervisor_tools::ast::{GraphSpec, Item};
use supervisor_tools::scan::scan_dataflow;
use supervisor_tools::token::{
    normalize_fragment_crate, render_tokens, substitute_dollar_crate, tokens_of, Tok,
};
use supervisor_tools::verbs::{rewrite_verb_calls, Reply, VerbTable};

fn tokens(src: &str) -> Vec<Tok> {
    tokens_of(src).unwrap()
}

fn shown(toks: &Vec<Tok>) -> String {
    render_tokens(toks, 0, toks.len()).replace(' ', "")
}

fn table(src: &str) -> Result<VerbTable, String> {
    VerbTable::parse(&tokens(src))
}

#[test]
fn unknown_dep_marker_rejected() {
    match GraphSpec::parse_str("node A = Terminate, deps: [B rdy];") {
        Ok(_) => panic!("unknown marker accepted"),
        Err(err) => {
            let msg = err.to_string();
            assert!(msg.contains("dep marker"), "got: {msg}");
            assert!(msg.contains("ready"), "got: {msg}");
            assert!(msg.contains("rdy"), "names the offending token: {msg}");
        }
    }
}

#[test]
fn beat_timeout_zero_rejected() {
    match GraphSpec::parse_str("node A = Terminate, deps: [], beat_timeout: 0;") {
        Ok(_) => panic!("zero budget accepted"),
        Err(err) => assert!(
            err.to_string()
                .contains("`beat_timeout:` must be at least 1"),
            "got: {err}"
        ),
    }
}

#[test]
fn beat_window_without_timeout_rejected() {
    match GraphSpec::parse_str("node A = Terminate, deps: [], beat_window: 3;") {
        Ok(_) => panic!("orphan window accepted"),
        Err(err) => assert!(
            err.to_string()
                .contains("`beat_window:` requires `beat_timeout:`"),
            "got: {err}"
        ),
    }
}

#[test]
fn beat_window_out_of_range_rejected() {
    for w in ["0", "256", "300"] {
        let src = format!("node A = Terminate, deps: [], beat_timeout: 100, beat_window: {w};");
        match GraphSpec::parse_str(&src) {
            Ok(_) => panic!("`beat_window: {w}` accepted"),
            Err(err) => assert!(
                err.to_string()
                    .contains("`beat_window:` must be in 1..=255"),
                "got: {err}"
            ),
        }
    }
    assert!(
        GraphSpec::parse_str(
            "node A = Terminate, deps: [], beat_timeout: 100, beat_window: 255;"
        )
        .is_ok(),
        "255 is in range"
    );
}

#[test]
fn ready_on_write_needs_a_heartbeat_source() {
    let nothing = "node A = Terminate, deps: [], beat_timeout: 100, \
         ready_on_write, writes: [crate::X];";
    match GraphSpec::parse_str(nothing) {
        Ok(_) => panic!("accepted with no `beat` write"),
        Err(err) => assert!(
            err.to_string()
                .contains("requires an `observed beat` entry"),
            "got: {err}"
        ),
    }

    let no_budget = "observe writes: it.get();\n\
         node A = Terminate, deps: [], ready_on_write, \
         writes: [crate::X observed beat];";
    match GraphSpec::parse_str(no_budget) {
        Ok(_) => panic!("accepted without `beat_timeout:`"),
        Err(err) => assert!(
            err.to_string().contains("requires `beat_timeout:`"),
            "got: {err}"
        ),
    }

    let ok = "observe writes: it.get();\n\
         node A = Terminate, deps: [], beat_timeout: 100, ready_on_write, \
         writes: [crate::X observed beat];";
    assert!(
        GraphSpec::parse_str(ok).is_ok(),
        "both halves present"
    );

    let adopted = "node A = Terminate, deps: [], ready_on_write, \
         dataflow: [crate::hb::set_period];";
    match GraphSpec::parse_str(adopted) {
        Ok(_) => panic!("adoption accepted as a heartbeat source"),
        Err(err) => assert!(
            err.to_string()
                .contains("requires an `observed beat` entry"),
            "got: {err}"
        ),
    }
}

#[test]
fn dataflow_scan_keys_on_the_node_param() {
    let src = r#"
        #[embassy_supervisor::dataflow]
        async fn worker(node: &'static TaskNode, map: Map) {
            let v = node.get(&PERIOD);
            map.get(&KEY);
            node.put(&OUT, v);
            if v > 0 {
                node.writer(&crate::stats::HITS[1]).fetch_add(1, O);
            }
            let mut rx = node.reader(&EST).receiver();
            node.put(&OUT, v + 1); // second site, one entry
        }
        async fn unannotated(node: &'static TaskNode) {
            node.put(&IGNORED, 1);
        }
    "#;
    let mut out = Vec::new();
    scan_dataflow(src, &mut out);
    let key: Vec<(&str, bool, &str)> = out
        .iter()
        .map(|a| (a.func.as_str(), a.write, a.path.as_str()))
        .collect();
    assert_eq!(
        key,
        [
            ("worker", false, "PERIOD"),
            ("worker", true, "OUT"),
            ("worker", true, "crate::stats::HITS[1]"),
            ("worker", false, "EST"),
        ],
        "{out:?}"
    );
}

#[test]
fn nested_fns_are_not_walked() {
    let body = tokens(
        "{
            node.put(&OUT, 1);
            fn helper(node: &'static TaskNode) {
                node.put(&INNER, 2);
            }
            let f = || node.get(&IN);
        }",
    );
    let replies = vec![Reply::Replace(tokens("REPL")), Reply::Replace(tokens("REPL"))];
    let done = rewrite_verb_calls(&body, "node", &VerbTable::builtin(), &replies).unwrap();
    let seen: Vec<&str> = done.calls.iter().map(|call| call.path.as_str()).collect();
    let out = shown(&done.out);
    assert_eq!(seen, ["OUT", "IN"], "the nested fn's access is not ours");
    assert!(
        out.contains("put(&INNER,2)"),
        "and stays unrewritten: {out}"
    );
    assert!(out.contains("get(REPL)"), "the closure's is: {out}");
}
#[test]
fn walker_keys_on_the_actual_param_name() {
    let src = r#"
        #[dataflow]
        fn f(n: &'static TaskNode, node: Map) {
            n.put(&OUT, 1);
            node.get(&KEY);
        }
    "#;
    let mut out = Vec::new();
    scan_dataflow(src, &mut out);
    let key: Vec<(&str, bool)> = out.iter().map(|a| (a.path.as_str(), a.write)).collect();
    assert_eq!(key, [("OUT", true)], "{out:?}");
}
#[test]
fn dataflow_walker_rejects_a_computed_target() {
    let body = tokens("{ node.get(some_binding) }");
    let err = rewrite_verb_calls(&body, "node", &VerbTable::builtin(), &vec![])
        .err()
        .unwrap();
    assert!(err.to_string().contains("literal path"), "{err}");
}
#[test]
fn dataflow_walker_replaces_the_first_argument() {
    let body = tokens("{ node.put(&OUT, v); node.get(&IN) }");
    let first = rewrite_verb_calls(&body, "node", &VerbTable::builtin(), &vec![]).unwrap();
    let replies: Vec<Reply> = first
        .calls
        .iter()
        .map(|call| {
            let k = if call.write { 1u32 } else { 0 };
            Reply::Replace(tokens(&format!("REPL({k}u32)")))
        })
        .collect();
    let done = rewrite_verb_calls(&body, "node", &VerbTable::builtin(), &replies).unwrap();
    let out = shown(&done.out);
    assert!(out.contains("put(REPL(1u32),v)"), "{out}");
    assert!(out.contains("get(REPL(0u32))"), "{out}");
}
#[test]
fn registered_verbs_are_walked_and_others_are_not() {
    let verbs = table("read(subscribe), write(publish, emit)").unwrap();
    let body = tokens(
        "{
            node.subscribe(&IN);
            node.publish(&OUT, v);
            node.emit(&LOG, e);
            node.set_ready();
            node.reader(&ALSO);
        }",
    );
    let reply = || Reply::Replace(tokens("REPL"));
    let replies = vec![reply(), reply(), reply(), reply()];
    let done = rewrite_verb_calls(&body, "node", &verbs, &replies).unwrap();
    let seen: Vec<(String, bool, String)> = done
        .calls
        .iter()
        .map(|call| (call.verb.clone(), call.write, call.path.clone()))
        .collect();
    let out = shown(&done.out);
    assert_eq!(
        seen,
        [
            ("subscribe".into(), false, "IN".to_string()),
            ("publish".into(), true, "OUT".to_string()),
            ("emit".into(), true, "LOG".to_string()),
            ("reader".into(), false, "ALSO".to_string()),
        ],
        "registered verbs join the built-ins, direction as declared"
    );
    assert!(out.contains("set_ready()"), "not a verb, untouched: {out}");
}
#[test]
fn verb_registration_rejects_its_mistakes() {
    assert!(
        table("").is_ok(),
        "bare `#[dataflow]`"
    );

    let cases = [
        ("read(put)", "built-in"),
        ("write(reader)", "built-in"),
        ("read(a), write(a)", "twice"),
        ("read(a, a)", "twice"),
        ("beat(a)", "expected `read(..)` or `write(..)`"),
        ("subscribe", "expected `read(..)` or `write(..)`"),
        ("read()", "names no verb"),
        // Not an ident at all: the arguments are not a marker list, and
        // the error says what they are instead.
        ("42", "verb registrations"),
    ];
    for (src, want) in cases {
        match table(src) {
            Ok(_) => panic!("`{src}` accepted"),
            Err(err) => assert!(
                err.to_string().contains(want),
                "`{src}`: wanted {want:?}, got: {err}"
            ),
        }
    }
}
#[test]
fn the_scanner_reads_the_registrations_too() {
    let src = r#"
        #[dataflow(read(subscribe), write(publish))]
        async fn entry(node: &'static TaskNode) {
            let rx = node.subscribe(&crate::EST);
            node.publish(&crate::ARMED, true);
            node.put(&crate::OTHER, 1);
        }
    "#;
    let mut out = Vec::new();
    scan_dataflow(src, &mut out);
    let key: Vec<(&str, &str, bool)> = out
        .iter()
        .map(|a| (a.verb.as_str(), a.path.as_str(), a.write))
        .collect();
    assert_eq!(
        key,
        [
            ("subscribe", "crate::EST", false),
            ("publish", "crate::ARMED", true),
            ("put", "crate::OTHER", true),
        ]
    );
}
#[test]
fn signal_entry_markers_compose() {
    match GraphSpec::parse_str("node A = Terminate, deps: [], writes: [crate::X beat];")
    {
        Ok(_) => panic!("accepted a bare `beat` entry"),
        Err(err) => assert!(
            err.to_string().contains("beat_put"),
            "the rejection names the verb that carries it: {err}"
        ),
    }
    for src in [
        "node A = Terminate, deps: [], writes: [crate::X observed beat];",
        "node A = Terminate, deps: [], \
         writes: [crate::X observed beat via it.get()];",
    ] {
        let spec = GraphSpec::parse_str(src).unwrap_or_else(|e| panic!("{src}: {e}"));
        let Item::Node(n) = &spec.items[0] else {
            unreachable!()
        };
        let entry = n.reads.first().or(n.writes.first()).unwrap();
        assert!(entry.beat, "{src}");
    }
}
#[test]
fn discover_clause_shape() {
    let spec = GraphSpec::parse_str(
        "node A = Terminate, deps: [], task: w, discover;\n\
         pool P = [Terminate, OnDemand], deps: [], task: w, discover, \
         policy: Pol::new(), min: 1, max: 2;",
    )
    .unwrap();
    let Item::Node(n) = &spec.items[0] else {
        unreachable!()
    };
    assert!(n.discover.is_some());
    let Item::Pool(p) = &spec.items[1] else {
        unreachable!()
    };
    assert!(p.discover.is_some());

    // A marked entry composes: the scan states the coupling, the list adds
    // the marker a derived table cannot carry.
    assert!(
        GraphSpec::parse_str(
            "node A = Terminate, deps: [], task: w, discover, \
             writes: [crate::X observed beat];"
        )
        .is_ok(),
        "a marked entry may sit beside `discover`"
    );

    for (bad, want) in [
        (
            "node A = Terminate, deps: [], task: w, discover: 8;",
            "takes no argument",
        ),
        (
            "node A = Terminate, deps: [], task: w, discover, reads: [crate::X];",
            "may only add markers",
        ),
        ("node A = Terminate, deps: [], discover;", "nothing to scan"),
    ] {
        match GraphSpec::parse_str(bad) {
            Ok(_) => panic!("accepted: {bad}"),
            Err(err) => assert!(err.to_string().contains(want), "{bad}: {err}"),
        }
    }
}
#[test]
fn bare_crate_normalizes_to_dollar_crate() {
    let ts = tokens("task: crate::w, reads: [$crate::X, (crate::Y)]");
    let out = shown(&normalize_fragment_crate(&ts));
    assert_eq!(out.matches("$crate").count(), 3, "{out}");

    let resolved = shown(&substitute_dollar_crate(
        &normalize_fragment_crate(&ts),
        &tokens("::dep"),
    ));
    assert_eq!(resolved, "task:::dep::w,reads:[::dep::X,(::dep::Y)]");
}

#[test]
fn dataflow_clause_shape() {
    let spec = GraphSpec::parse_str(
        "node A = Terminate, deps: [], task: w, discover, \
         dataflow: [crate::hb::set_period];\n\
         node B = Terminate, deps: [], reads: [crate::X], \
         dataflow: [crate::hb::set_period, other::adjust];",
    )
    .unwrap();
    let Item::Node(a) = &spec.items[0] else {
        unreachable!()
    };
    assert_eq!(a.dataflow.len(), 1);
    let Item::Node(b) = &spec.items[1] else {
        unreachable!()
    };
    assert_eq!(b.dataflow.len(), 2);

    for (bad, want) in [
        (
            "node A = Terminate, deps: [], dataflow: [];",
            "at least one",
        ),
        (
            "node A = Terminate, deps: [], dataflow: [f, f];",
            "duplicate",
        ),
    ] {
        match GraphSpec::parse_str(bad) {
            Ok(_) => panic!("accepted: {bad}"),
            Err(err) => assert!(err.to_string().contains(want), "{bad}: {err}"),
        }
    }
}

#[test]
fn discover_cannot_carry_ready_on_write() {
    match GraphSpec::parse_str(
        "node A = Terminate, deps: [], task: w, ready_on_write, discover;",
    ) {
        Ok(_) => panic!("accepted `ready_on_write` with nothing to fire from"),
        Err(err) => assert!(
            err.to_string()
                .contains("requires an `observed beat` entry"),
            "got: {err}"
        ),
    }
    assert!(
        GraphSpec::parse_str(
            "node A = Terminate, deps: [], task: w, ready_on_write, \
             beat_timeout: 100, discover, \
             writes: [crate::X observed beat];"
        )
        .is_ok(),
        "a marked entry beside `discover` is a heartbeat source"
    );
}

#[test]
fn via_on_a_beat_only_entry_is_rejected() {
    match GraphSpec::parse_str(
        "node A = Terminate, deps: [], writes: [crate::X beat via it.get()];",
    ) {
        Ok(_) => panic!("`beat via` accepted"),
        Err(err) => {
            let msg = err.to_string();
            assert!(msg.contains("only an `observed` entry has"), "got: {msg}");
            assert!(
                msg.contains("`beat` only ever qualifies `observed`"),
                "the `beat` half must be named too, got: {msg}"
            );
        }
    }
}

#[test]
fn a_bare_qualifier_names_the_form_it_belongs_to() {
    let src = "node A = Terminate, deps: [], writes: [crate::X via it.get()];";
    match GraphSpec::parse_str(src) {
        Ok(_) => panic!("accepted a bare qualifier: {src}"),
        Err(err) => assert!(
            err.to_string().contains("`via` supplies the accessor"),
            "got: {err}"
        ),
    }
}

#[test]
fn beat_on_a_read_is_rejected() {
    let src = "observe reads: it.get();\n\
         node A = Terminate, deps: [], reads: [crate::X observed beat];";
    match GraphSpec::parse_str(src) {
        Ok(_) => panic!("`beat` accepted on a read"),
        Err(err) => assert!(
            err.to_string().contains("belongs on a `writes:` entry"),
            "got: {err}"
        ),
    }
}

#[test]
fn bound_without_ready_rejected() {
    match GraphSpec::parse_str(
        "node A = Terminate, deps: [];\nnode B = Terminate, deps: [A bound];",
    ) {
        Ok(_) => panic!("`bound` without `ready` accepted"),
        Err(err) => assert!(
            err.to_string().contains("`bound` implies `ready`"),
            "got: {err}"
        ),
    }
}

#[test]
fn dep_markers_compose() {
    assert!(
        GraphSpec::parse_str(
            "node A = Terminate, deps: [];\n\
             node B = Terminate, deps: [A ready bound];\n\
             node C = Terminate, deps: [A bound ready];",
        )
        .is_ok()
    );
    match GraphSpec::parse_str(
        "node A = Terminate, deps: [];\nnode B = Terminate, deps: [A ready ready];",
    ) {
        Ok(_) => panic!("duplicate marker accepted"),
        Err(err) => assert!(err.to_string().contains("duplicate `ready`"), "got: {err}"),
    }
}

#[test]
fn pool_accepts_coupling_clauses() {
    assert!(
        GraphSpec::parse_str(
            "pool P = [Terminate, OnDemand], deps: [], task: w, \
             reads: [crate::IN], writes: [crate::OUT], \
             policy: Pol::new(), min: 1, max: 2;",
        )
        .is_ok()
    );
    assert!(
        GraphSpec::parse_str(
            "pool P = [Terminate], deps: [], task: w, writes: [crate::OUT], \
             policy: Pol::new(), min: 1, max: 1;",
        )
        .is_ok()
    );
}

#[test]
fn empty_signal_list_rejected() {
    for clause in ["reads", "writes"] {
        let src = format!("node A = Terminate, deps: [], {clause}: [];");
        match GraphSpec::parse_str(&src) {
            Ok(_) => panic!("empty `{clause}:` accepted"),
            Err(err) => assert!(
                err.to_string()
                    .contains(&format!("`{clause}:` must declare at least one")),
                "got: {err}"
            ),
        }
    }
    assert!(
        GraphSpec::parse_str(
            "pool P = [Terminate], deps: [], task: w, reads: [], \
             policy: Pol::new(), min: 1, max: 1;",
        )
        .is_err()
    );
}

#[test]
fn duplicate_signal_rejected() {
    match GraphSpec::parse_str(
        "node A = Terminate, deps: [], reads: [crate::SIG, other::X, crate::SIG];",
    ) {
        Ok(_) => panic!("duplicate accepted"),
        Err(err) => assert!(
            err.to_string()
                .contains("duplicate `reads:` entry `crate::SIG`"),
            "got: {err}"
        ),
    }
    match GraphSpec::parse_str(
        "pool P = [Terminate], deps: [], task: w, writes: [a::B, a::B], \
         policy: Pol::new(), min: 1, max: 1;",
    ) {
        Ok(_) => panic!("duplicate accepted on a pool"),
        Err(err) => assert!(
            err.to_string().contains("duplicate `writes:` entry `a::B`"),
            "got: {err}"
        ),
    }
}

#[test]
fn distinct_paths_sharing_a_segment_are_fine() {
    assert!(
        GraphSpec::parse_str(
            "node A = Terminate, deps: [], reads: [a::SIG, b::SIG, SIG];",
        )
        .is_ok()
    );
}

#[test]
fn parked_node_may_declare_coupling() {
    assert!(
        GraphSpec::parse_str(
            "node A = Terminate, deps: [], reads: [crate::IN], writes: [crate::OUT];",
        )
        .is_ok()
    );
}

#[test]
fn signal_list_takes_paths() {
    assert!(
        GraphSpec::parse_str(
            "node A = Terminate, deps: [], reads: [SIG, ::root::SIG, a::b::C];",
        )
        .is_ok()
    );
    assert!(
        GraphSpec::parse_str("node A = Terminate, deps: [], reads: [1 + 2];").is_err()
    );
}

#[test]
fn ack_timeout_accepted_and_validated() {
    assert!(
        GraphSpec::parse_str(
            "node A = Terminate, deps: [], task: f, ack_timeout: 5000;\n\
             pool P = [Terminate], deps: [], task: w, policy: Pol::new(), \
             min: 1, max: 1, ack_timeout: 100;",
        )
        .is_ok()
    );
    for (src, needle) in [
        (
            "node A = Terminate, deps: [], task: f, ack_timeout: 0;",
            "must be at least 1",
        ),
        (
            "node A = Terminate, deps: [], task: f, ack_timeout: 10, ack_timeout: 20;",
            "duplicate `ack_timeout:` clause",
        ),
    ] {
        match GraphSpec::parse_str(src) {
            Ok(_) => panic!("accepted: {src}"),
            Err(err) => assert!(err.to_string().contains(needle), "got: {err}"),
        }
    }
}

#[test]
fn beat_clauses_accepted() {
    assert!(
        GraphSpec::parse_str(
            "node A = Terminate, deps: [], beat_timeout: 100, beat_window: 3;\n\
             node B = Terminate, deps: [], beat_window: 2, beat_timeout: 50, slot_timeout: 200;",
        )
        .is_ok()
    );
}

#[test]
fn cfg_gated_clauses() {
    let gate = "#[cfg(feature = \"x\")]";
    let spec = GraphSpec::parse_str(&format!(
        "node A = Terminate, deps: [], task: w, discover, \
         {gate} slot_timeout: 100, {gate} ack_timeout: 200, \
         {gate} beat_timeout: 100, {gate} beat_window: 3, {gate} disabled;\n\
         node B = Terminate, deps: [], task: w, {gate} discover, \
         provides: [{gate} R1, R2];",
    ))
    .expect("cfg-gated clauses parse");
    let Item::Node(a) = &spec.items[0] else {
        unreachable!()
    };
    assert_eq!(a.slot_timeout.as_ref().unwrap().cfg.len(), 1);
    assert_eq!(a.ack_timeout.as_ref().unwrap().cfg.len(), 1);
    assert_eq!(a.beat_timeout.as_ref().unwrap().cfg.len(), 1);
    assert_eq!(a.beat_window.as_ref().unwrap().cfg.len(), 1);
    assert_eq!(a.disabled.as_ref().unwrap().cfg.len(), 1);
    assert!(
        a.discover.as_ref().unwrap().cfg.is_empty(),
        "un-gated stays empty"
    );
    let Item::Node(b) = &spec.items[1] else {
        unreachable!()
    };
    assert_eq!(b.discover.as_ref().unwrap().cfg.len(), 1);
    assert_eq!(b.provides[0].cfg.len(), 1);
    assert!(b.provides[1].cfg.is_empty());

    // `ready_on_write` needs its prerequisites in place to parse at all.
    let spec = GraphSpec::parse_str(&format!(
        "node A = Terminate, deps: [], task: w, \
         writes: [crate::S observed beat via it.get()], \
         {gate} beat_timeout: 100, {gate} ready_on_write;",
    ))
    .expect("gated ready_on_write parses beside its gated beat_timeout");
    let Item::Node(a) = &spec.items[0] else {
        unreachable!()
    };
    assert_eq!(a.ready_on_write.as_ref().unwrap().cfg.len(), 1);

    // Structural clauses refuse an attribute, naming the set that takes one.
    for clause in [
        "task: w",
        "spawn: f()",
        "executor: HIGH",
        "exit: u32",
        "state: u32 = 0",
        "cancel",
        "pool_size: 2",
        "deps: [X]",
        "resources: [R: u32]",
        "reads: [crate::S]",
        "provides: [R]",
        "dataflow: [crate::f]",
    ] {
        match GraphSpec::parse_str(&format!(
            "node A = Terminate, deps: [], {gate} {clause};"
        )) {
            Ok(_) => panic!("`#[cfg]` on `{clause}` accepted"),
            Err(err) => assert!(
                err.to_string().contains("may only gate `slot_timeout:`"),
                "`{clause}`: wrong error: {err}"
            ),
        }
    }
    match GraphSpec::parse_str(
        "node A = Terminate, deps: [], #[allow(dead_code)] beat_timeout: 100;",
    ) {
        Ok(_) => panic!("a non-cfg attribute accepted"),
        Err(err) => assert!(
            err.to_string()
                .contains("only `#[cfg(...)]` attributes may gate a clause"),
            "wrong error: {err}"
        ),
    }
}

#[test]
fn gated_beat_timeout_predicate_pairing() {
    let gate = "#[cfg(feature = \"x\")]";
    assert!(
        GraphSpec::parse_str(&format!(
            "node A = Terminate, deps: [], beat_timeout: 100, {gate} beat_window: 3;"
        ))
        .is_ok()
    );
    for (tail, needle) in [
        (
            "beat_window: 3",
            "`beat_window:` must carry the same `#[cfg]`",
        ),
        (
            "#[cfg(feature = \"y\")] beat_window: 3",
            "`beat_window:` must carry the same `#[cfg]`",
        ),
    ] {
        match GraphSpec::parse_str(&format!(
            "node A = Terminate, deps: [], {gate} beat_timeout: 100, {tail};"
        )) {
            Ok(_) => panic!("mismatched gate accepted: {tail}"),
            Err(err) => assert!(err.to_string().contains(needle), "{tail}: {err}"),
        }
    }
    match GraphSpec::parse_str(&format!(
        "node A = Terminate, deps: [], task: w, \
         writes: [crate::S observed beat via it.get()], \
         {gate} beat_timeout: 100, ready_on_write;"
    )) {
        Ok(_) => panic!("un-gated ready_on_write over a gated beat_timeout accepted"),
        Err(err) => assert!(
            err.to_string()
                .contains("`ready_on_write` must carry the same `#[cfg]`"),
            "{err}"
        ),
    }
}

#[test]
fn duplicate_clauses_rejected() {
    for (src, needle) in [
        (
            "node A = Terminate, deps: [], deps: [];",
            "duplicate `deps:` clause",
        ),
        (
            "node A = Terminate, deps: [], task: f, task: g;",
            "duplicate `task:` clause",
        ),
        (
            "node A = Terminate, deps: [], reads: [crate::X], reads: [crate::Y];",
            "duplicate `reads:` clause",
        ),
        (
            "pool P = [Terminate], deps: [A], deps: [], task: w, \
             policy: Pol::new(), min: 1, max: 1;",
            "duplicate `deps:` clause",
        ),
        (
            "pool P = [Terminate], deps: [], task: w, policy: Pol::new(), \
             policy: Other::new(), min: 1, max: 1;",
            "duplicate `policy:` clause",
        ),
        (
            "pool P = [Terminate], deps: [], task: w, policy: Pol::new(), \
             min: 1, max: 1, max: 2;",
            "duplicate `max:` clause",
        ),
        (
            "node A = Terminate, deps: [], beat_timeout: 100, beat_timeout: 200;",
            "duplicate `beat_timeout:` clause",
        ),
        (
            "node A = Terminate, deps: [], beat_timeout: 100, \
             beat_window: 3, beat_window: 4;",
            "duplicate `beat_window:` clause",
        ),
        (
            "node A = Terminate, deps: [], disabled, disabled;",
            "duplicate `disabled` marker",
        ),
        (
            "node A = Terminate, deps: [], task: w, \
             writes: [crate::S observed beat via it.get()], \
             beat_timeout: 100, ready_on_write, ready_on_write;",
            "duplicate `ready_on_write` marker",
        ),
    ] {
        match GraphSpec::parse_str(src) {
            Ok(_) => panic!("duplicate accepted: {src}"),
            Err(err) => assert!(err.to_string().contains(needle), "got: {err}"),
        }
    }
}

#[test]
fn malformed_cfg_attribute_rejected() {
    for attr in ["#[cfg]", "#[cfg = \"x\"]", "#[cfg] #[cfg(feature = \"x\")]"] {
        for decl in [
            format!("node A = Terminate, deps: [], {attr} disabled;"),
            format!("node A = Terminate, deps: [], provides: [{attr} R];"),
        ] {
            match GraphSpec::parse_str(&decl) {
                Ok(_) => panic!("malformed cfg accepted: {decl}"),
                Err(err) => assert!(
                    err.to_string().contains("only `#[cfg(...)]` attributes"),
                    "{decl}: {err}"
                ),
            }
        }
    }
}

#[test]
fn pool_clause_cfg_rejection_names_pool_alternatives() {
    let gate = "#[cfg(feature = \"x\")]";
    let spec = GraphSpec::parse_str(&format!(
        "pool P = [Terminate], deps: [], task: w, \
         policy: Pol::new(), min: 1, max: 1, \
         {gate} slot_timeout: 100, {gate} ack_timeout: 200;"
    ))
    .expect("gated pool timeouts parse");
    let Item::Pool(p) = &spec.items[0] else {
        unreachable!()
    };
    assert_eq!(p.slot_timeout.as_ref().unwrap().cfg.len(), 1);
    assert_eq!(p.ack_timeout.as_ref().unwrap().cfg.len(), 1);

    for clause in ["policy: Pol::new()", "min: 1", "beat_timeout: 100"] {
        match GraphSpec::parse_str(&format!(
            "pool P = [Terminate], deps: [], task: w, {gate} {clause};"
        )) {
            Ok(_) => panic!("`#[cfg]` on pool `{clause}` accepted"),
            Err(err) => {
                let msg = err.to_string();
                assert!(msg.contains("gate the whole pool"), "`{clause}`: {msg}");
                assert!(!msg.contains("provides"), "`{clause}`: {msg}");
            }
        }
    }
}

#[test]
fn missing_comma_after_marked_entry_is_an_error() {
    match GraphSpec::parse_str(
        "node A = Terminate, deps: [], task: f, \
         writes: [crate::S observed via it.get() beat];",
    ) {
        Ok(_) => panic!("phantom entry accepted"),
        Err(err) => assert!(err.to_string().contains("expected `,`"), "got: {err}"),
    }
    assert!(
        GraphSpec::parse_str(
            "node A = Terminate, deps: [], task: f, \
             writes: [crate::S observed beat via it.get(),];",
        )
        .is_ok(),
        "a trailing comma stays legal"
    );
}

#[test]
fn scan_records_fn_level_cfgs() {
    let mut out = Vec::new();
    scan_dataflow(
        "#[cfg(feature = \"x\")]\n#[dataflow]\nasync fn f(node: &'static TaskNode) \
         { node.put(&crate::S, 1); }",
        &mut out,
    );
    assert_eq!(out.len(), 1, "{out:?}");
    assert!(
        out[0].cfgs.iter().any(|c| c.contains("feature=")),
        "{:?}",
        out[0].cfgs
    );
}

#[test]
fn qualified_receiver_is_not_a_verb_call() {
    let body = tokens(
        "{
            self.node.put(&NOT_OURS, 1);
            foo::node.get(&ALSO_NOT);
            node.put(&OURS, 2);
        }",
    );
    let done = rewrite_verb_calls(&body, "node", &VerbTable::builtin(), &vec![]).unwrap();
    let seen: Vec<&str> = done.calls.iter().map(|call| call.path.as_str()).collect();
    assert_eq!(seen, ["OURS"]);
}
