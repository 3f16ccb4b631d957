//! Command lines.

use supervisor_tools::args::{
    list_lint_options, list_mermaid_options, parse_lint_args, parse_mermaid_args, LintArgs, MermaidArgs,
};
use supervisor_tools::tool::html_page_title;
use supervisor_tools::usage::{GUIDE, LINT_USAGE, MERMAID_USAGE};

fn words(args: &[&str]) -> Vec<String> {
    args.iter().map(|arg| (*arg).to_string()).collect()
}

fn mermaid(args: &[&str]) -> Result<MermaidArgs, String> {
    parse_mermaid_args(&words(args)).map(|args| args.expect("test arguments do not ask for help"))
}

fn lint(args: &[&str]) -> Result<LintArgs, String> {
    parse_lint_args(&words(args)).map(|args| args.expect("test arguments do not ask for help"))
}

#[test]
fn lint_flags_belong_to_the_other_binary() {
    for flag in ["--lint", "--allow"] {
        let err = mermaid(&[flag, "all"])
            .err()
            .expect("no longer this tool's option");
        assert!(err.contains(flag), "{err}");
    }
}

#[test]
fn title_options_parse_and_validate_their_combination() {
    let titled = mermaid(&["--title", "Firmware bring-up"]).unwrap();
    assert_eq!(titled.opts.title.as_deref(), Some("Firmware bring-up"));
    assert!(titled.opts.show_title);

    let untitled = mermaid(&["--no-title"]).unwrap();
    assert!(untitled.opts.title.is_none());
    assert!(!untitled.opts.show_title);

    let conflict = mermaid(&["--title", "Firmware bring-up", "--no-title"]);
    assert_eq!(
        conflict.as_ref().err().map(String::as_str),
        Some("`--title` and `--no-title` cannot be used together")
    );

    let multiline = mermaid(&["--title", "first\nsecond"]);
    assert_eq!(
        multiline.as_ref().err().map(String::as_str),
        Some("`--title` must be a single line")
    );
}

#[test]
fn html_page_title_follows_title_options() {
    let default = mermaid(&[]).unwrap();
    assert_eq!(html_page_title(&default.opts), Some("supervisor graphs"));

    let titled = mermaid(&["--title", "Firmware bring-up"]).unwrap();
    assert_eq!(html_page_title(&titled.opts), Some("Firmware bring-up"));

    let untitled = mermaid(&["--no-title"]).unwrap();
    assert_eq!(html_page_title(&untitled.opts), None);
}

#[test]
fn runtime_deps_is_runtime_only_and_supersedes_anchor_mode() {
    let full = mermaid(&["--runtime", "--runtime-deps", "--anchor-uncoupled"]).unwrap();
    assert!(full.opts.runtime_deps);
    assert!(full.opts.anchor_uncoupled);

    let standalone = mermaid(&["--runtime-deps"]);
    assert_eq!(
        standalone.as_ref().err().map(String::as_str),
        Some(
            "`--runtime-deps` is a runtime-view option; the bring-up chart draws every dep edge already"
        )
    );
}

#[test]
fn no_category_flag_lints_everything_and_only_narrows_it() {
    let all = lint(&["src"]).unwrap();
    assert!(all.only.orphan_reads && all.only.dead_writes);
    assert_eq!(all.files, vec!["src"]);

    let narrowed = lint(&["--only", "dead-writes", "src"]).unwrap();
    assert!(narrowed.only.dead_writes && !narrowed.only.orphan_reads);
    assert_eq!(narrowed.files, vec!["src"]);

    let repeated = lint(&["--only", "dead-writes", "--only", "orphan-reads"]).unwrap();
    assert!(repeated.only.dead_writes && repeated.only.orphan_reads);

    let bogus = lint(&["--only", "bogus-category"]).err();
    assert!(
        bogus
            .as_deref()
            .is_some_and(|e| e.contains("unknown lint category")),
        "{bogus:?}"
    );
}

#[test]
fn allow_takes_a_comma_separated_list_and_repeats() {
    let args = lint(&["--allow", "ESTIMATE, TAP", "--allow", "OUT"]).unwrap();
    assert_eq!(args.allow, ["ESTIMATE", "TAP", "OUT"]);
    assert!(lint(&["--allow"]).is_err(), "`--allow` needs a value");
}

#[test]
fn mermaid_every_flag_the_parser_takes_is_in_the_help() {
    let mut checked = 0;
    for literal in list_mermaid_options() {
        if literal.starts_with('-') && literal.len() > 1 {
            assert!(
                MERMAID_USAGE.contains(&literal),
                "`{literal}` is accepted but missing from --help"
            );
            checked += 1;
        }
    }
    assert!(checked > 10, "found only {checked} flags; the scan broke");
}

#[test]
fn lint_every_flag_the_parser_takes_is_in_the_help() {
    let mut checked = 0;
    for literal in list_lint_options() {
        if literal.starts_with('-') && literal.len() > 1 {
            assert!(
                LINT_USAGE.contains(&literal),
                "`{literal}` is accepted but missing from --help"
            );
            checked += 1;
        }
    }
    assert!(checked > 3, "found only {checked} flags; the scan broke");
}

#[test]
fn mermaid_every_flag_is_in_the_readme_option_list() {
    let readme = GUIDE;
    let list = readme
        .split_once("## Options")
        .and_then(|(_, rest)| rest.split_once("```"))
        .and_then(|(_, rest)| rest.split_once("```"))
        .map(|(block, _)| block)
        .expect("the README's option list");
    for line in MERMAID_USAGE.lines() {
        let Some(flag) = line.split_whitespace().find(|w| w.starts_with("--")) else {
            continue;
        };
        let flag = flag.trim_end_matches(',');
        if flag == "--help" {
            continue;
        }
        assert!(
            list.contains(flag),
            "`{flag}` is missing from the README list"
        );
    }
}

#[test]
fn lint_every_flag_is_in_the_readme_option_list() {
    let readme = GUIDE;
    let list = readme
        .split_once("## supervisor-lint")
        .and_then(|(_, section)| section.split_once("OPTIONS:"))
        .and_then(|(_, rest)| rest.split_once("```"))
        .map(|(block, _)| block)
        .expect("the README's supervisor-lint option list");
    for line in LINT_USAGE.lines() {
        let Some(flag) = line.split_whitespace().find(|w| w.starts_with("--")) else {
            continue;
        };
        let flag = flag.trim_end_matches(',');
        if flag == "--help" {
            continue;
        }
        assert!(
            list.contains(flag),
            "`{flag}` is missing from the README list"
        );
    }
}
