//! What the arguments of the drawing tool ask for: each option has its own effect, and nothing is
//! asked for that no argument says.

use vstd::prelude::*;

use crate::args::{
    asks_help, looks_like_option, mermaid_args, mermaid_from, no_mermaid_args, uppercase, valued,
    with_flag, with_option_flag, with_option_value, with_tool_flag, with_tool_value, with_value,
    MermaidArgsV,
};
use crate::options::OptionsV;

verus! {

/// One of the arguments is `word`.
pub open spec fn said(list: Seq<Seq<char>>, word: Seq<char>) -> bool {
    exists|k: int| 0 <= k < list.len() && #[trigger] list[k] == word
}

/// The option `word` stands among the arguments with this value behind it.
pub open spec fn said_with(list: Seq<Seq<char>>, word: Seq<char>, v: Seq<char>) -> bool {
    exists|k: int| 0 <= k < list.len() - 1 && #[trigger] list[k] == word && list[k + 1] == v
}

/// The flags of a diagram that are set, each by its own word.
#[verifier::opaque]
pub open spec fn view_said(o: OptionsV, list: Seq<Seq<char>>) -> bool {
    &&& o.states ==> said(list, "--states"@)
    &&& o.runtime ==> said(list, "--runtime"@)
    &&& o.runtime_deps ==> said(list, "--runtime-deps"@)
    &&& o.anchor_uncoupled ==> said(list, "--anchor-uncoupled"@)
    &&& o.legend ==> said(list, "-l"@) || said(list, "--legend"@)
    &&& o.signals ==> said(list, "-s"@) || said(list, "--signals"@)
    &&& o.full_paths ==> said(list, "-f"@) || said(list, "--full-paths"@)
    &&& !o.show_cfg ==> said(list, "--hide-cfg"@)
    &&& o.fragments ==> said(list, "--fragments"@)
    &&& o.executors ==> said(list, "--executors"@)
    &&& !o.show_title ==> said(list, "--no-title"@)
}

/// The other flags that are set, each by its own word.
#[verifier::opaque]
pub open spec fn flags_said(a: MermaidArgsV, list: Seq<Seq<char>>) -> bool {
    &&& a.markdown ==> said(list, "-m"@) || said(list, "--markdown"@)
    &&& a.list ==> said(list, "--list"@)
    &&& a.all ==> said(list, "--all"@)
    &&& a.deps ==> said(list, "--deps"@)
    &&& a.json ==> said(list, "--json"@)
    &&& a.check ==> said(list, "--check"@)
    &&& a.live_url ==> said(list, "--live-url"@)
    &&& a.watch ==> said(list, "--watch"@)
}

/// A number stands behind the option `word`.
pub open spec fn said_number(list: Seq<Seq<char>>, word: Seq<char>, max: nat, n: nat) -> bool {
    exists|v: Seq<char>| #[trigger]
        said_with(list, word, v) && crate::text::bounded_number(v, max) == Some(n)
}

/// The options of a diagram that have a value, each behind its own word.
#[verifier::opaque]
pub open spec fn settings_said(o: OptionsV, list: Seq<Seq<char>>) -> bool {
    &&& o.layout matches Some(v) ==> said_with(list, "--layout"@, v)
    &&& o.title matches Some(v) ==> said_with(list, "--title"@, v)
    &&& o.links matches Some(v) ==> said_with(list, "--links"@, v)
    &&& o.h_spacing matches Some(n) ==> said_number(list, "--h-spacing"@, 0xffff_ffff, n as nat)
    &&& o.v_spacing matches Some(n) ==> said_number(list, "--v-spacing"@, 0xffff_ffff, n as nat)
    &&& o.max_fanout > 0 ==> said_number(
        list,
        "--max-fanout"@,
        usize::MAX as nat,
        o.max_fanout as nat,
    )
    &&& o.direction == "TD"@ || exists|v: Seq<char>| #[trigger]
        said_direction(list, v) && o.direction == uppercase(v)
}

/// The other options that have a value, each behind its own word.
#[verifier::opaque]
pub open spec fn targets_said(a: MermaidArgsV, list: Seq<Seq<char>>) -> bool {
    &&& a.select matches Some(v) ==> said_with(list, "--select"@, v)
    &&& a.html matches Some(v) ==> said_with(list, "--html"@, v)
    &&& a.render_to matches Some(v) ==> said_with(list, "--render"@, v)
    &&& a.update matches Some(v) ==> said_with(list, "--update"@, v)
    &&& a.output matches Some(v) ==> said_with(list, "-o"@, v) || said_with(list, "--output"@, v)
}

/// Nothing is asked for that no argument says.
pub open spec fn all_said(a: MermaidArgsV, list: Seq<Seq<char>>) -> bool {
    &&& view_said(a.opts, list)
    &&& flags_said(a, list)
    &&& settings_said(a.opts, list)
    &&& targets_said(a, list)
    &&& forall|k: int| 0 <= k < a.files.len() ==> said(list, #[trigger] a.files[k])
}

/// A direction stands among the arguments.
pub open spec fn said_direction(list: Seq<Seq<char>>, v: Seq<char>) -> bool {
    said_with(list, "-d"@, v) || said_with(list, "--direction"@, v)
}

proof fn lemma_words()
    ensures
        "--states"@.len() == 8 && "--states"@[1] == '-' && "--states"@[2] == 's' && "--states"@[3] == 't' && "--states"@[4] == 'a' && "--states"@[5] == 't',
        "--runtime"@.len() == 9 && "--runtime"@[1] == '-' && "--runtime"@[2] == 'r' && "--runtime"@[3] == 'u' && "--runtime"@[4] == 'n' && "--runtime"@[5] == 't',
        "--runtime-deps"@.len() == 14 && "--runtime-deps"@[1] == '-' && "--runtime-deps"@[2] == 'r' && "--runtime-deps"@[3] == 'u' && "--runtime-deps"@[4] == 'n' && "--runtime-deps"@[5] == 't',
        "--anchor-uncoupled"@.len() == 18 && "--anchor-uncoupled"@[1] == '-' && "--anchor-uncoupled"@[2] == 'a' && "--anchor-uncoupled"@[3] == 'n' && "--anchor-uncoupled"@[4] == 'c' && "--anchor-uncoupled"@[5] == 'h',
        "-l"@.len() == 2 && "-l"@[1] == 'l',
        "--legend"@.len() == 8 && "--legend"@[1] == '-' && "--legend"@[2] == 'l' && "--legend"@[3] == 'e' && "--legend"@[4] == 'g' && "--legend"@[5] == 'e',
        "-s"@.len() == 2 && "-s"@[1] == 's',
        "--signals"@.len() == 9 && "--signals"@[1] == '-' && "--signals"@[2] == 's' && "--signals"@[3] == 'i' && "--signals"@[4] == 'g' && "--signals"@[5] == 'n',
        "-f"@.len() == 2 && "-f"@[1] == 'f',
        "--full-paths"@.len() == 12 && "--full-paths"@[1] == '-' && "--full-paths"@[2] == 'f' && "--full-paths"@[3] == 'u' && "--full-paths"@[4] == 'l' && "--full-paths"@[5] == 'l',
        "--hide-cfg"@.len() == 10 && "--hide-cfg"@[1] == '-' && "--hide-cfg"@[2] == 'h' && "--hide-cfg"@[3] == 'i' && "--hide-cfg"@[4] == 'd' && "--hide-cfg"@[5] == 'e',
        "--fragments"@.len() == 11 && "--fragments"@[1] == '-' && "--fragments"@[2] == 'f' && "--fragments"@[3] == 'r' && "--fragments"@[4] == 'a' && "--fragments"@[5] == 'g',
        "--executors"@.len() == 11 && "--executors"@[1] == '-' && "--executors"@[2] == 'e' && "--executors"@[3] == 'x' && "--executors"@[4] == 'e' && "--executors"@[5] == 'c',
        "--no-title"@.len() == 10 && "--no-title"@[1] == '-' && "--no-title"@[2] == 'n' && "--no-title"@[3] == 'o' && "--no-title"@[4] == '-' && "--no-title"@[5] == 't',
        "-m"@.len() == 2 && "-m"@[1] == 'm',
        "--markdown"@.len() == 10 && "--markdown"@[1] == '-' && "--markdown"@[2] == 'm' && "--markdown"@[3] == 'a' && "--markdown"@[4] == 'r' && "--markdown"@[5] == 'k',
        "--list"@.len() == 6 && "--list"@[1] == '-' && "--list"@[2] == 'l' && "--list"@[3] == 'i' && "--list"@[4] == 's' && "--list"@[5] == 't',
        "--all"@.len() == 5 && "--all"@[1] == '-' && "--all"@[2] == 'a' && "--all"@[3] == 'l' && "--all"@[4] == 'l',
        "--deps"@.len() == 6 && "--deps"@[1] == '-' && "--deps"@[2] == 'd' && "--deps"@[3] == 'e' && "--deps"@[4] == 'p' && "--deps"@[5] == 's',
        "--json"@.len() == 6 && "--json"@[1] == '-' && "--json"@[2] == 'j' && "--json"@[3] == 's' && "--json"@[4] == 'o' && "--json"@[5] == 'n',
        "--check"@.len() == 7 && "--check"@[1] == '-' && "--check"@[2] == 'c' && "--check"@[3] == 'h' && "--check"@[4] == 'e' && "--check"@[5] == 'c',
        "--live-url"@.len() == 10 && "--live-url"@[1] == '-' && "--live-url"@[2] == 'l' && "--live-url"@[3] == 'i' && "--live-url"@[4] == 'v' && "--live-url"@[5] == 'e',
        "--watch"@.len() == 7 && "--watch"@[1] == '-' && "--watch"@[2] == 'w' && "--watch"@[3] == 'a' && "--watch"@[4] == 't' && "--watch"@[5] == 'c',
        "--direction"@.len() == 11 && "--direction"@[1] == '-' && "--direction"@[2] == 'd' && "--direction"@[3] == 'i' && "--direction"@[4] == 'r' && "--direction"@[5] == 'e',
        "--exclude"@.len() == 9 && "--exclude"@[1] == '-' && "--exclude"@[2] == 'e' && "--exclude"@[3] == 'x' && "--exclude"@[4] == 'c' && "--exclude"@[5] == 'l',
        "--layout"@.len() == 8 && "--layout"@[1] == '-' && "--layout"@[2] == 'l' && "--layout"@[3] == 'a' && "--layout"@[4] == 'y' && "--layout"@[5] == 'o',
        "--title"@.len() == 7 && "--title"@[1] == '-' && "--title"@[2] == 't' && "--title"@[3] == 'i' && "--title"@[4] == 't' && "--title"@[5] == 'l',
        "--max-fanout"@.len() == 12 && "--max-fanout"@[1] == '-' && "--max-fanout"@[2] == 'm' && "--max-fanout"@[3] == 'a' && "--max-fanout"@[4] == 'x' && "--max-fanout"@[5] == '-',
        "--links"@.len() == 7 && "--links"@[1] == '-' && "--links"@[2] == 'l' && "--links"@[3] == 'i' && "--links"@[4] == 'n' && "--links"@[5] == 'k',
        "--h-spacing"@.len() == 11 && "--h-spacing"@[1] == '-' && "--h-spacing"@[2] == 'h' && "--h-spacing"@[3] == '-' && "--h-spacing"@[4] == 's' && "--h-spacing"@[5] == 'p',
        "--v-spacing"@.len() == 11 && "--v-spacing"@[1] == '-' && "--v-spacing"@[2] == 'v' && "--v-spacing"@[3] == '-' && "--v-spacing"@[4] == 's' && "--v-spacing"@[5] == 'p',
        "--select"@.len() == 8 && "--select"@[1] == '-' && "--select"@[2] == 's' && "--select"@[3] == 'e' && "--select"@[4] == 'l' && "--select"@[5] == 'e',
        "--html"@.len() == 6 && "--html"@[1] == '-' && "--html"@[2] == 'h' && "--html"@[3] == 't' && "--html"@[4] == 'm' && "--html"@[5] == 'l',
        "--render"@.len() == 8 && "--render"@[1] == '-' && "--render"@[2] == 'r' && "--render"@[3] == 'e' && "--render"@[4] == 'n' && "--render"@[5] == 'd',
        "--update"@.len() == 8 && "--update"@[1] == '-' && "--update"@[2] == 'u' && "--update"@[3] == 'p' && "--update"@[4] == 'd' && "--update"@[5] == 'a',
        "--output"@.len() == 8 && "--output"@[1] == '-' && "--output"@[2] == 'o' && "--output"@[3] == 'u' && "--output"@[4] == 't' && "--output"@[5] == 'p',
        "-d"@.len() == 2 && "-d"@[1] == 'd',
        "-x"@.len() == 2 && "-x"@[1] == 'x',
        "-o"@.len() == 2 && "-o"@[1] == 'o',
        "-h"@.len() == 2 && "-h"@[1] == 'h',
        "--help"@.len() == 6 && "--help"@[1] == '-' && "--help"@[2] == 'h' && "--help"@[3] == 'e' && "--help"@[4] == 'l' && "--help"@[5] == 'p',
{
    reveal_strlit("--states");
    reveal_strlit("--runtime");
    reveal_strlit("--runtime-deps");
    reveal_strlit("--anchor-uncoupled");
    reveal_strlit("-l");
    reveal_strlit("--legend");
    reveal_strlit("-s");
    reveal_strlit("--signals");
    reveal_strlit("-f");
    reveal_strlit("--full-paths");
    reveal_strlit("--hide-cfg");
    reveal_strlit("--fragments");
    reveal_strlit("--executors");
    reveal_strlit("--no-title");
    reveal_strlit("-m");
    reveal_strlit("--markdown");
    reveal_strlit("--list");
    reveal_strlit("--all");
    reveal_strlit("--deps");
    reveal_strlit("--json");
    reveal_strlit("--check");
    reveal_strlit("--live-url");
    reveal_strlit("--watch");
    reveal_strlit("--direction");
    reveal_strlit("--exclude");
    reveal_strlit("--layout");
    reveal_strlit("--title");
    reveal_strlit("--max-fanout");
    reveal_strlit("--links");
    reveal_strlit("--h-spacing");
    reveal_strlit("--v-spacing");
    reveal_strlit("--select");
    reveal_strlit("--html");
    reveal_strlit("--render");
    reveal_strlit("--update");
    reveal_strlit("--output");
    reveal_strlit("-d");
    reveal_strlit("-x");
    reveal_strlit("-o");
    reveal_strlit("-h");
    reveal_strlit("--help");
}

/// Every flag that was given has its effect.
pub open spec fn in_effect(a: MermaidArgsV, word: Seq<char>) -> bool {
    &&& word == "--states"@ ==> a.opts.states
    &&& word == "--runtime"@ ==> a.opts.runtime
    &&& word == "--runtime-deps"@ ==> a.opts.runtime_deps
    &&& word == "--anchor-uncoupled"@ ==> a.opts.anchor_uncoupled
    &&& word == "-l"@ ==> a.opts.legend
    &&& word == "--legend"@ ==> a.opts.legend
    &&& word == "-s"@ ==> a.opts.signals
    &&& word == "--signals"@ ==> a.opts.signals
    &&& word == "-f"@ ==> a.opts.full_paths
    &&& word == "--full-paths"@ ==> a.opts.full_paths
    &&& word == "--hide-cfg"@ ==> !a.opts.show_cfg
    &&& word == "--fragments"@ ==> a.opts.fragments
    &&& word == "--executors"@ ==> a.opts.executors
    &&& word == "--no-title"@ ==> !a.opts.show_title
    &&& word == "-m"@ ==> a.markdown
    &&& word == "--markdown"@ ==> a.markdown
    &&& word == "--list"@ ==> a.list
    &&& word == "--all"@ ==> a.all
    &&& word == "--deps"@ ==> a.deps
    &&& word == "--json"@ ==> a.json
    &&& word == "--check"@ ==> a.check
    &&& word == "--live-url"@ ==> a.live_url
    &&& word == "--watch"@ ==> a.watch
    &&& word == "--layout"@ ==> a.opts.layout is Some
    &&& word == "--title"@ ==> a.opts.title is Some
    &&& word == "--links"@ ==> a.opts.links is Some
    &&& word == "--h-spacing"@ ==> a.opts.h_spacing is Some
    &&& word == "--v-spacing"@ ==> a.opts.v_spacing is Some
    &&& word == "--select"@ ==> a.select is Some
    &&& word == "--html"@ ==> a.html is Some
    &&& word == "--render"@ ==> a.render_to is Some
    &&& word == "--update"@ ==> a.update is Some
    &&& word == "--output"@ ==> a.output is Some
    &&& word == "-o"@ ==> a.output is Some
}

/// What was asked for is still asked for.
#[verifier::opaque]
spec fn lasts(a: MermaidArgsV, b: MermaidArgsV) -> bool {
    &&& a.opts.states ==> b.opts.states
    &&& a.opts.runtime ==> b.opts.runtime
    &&& a.opts.runtime_deps ==> b.opts.runtime_deps
    &&& a.opts.anchor_uncoupled ==> b.opts.anchor_uncoupled
    &&& a.opts.legend ==> b.opts.legend
    &&& a.opts.signals ==> b.opts.signals
    &&& a.opts.full_paths ==> b.opts.full_paths
    &&& !a.opts.show_cfg ==> !b.opts.show_cfg
    &&& a.opts.fragments ==> b.opts.fragments
    &&& a.opts.executors ==> b.opts.executors
    &&& !a.opts.show_title ==> !b.opts.show_title
    &&& a.markdown ==> b.markdown
    &&& a.list ==> b.list
    &&& a.all ==> b.all
    &&& a.deps ==> b.deps
    &&& a.json ==> b.json
    &&& a.check ==> b.check
    &&& a.live_url ==> b.live_url
    &&& a.watch ==> b.watch
    &&& a.opts.layout is Some ==> b.opts.layout is Some
    &&& a.opts.title is Some ==> b.opts.title is Some
    &&& a.opts.links is Some ==> b.opts.links is Some
    &&& a.opts.h_spacing is Some ==> b.opts.h_spacing is Some
    &&& a.opts.v_spacing is Some ==> b.opts.v_spacing is Some
    &&& a.select is Some ==> b.select is Some
    &&& a.html is Some ==> b.html is Some
    &&& a.render_to is Some ==> b.render_to is Some
    &&& a.update is Some ==> b.update is Some
    &&& a.output is Some ==> b.output is Some
}

proof fn lemma_lasting(a: MermaidArgsV, b: MermaidArgsV, c: MermaidArgsV)
    ensures
        lasts(a, a),
        lasts(a, b) && lasts(b, c) ==> lasts(a, c),
{
    reveal(lasts);
}

proof fn lemma_one_lasts(a: MermaidArgsV, b: MermaidArgsV)
    requires
        b == (MermaidArgsV { opts: OptionsV { states: true, ..a.opts }, ..a }) ||
        b == (MermaidArgsV { opts: OptionsV { runtime: true, ..a.opts }, ..a }) ||
        b == (MermaidArgsV { opts: OptionsV { runtime_deps: true, ..a.opts }, ..a }) ||
        b == (MermaidArgsV { opts: OptionsV { anchor_uncoupled: true, ..a.opts }, ..a }) ||
        b == (MermaidArgsV { opts: OptionsV { legend: true, ..a.opts }, ..a }) ||
        b == (MermaidArgsV { opts: OptionsV { signals: true, ..a.opts }, ..a }) ||
        b == (MermaidArgsV { opts: OptionsV { full_paths: true, ..a.opts }, ..a }) ||
        b == (MermaidArgsV { opts: OptionsV { show_cfg: false, ..a.opts }, ..a }) ||
        b == (MermaidArgsV { opts: OptionsV { fragments: true, ..a.opts }, ..a }) ||
        b == (MermaidArgsV { opts: OptionsV { executors: true, ..a.opts }, ..a }) ||
        b == (MermaidArgsV { opts: OptionsV { show_title: false, ..a.opts }, ..a }) ||
        b == (MermaidArgsV { markdown: true, ..a }) ||
        b == (MermaidArgsV { list: true, ..a }) ||
        b == (MermaidArgsV { all: true, ..a }) ||
        b == (MermaidArgsV { deps: true, ..a }) ||
        b == (MermaidArgsV { json: true, ..a }) ||
        b == (MermaidArgsV { check: true, ..a }) ||
        b == (MermaidArgsV { live_url: true, ..a }) ||
        b == (MermaidArgsV { watch: true, ..a }),
    ensures
        lasts(a, b),
{
    reveal(lasts);
}

/// What a flag changes: one field, by its word.
proof fn lemma_flag_shape(a: MermaidArgsV, word: Seq<char>)
    ensures
        with_flag(a, word) matches Some(b) ==> (
        ((word == "--states"@) && b == (MermaidArgsV { opts: OptionsV { states: true, ..a.opts }, ..a })) ||
        ((word == "--runtime"@) && b == (MermaidArgsV { opts: OptionsV { runtime: true, ..a.opts }, ..a })) ||
        ((word == "--runtime-deps"@) && b == (MermaidArgsV { opts: OptionsV { runtime_deps: true, ..a.opts }, ..a })) ||
        ((word == "--anchor-uncoupled"@) && b == (MermaidArgsV { opts: OptionsV { anchor_uncoupled: true, ..a.opts }, ..a })) ||
        ((word == "-l"@ || word == "--legend"@) && b == (MermaidArgsV { opts: OptionsV { legend: true, ..a.opts }, ..a })) ||
        ((word == "-s"@ || word == "--signals"@) && b == (MermaidArgsV { opts: OptionsV { signals: true, ..a.opts }, ..a })) ||
        ((word == "-f"@ || word == "--full-paths"@) && b == (MermaidArgsV { opts: OptionsV { full_paths: true, ..a.opts }, ..a })) ||
        ((word == "--hide-cfg"@) && b == (MermaidArgsV { opts: OptionsV { show_cfg: false, ..a.opts }, ..a })) ||
        ((word == "--fragments"@) && b == (MermaidArgsV { opts: OptionsV { fragments: true, ..a.opts }, ..a })) ||
        ((word == "--executors"@) && b == (MermaidArgsV { opts: OptionsV { executors: true, ..a.opts }, ..a })) ||
        ((word == "--no-title"@) && b == (MermaidArgsV { opts: OptionsV { show_title: false, ..a.opts }, ..a })) ||
        ((word == "-m"@ || word == "--markdown"@) && b == (MermaidArgsV { markdown: true, ..a })) ||
        ((word == "--list"@) && b == (MermaidArgsV { list: true, ..a })) ||
        ((word == "--all"@) && b == (MermaidArgsV { all: true, ..a })) ||
        ((word == "--deps"@) && b == (MermaidArgsV { deps: true, ..a })) ||
        ((word == "--json"@) && b == (MermaidArgsV { json: true, ..a })) ||
        ((word == "--check"@) && b == (MermaidArgsV { check: true, ..a })) ||
        ((word == "--live-url"@) && b == (MermaidArgsV { live_url: true, ..a })) ||
        ((word == "--watch"@) && b == (MermaidArgsV { watch: true, ..a }))
        ),
{
}

proof fn lemma_flag_lasts(a: MermaidArgsV, word: Seq<char>)
    ensures
        with_flag(a, word) matches Some(b) ==> lasts(a, b),
{
    lemma_flag_shape(a, word);
    if let Some(b) = with_flag(a, word) {
        lemma_one_lasts(a, b);
    }
}

proof fn lemma_value_lasts(a: MermaidArgsV, name: Seq<char>, v: Seq<char>)
    ensures
        with_value(a, name, v, uppercase(v)) matches Ok(b) ==> lasts(a, b),
{
    reveal(lasts);
}

proof fn lemma_file_lasts(a: MermaidArgsV, file: Seq<char>)
    ensures
        lasts(a, MermaidArgsV { files: a.files.push(file), ..a }),
{
    reveal(lasts);
}

proof fn lemma_lasts(list: Seq<Seq<char>>, i: int, a: MermaidArgsV)
    requires
        0 <= i,
    ensures
        mermaid_from(list, i, a) matches Ok(Some(b)) ==> lasts(a, b),
    decreases list.len() + 2 - i,
{
    let end = mermaid_from(list, i, a)->Ok_0->0;
    lemma_lasting(a, a, a);
    if i < list.len() && !asks_help(list[i]) {
        if with_flag(a, list[i]) is Some {
            let b = with_flag(a, list[i])->0;
            lemma_flag_lasts(a, list[i]);
            lemma_lasts(list, i + 1, b);
            lemma_lasting(a, b, end);
        } else if valued(list[i]) is Some {
            if i + 1 < list.len() {
                lemma_value_lasts(a, valued(list[i])->0, list[i + 1]);
                if let Ok(b) = with_value(
                    a,
                    valued(list[i])->0,
                    list[i + 1],
                    uppercase(list[i + 1]),
                ) {
                    lemma_lasts(list, i + 2, b);
                    lemma_lasting(a, b, end);
                }
            }
        } else if !looks_like_option(list[i]) {
            let b = MermaidArgsV { files: a.files.push(list[i]), ..a };
            lemma_file_lasts(a, list[i]);
            lemma_lasts(list, i + 1, b);
            lemma_lasting(a, b, end);
        }
    }
}

/// The word is an option that has a value behind it.
pub open spec fn takes_value(word: Seq<char>) -> bool {
    ||| word == "--direction"@
    ||| word == "--exclude"@
    ||| word == "--layout"@
    ||| word == "--title"@
    ||| word == "--max-fanout"@
    ||| word == "--links"@
    ||| word == "--h-spacing"@
    ||| word == "--v-spacing"@
    ||| word == "--select"@
    ||| word == "--html"@
    ||| word == "--render"@
    ||| word == "--update"@
    ||| word == "--output"@
    ||| word == "-d"@
    ||| word == "-x"@
    ||| word == "-o"@
}

/// Argument `i` is no value of another, counted from argument `j` on.
pub open spec fn speaks(list: Seq<Seq<char>>, j: int, i: int) -> bool
    decreases i + 2 - j,
{
    if j >= i {
        j == i
    } else if takes_value(list[j]) {
        speaks(list, j + 2, i)
    } else {
        speaks(list, j + 1, i)
    }
}

proof fn lemma_flag_alone(a: MermaidArgsV, word: Seq<char>)
    ensures
        with_flag(a, word) is Some ==> !takes_value(word) && in_effect(with_flag(a, word)->0, word),
        takes_value(word) <==> valued(word) is Some,
        takes_value(word) ==> with_flag(a, word) is None && !asks_help(word),
        with_flag(a, word) is None && !takes_value(word) ==> in_effect(a, word),
{
    lemma_words();
}

proof fn lemma_value_alone(a: MermaidArgsV, word: Seq<char>, v: Seq<char>)
    requires
        takes_value(word),
    ensures
        with_value(a, valued(word)->0, v, uppercase(v)) matches Ok(b) ==> in_effect(b, word),
{
    lemma_words();
}

proof fn lemma_effect_lasts(a: MermaidArgsV, b: MermaidArgsV, word: Seq<char>)
    requires
        lasts(a, b),
        in_effect(a, word),
    ensures
        in_effect(b, word),
{
    reveal(lasts);
}

proof fn lemma_spoken(list: Seq<Seq<char>>, j: int, a: MermaidArgsV, i: int)
    requires
        0 <= j <= i < list.len(),
        speaks(list, j, i),
        mermaid_from(list, j, a) matches Ok(Some(_)),
    ensures
        in_effect(mermaid_from(list, j, a)->Ok_0->0, list[i]),
    decreases list.len() + 2 - j,
{
    let last = mermaid_from(list, j, a)->Ok_0->0;
    lemma_flag_alone(a, list[j]);
    if with_flag(a, list[j]) is Some {
        let b = with_flag(a, list[j])->0;
        lemma_lasts(list, j + 1, b);
        if i == j {
            lemma_effect_lasts(b, last, list[i]);
        } else {
            lemma_spoken(list, j + 1, b, i);
        }
    } else if valued(list[j]) is Some {
        let b = with_value(a, valued(list[j])->0, list[j + 1], uppercase(list[j + 1]))->Ok_0;
        lemma_lasts(list, j + 2, b);
        lemma_value_alone(a, list[j], list[j + 1]);
        if i == j {
            lemma_effect_lasts(b, last, list[i]);
        } else {
            assert(speaks(list, j + 2, i));
            lemma_spoken(list, j + 2, b, i);
        }
    } else {
        let b = MermaidArgsV { files: a.files.push(list[j]), ..a };
        lemma_lasts(list, j + 1, b);
        if i == j {
            lemma_lasts(list, j, a);
            lemma_effect_lasts(a, last, list[i]);
        } else {
            lemma_spoken(list, j + 1, b, i);
        }
    }
}

/// Every option among the arguments, other than the value of another, has its own effect.
pub proof fn every_option_has_its_effect(list: Seq<Seq<char>>, a: MermaidArgsV, i: int)
    requires
        mermaid_args(list) == Ok::<Option<MermaidArgsV>, Seq<char>>(Some(a)),
        0 <= i < list.len(),
        speaks(list, 0, i),
    ensures
        in_effect(a, list[i]),
{
    lemma_spoken(list, 0, no_mermaid_args(), i);
}

proof fn lemma_view_said(o: OptionsV, p: OptionsV, list: Seq<Seq<char>>, word: Seq<char>)
    requires
        said(list, word),
        view_said(o, list),
        ((word == "--states"@) && p == (OptionsV { states: true, ..o })) ||
        ((word == "--runtime"@) && p == (OptionsV { runtime: true, ..o })) ||
        ((word == "--runtime-deps"@) && p == (OptionsV { runtime_deps: true, ..o })) ||
        ((word == "--anchor-uncoupled"@) && p == (OptionsV { anchor_uncoupled: true, ..o })) ||
        ((word == "-l"@ || word == "--legend"@) && p == (OptionsV { legend: true, ..o })) ||
        ((word == "-s"@ || word == "--signals"@) && p == (OptionsV { signals: true, ..o })) ||
        ((word == "-f"@ || word == "--full-paths"@) && p == (OptionsV { full_paths: true, ..o })) ||
        ((word == "--hide-cfg"@) && p == (OptionsV { show_cfg: false, ..o })) ||
        ((word == "--fragments"@) && p == (OptionsV { fragments: true, ..o })) ||
        ((word == "--executors"@) && p == (OptionsV { executors: true, ..o })) ||
        ((word == "--no-title"@) && p == (OptionsV { show_title: false, ..o })),
    ensures
        view_said(p, list),
{
    reveal(view_said);
}

proof fn lemma_view_keeps(o: OptionsV, p: OptionsV, list: Seq<Seq<char>>, word: Seq<char>)
    requires
        settings_said(o, list),
        ((word == "--states"@) && p == (OptionsV { states: true, ..o })) ||
        ((word == "--runtime"@) && p == (OptionsV { runtime: true, ..o })) ||
        ((word == "--runtime-deps"@) && p == (OptionsV { runtime_deps: true, ..o })) ||
        ((word == "--anchor-uncoupled"@) && p == (OptionsV { anchor_uncoupled: true, ..o })) ||
        ((word == "-l"@ || word == "--legend"@) && p == (OptionsV { legend: true, ..o })) ||
        ((word == "-s"@ || word == "--signals"@) && p == (OptionsV { signals: true, ..o })) ||
        ((word == "-f"@ || word == "--full-paths"@) && p == (OptionsV { full_paths: true, ..o })) ||
        ((word == "--hide-cfg"@) && p == (OptionsV { show_cfg: false, ..o })) ||
        ((word == "--fragments"@) && p == (OptionsV { fragments: true, ..o })) ||
        ((word == "--executors"@) && p == (OptionsV { executors: true, ..o })) ||
        ((word == "--no-title"@) && p == (OptionsV { show_title: false, ..o })),
    ensures
        settings_said(p, list),
{
    reveal(settings_said);
}

proof fn lemma_tool_said(a: MermaidArgsV, b: MermaidArgsV, list: Seq<Seq<char>>, word: Seq<char>)
    requires
        said(list, word),
        flags_said(a, list),
        targets_said(a, list),
        ((word == "-m"@ || word == "--markdown"@) && b == (MermaidArgsV { markdown: true, ..a })) ||
        ((word == "--list"@) && b == (MermaidArgsV { list: true, ..a })) ||
        ((word == "--all"@) && b == (MermaidArgsV { all: true, ..a })) ||
        ((word == "--deps"@) && b == (MermaidArgsV { deps: true, ..a })) ||
        ((word == "--json"@) && b == (MermaidArgsV { json: true, ..a })) ||
        ((word == "--check"@) && b == (MermaidArgsV { check: true, ..a })) ||
        ((word == "--live-url"@) && b == (MermaidArgsV { live_url: true, ..a })) ||
        ((word == "--watch"@) && b == (MermaidArgsV { watch: true, ..a })),
    ensures
        flags_said(b, list),
        targets_said(b, list),
        b.opts == a.opts,
        b.files == a.files,
{
    reveal(flags_said);
    reveal(targets_said);
}

proof fn lemma_other_view(a: MermaidArgsV, p: OptionsV, list: Seq<Seq<char>>)
    requires
        flags_said(a, list),
        targets_said(a, list),
    ensures
        flags_said(MermaidArgsV { opts: p, ..a }, list),
        targets_said(MermaidArgsV { opts: p, ..a }, list),
{
    reveal(flags_said);
    reveal(targets_said);
}

proof fn lemma_view_flag_said(o: OptionsV, list: Seq<Seq<char>>, word: Seq<char>)
    requires
        said(list, word),
        view_said(o, list),
        settings_said(o, list),
    ensures
        with_option_flag(o, word) matches Some(p) ==> view_said(p, list) && settings_said(p, list),
{
    lemma_view_shape(o, word);
    if let Some(p) = with_option_flag(o, word) {
        lemma_view_said(o, p, list, word);
        lemma_view_keeps(o, p, list, word);
    }
}

proof fn lemma_tool_flag_said(a: MermaidArgsV, list: Seq<Seq<char>>, word: Seq<char>)
    requires
        said(list, word),
        all_said(a, list),
    ensures
        with_tool_flag(a, word) matches Some(b) ==> all_said(b, list),
{
    lemma_tool_shape(a, word);
    if let Some(b) = with_tool_flag(a, word) {
        lemma_tool_said(a, b, list, word);
    }
}

proof fn lemma_said_flag(a: MermaidArgsV, list: Seq<Seq<char>>, i: int)
    requires
        0 <= i < list.len(),
        all_said(a, list),
    ensures
        with_flag(a, list[i]) matches Some(b) ==> all_said(b, list),
{
    let word = list[i];
    assert(said(list, word));
    lemma_view_flag_said(a.opts, list, word);
    lemma_tool_flag_said(a, list, word);
    if let Some(p) = with_option_flag(a.opts, word) {
        lemma_other_view(a, p, list);
    }
}

proof fn lemma_view_shape(o: OptionsV, word: Seq<char>)
    ensures
        with_option_flag(o, word) matches Some(p) ==> (
        ((word == "--states"@) && p == (OptionsV { states: true, ..o })) ||
        ((word == "--runtime"@) && p == (OptionsV { runtime: true, ..o })) ||
        ((word == "--runtime-deps"@) && p == (OptionsV { runtime_deps: true, ..o })) ||
        ((word == "--anchor-uncoupled"@) && p == (OptionsV { anchor_uncoupled: true, ..o })) ||
        ((word == "-l"@ || word == "--legend"@) && p == (OptionsV { legend: true, ..o })) ||
        ((word == "-s"@ || word == "--signals"@) && p == (OptionsV { signals: true, ..o })) ||
        ((word == "-f"@ || word == "--full-paths"@) && p == (OptionsV { full_paths: true, ..o })) ||
        ((word == "--hide-cfg"@) && p == (OptionsV { show_cfg: false, ..o })) ||
        ((word == "--fragments"@) && p == (OptionsV { fragments: true, ..o })) ||
        ((word == "--executors"@) && p == (OptionsV { executors: true, ..o })) ||
        ((word == "--no-title"@) && p == (OptionsV { show_title: false, ..o }))
        ),
{
}

proof fn lemma_tool_shape(a: MermaidArgsV, word: Seq<char>)
    ensures
        with_tool_flag(a, word) matches Some(b) ==> (
        ((word == "-m"@ || word == "--markdown"@) && b == (MermaidArgsV { markdown: true, ..a })) ||
        ((word == "--list"@) && b == (MermaidArgsV { list: true, ..a })) ||
        ((word == "--all"@) && b == (MermaidArgsV { all: true, ..a })) ||
        ((word == "--deps"@) && b == (MermaidArgsV { deps: true, ..a })) ||
        ((word == "--json"@) && b == (MermaidArgsV { json: true, ..a })) ||
        ((word == "--check"@) && b == (MermaidArgsV { check: true, ..a })) ||
        ((word == "--live-url"@) && b == (MermaidArgsV { live_url: true, ..a })) ||
        ((word == "--watch"@) && b == (MermaidArgsV { watch: true, ..a }))
        ),
{
}

proof fn lemma_setting_said(o: OptionsV, list: Seq<Seq<char>>, i: int, name: Seq<char>, v: Seq<char>)
    requires
        settings_said(o, list),
        said_with(list, list[i], v),
        valued(list[i]) == Some(name),
    ensures
        with_option_value(o, name, v, uppercase(v)) matches Some(Ok(p)) ==> settings_said(p, list),
{
    reveal(settings_said);
    lemma_words();
    if name == "--direction"@ {
        assert(said_direction(list, v));
    }
}

proof fn lemma_setting_keeps(o: OptionsV, list: Seq<Seq<char>>, name: Seq<char>, v: Seq<char>)
    requires
        view_said(o, list),
    ensures
        with_option_value(o, name, v, uppercase(v)) matches Some(Ok(p)) ==> view_said(p, list),
{
    reveal(view_said);
}

proof fn lemma_target_said(a: MermaidArgsV, list: Seq<Seq<char>>, i: int, name: Seq<char>, v: Seq<char>)
    requires
        targets_said(a, list),
        flags_said(a, list),
        said_with(list, list[i], v),
        valued(list[i]) == Some(name),
        with_option_value(a.opts, name, v, uppercase(v)) is None,
    ensures
        targets_said(with_tool_value(a, name, v), list),
        flags_said(with_tool_value(a, name, v), list),
        with_tool_value(a, name, v).opts == a.opts,
        with_tool_value(a, name, v).files == a.files,
{
    reveal(targets_said);
    reveal(flags_said);
    lemma_words();
}

proof fn lemma_said_value(a: MermaidArgsV, list: Seq<Seq<char>>, i: int)
    requires
        0 <= i < list.len() - 1,
        takes_value(list[i]),
        valued(list[i]) is Some,
        all_said(a, list),
    ensures
        with_value(a, valued(list[i])->0, list[i + 1], uppercase(list[i + 1])) matches Ok(b)
            ==> all_said(b, list),
{
    let v = list[i + 1];
    let name = valued(list[i])->0;
    assert(said_with(list, list[i], v));
    match with_option_value(a.opts, name, v, uppercase(v)) {
        Some(Ok(p)) => {
            lemma_setting_said(a.opts, list, i, name, v);
            lemma_setting_keeps(a.opts, list, name, v);
            let b = MermaidArgsV { opts: p, ..a };
            assert(flags_said(b, list) && targets_said(b, list)) by {
                reveal(flags_said);
                reveal(targets_said);
            }
        },
        Some(Err(_)) => {},
        None => {
            lemma_target_said(a, list, i, name, v);
        },
    }
}

proof fn lemma_said_file(a: MermaidArgsV, list: Seq<Seq<char>>, i: int)
    requires
        0 <= i < list.len(),
        all_said(a, list),
    ensures
        all_said(MermaidArgsV { files: a.files.push(list[i]), ..a }, list),
{
    reveal(flags_said);
    reveal(targets_said);
    let b = MermaidArgsV { files: a.files.push(list[i]), ..a };
    assert(said(list, list[i]));
    assert forall|k: int| 0 <= k < b.files.len() implies said(list, #[trigger] b.files[k]) by {
        if k < a.files.len() {
            assert(b.files[k] == a.files[k]);
        }
    }
}

proof fn lemma_said(list: Seq<Seq<char>>, i: int, a: MermaidArgsV)
    requires
        0 <= i,
        all_said(a, list),
    ensures
        mermaid_from(list, i, a) matches Ok(Some(b)) ==> all_said(b, list),
    decreases list.len() + 2 - i,
{
    if i < list.len() && !asks_help(list[i]) {
        lemma_flag_alone(a, list[i]);
        if with_flag(a, list[i]) is Some {
            lemma_said_flag(a, list, i);
            lemma_said(list, i + 1, with_flag(a, list[i])->0);
        } else if valued(list[i]) is Some {
            if i + 1 < list.len() {
                lemma_said_value(a, list, i);
                if let Ok(b) = with_value(
                    a,
                    valued(list[i])->0,
                    list[i + 1],
                    uppercase(list[i + 1]),
                ) {
                    lemma_said(list, i + 2, b);
                }
            }
        } else if !looks_like_option(list[i]) {
            let b = MermaidArgsV { files: a.files.push(list[i]), ..a };
            lemma_said_file(a, list, i);
            lemma_said(list, i + 1, b);
        }
    }
}

/// Nothing is asked for that no argument says: each effect goes back to an option of its own, and a
/// value to the argument behind its option.
pub proof fn nothing_is_asked_for_unsaid(list: Seq<Seq<char>>, a: MermaidArgsV)
    requires
        mermaid_args(list) == Ok::<Option<MermaidArgsV>, Seq<char>>(Some(a)),
    ensures
        all_said(a, list),
{
    assert(all_said(no_mermaid_args(), list)) by {
        reveal(view_said);
        reveal(flags_said);
        reveal(settings_said);
        reveal(targets_said);
    }
    lemma_said(list, 0, no_mermaid_args());
}

/// Options that contradict each other are refused.
pub proof fn what_is_asked_for_goes_together(list: Seq<Seq<char>>, a: MermaidArgsV)
    requires
        mermaid_args(list) == Ok::<Option<MermaidArgsV>, Seq<char>>(Some(a)),
    ensures
        !(a.opts.states && a.opts.runtime),
        !(a.opts.fragments && a.opts.executors),
        a.opts.anchor_uncoupled || a.opts.runtime_deps ==> a.opts.runtime,
        a.opts.title is Some ==> a.opts.show_title,
        a.watch ==> a.output is Some || a.html is Some || a.render_to is Some || a.update is Some,
{
}

} // verus!
